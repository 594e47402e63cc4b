//! Formatting of raw quantities for display: decimal digits, and unit
//! scaling in metric (powers of 1000) or binary (powers of 1024) scale with
//! one decimal place.

use vstd::prelude::*;

verus! {

/// The decimal digit character for `d` (which must be below ten).
pub open spec fn digit_char(d: int) -> char {
    ((d + 48) as u8) as char
}

/// The decimal digits of `n`, most significant first, without leading
/// zeroes (a single `'0'` for zero).
pub open spec fn spec_digits(n: u64) -> Seq<char>
    decreases n,
{
    if n < 10 {
        seq![digit_char(n as int)]
    } else {
        spec_digits(n / 10).push(digit_char((n % 10) as int))
    }
}

/// The decimal digits of `n` as characters.
pub fn u64_to_digits(n: u64) -> (r: Vec<char>)
    ensures
        r@ == spec_digits(n),
    decreases n,
{
    if n < 10 {
        let mut v: Vec<char> = Vec::new();
        v.push((n as u8 + 48) as char);
        proof {
            assert(v@ =~= spec_digits(n));
        }
        v
    } else {
        let mut v = u64_to_digits(n / 10);
        v.push(((n % 10) as u8 + 48) as char);
        proof {
            assert(v@ =~= spec_digits(n));
        }
        v
    }
}

/// Relies on `String: FromIterator<char>`: collecting characters yields the
/// string of exactly those characters in order.
#[verifier::external_body]
pub(crate) fn chars_to_string(v: &Vec<char>) -> (r: String)
    ensures
        r@ == v@,
{
    v.iter().collect()
}

/// A scaled quantity: `whole` units, one decimal place `tenth`, and the
/// unit letter.
#[derive(Clone, Copy, Debug, PartialEq, Eq, Structural)]
pub struct ParsedValue {
    /// Whole number of units.
    pub whole: u64,
    /// Tenths of one unit, truncated.
    pub tenth: u64,
    /// The unit letter: `B`, `K`, `M`, `G`, `T` or `P`.
    pub unit: char,
}

/// What [`BytesFormat::format`] produces: either the raw number or a scaled
/// value with a unit.
#[derive(Clone, Copy, Debug, PartialEq, Eq, Structural)]
pub enum Output {
    /// The value as-is.
    PlainNumber(u64),
    /// The value scaled to a unit.
    Units(ParsedValue),
}

/// Scale `n` down by `divisor`, keeping one truncated decimal place.
pub open spec fn spec_scaled(n: u64, divisor: u64, unit: char) -> Output {
    Output::Units(
        ParsedValue {
            whole: (n / divisor) as u64,
            tenth: ((n % divisor) * 10 / (divisor as int)) as u64,
            unit,
        },
    )
}

/// Unit selection: the largest power of `base` (1000 or 1024) that fits
/// into `n` decides the unit letter; quantities below one `K` keep the unit
/// `B` with a zero decimal place. The thresholds are the powers themselves.
pub open spec fn spec_units_metric(n: u64) -> Output {
    if n < 1000 {
        Output::Units(ParsedValue { whole: n, tenth: 0, unit: 'B' })
    } else if n < 1000000 {
        spec_scaled(n, 1000, 'K')
    } else if n < 1000000000 {
        spec_scaled(n, 1000000, 'M')
    } else if n < 1000000000000 {
        spec_scaled(n, 1000000000, 'G')
    } else if n < 1000000000000000 {
        spec_scaled(n, 1000000000000, 'T')
    } else {
        spec_scaled(n, 1000000000000000, 'P')
    }
}

/// Unit selection in binary scale: powers of 1024 instead of 1000.
pub open spec fn spec_units_binary(n: u64) -> Output {
    if n < 1024 {
        Output::Units(ParsedValue { whole: n, tenth: 0, unit: 'B' })
    } else if n < 1048576 {
        spec_scaled(n, 1024, 'K')
    } else if n < 1073741824 {
        spec_scaled(n, 1048576, 'M')
    } else if n < 1099511627776 {
        spec_scaled(n, 1073741824, 'G')
    } else if n < 1125899906842624 {
        spec_scaled(n, 1099511627776, 'T')
    } else {
        spec_scaled(n, 1125899906842624, 'P')
    }
}

/// What [`BytesFormat::format`] returns for every format and value.
pub open spec fn spec_format(f: BytesFormat, n: u64) -> Output {
    match f {
        BytesFormat::PlainNumber => Output::PlainNumber(n),
        BytesFormat::MetricUnits => spec_units_metric(n),
        BytesFormat::BinaryUnits => spec_units_binary(n),
    }
}

/// How a quantity of bytes is displayed.
#[derive(Clone, Copy, Debug, PartialEq, Eq, Structural)]
pub enum BytesFormat {
    /// Display the value as-is.
    PlainNumber,
    /// Display the value with a unit suffix in metric scale.
    MetricUnits,
    /// Display the value with a unit suffix in binary scale.
    BinaryUnits,
}

/// Scale `bytes` down by `divisor`, keeping one truncated decimal place.
fn scaled(bytes: u64, divisor: u64, unit: char) -> (r: Output)
    requires
        10 <= divisor <= 1125899906842624,
    ensures
        r == spec_scaled(bytes, divisor, unit),
{
    let rem = bytes % divisor;
    proof {
        assert(rem * 10 / (divisor as int) < 10) by (nonlinear_arith)
            requires
                0 <= rem < divisor,
                divisor >= 10,
        ;
        assert(rem * 10 <= u64::MAX) by (nonlinear_arith)
            requires
                0 <= rem < divisor,
                divisor <= 1125899906842624,
        ;
    }
    Output::Units(ParsedValue { whole: bytes / divisor, tenth: rem * 10 / divisor, unit })
}

/// Format in metric scale.
fn format_metric(bytes: u64) -> (r: Output)
    ensures
        r == spec_units_metric(bytes),
{
    if bytes < 1000 {
        Output::Units(ParsedValue { whole: bytes, tenth: 0, unit: 'B' })
    } else if bytes < 1000000 {
        scaled(bytes, 1000, 'K')
    } else if bytes < 1000000000 {
        scaled(bytes, 1000000, 'M')
    } else if bytes < 1000000000000 {
        scaled(bytes, 1000000000, 'G')
    } else if bytes < 1000000000000000 {
        scaled(bytes, 1000000000000, 'T')
    } else {
        scaled(bytes, 1000000000000000, 'P')
    }
}

/// Format in binary scale.
fn format_binary(bytes: u64) -> (r: Output)
    ensures
        r == spec_units_binary(bytes),
{
    if bytes < 1024 {
        Output::Units(ParsedValue { whole: bytes, tenth: 0, unit: 'B' })
    } else if bytes < 1048576 {
        scaled(bytes, 1024, 'K')
    } else if bytes < 1073741824 {
        scaled(bytes, 1048576, 'M')
    } else if bytes < 1099511627776 {
        scaled(bytes, 1073741824, 'G')
    } else if bytes < 1125899906842624 {
        scaled(bytes, 1099511627776, 'T')
    } else {
        scaled(bytes, 1125899906842624, 'P')
    }
}

impl BytesFormat {
    /// Format a quantity of bytes according to the settings.
    pub fn format(self, bytes: u64) -> (r: Output)
        ensures
            r == spec_format(self, bytes),
    {
        match self {
            BytesFormat::PlainNumber => Output::PlainNumber(bytes),
            BytesFormat::MetricUnits => format_metric(bytes),
            BytesFormat::BinaryUnits => format_binary(bytes),
        }
    }
}

/// The characters a formatted quantity displays as: plain digits, or
/// `whole.tenth` followed by the unit letter. A decimal place beyond nine
/// (which [`BytesFormat::format`] never produces) displays as nine.
pub open spec fn spec_output_text(o: Output) -> Seq<char> {
    match o {
        Output::PlainNumber(n) => spec_digits(n),
        Output::Units(pv) => spec_digits(pv.whole) + seq![
            '.',
            digit_char(
                if pv.tenth < 10 {
                    pv.tenth as int
                } else {
                    9
                },
            ),
            pv.unit,
        ],
    }
}

impl Output {
    /// The characters this output displays as.
    pub fn text(&self) -> (r: Vec<char>)
        ensures
            r@ == spec_output_text(*self),
    {
        match self {
            Output::PlainNumber(n) => u64_to_digits(*n),
            Output::Units(pv) => {
                let mut v = u64_to_digits(pv.whole);
                v.push('.');
                let tenth = if pv.tenth < 10 {
                    pv.tenth
                } else {
                    9
                };
                v.push((tenth as u8 + 48) as char);
                v.push(pv.unit);
                proof {
                    assert(v@ =~= spec_output_text(*self));
                }
                v
            },
        }
    }
}

} // verus!
