use parallel_disk_usage::bytes_format::{BytesFormat, Output, ParsedValue};

#[test]
fn plain_number_is_untouched() {
    assert_eq!(
        BytesFormat::PlainNumber.format(1234),
        Output::PlainNumber(1234)
    );
    assert_eq!(BytesFormat::PlainNumber.format(0), Output::PlainNumber(0));
}

#[test]
fn metric_units_scale_by_thousands() {
    assert_eq!(
        BytesFormat::MetricUnits.format(999),
        Output::Units(ParsedValue {
            whole: 999,
            tenth: 0,
            unit: 'B',
        })
    );
    assert_eq!(
        BytesFormat::MetricUnits.format(1500),
        Output::Units(ParsedValue {
            whole: 1,
            tenth: 5,
            unit: 'K',
        })
    );
    assert_eq!(
        BytesFormat::MetricUnits.format(2_500_000),
        Output::Units(ParsedValue {
            whole: 2,
            tenth: 5,
            unit: 'M',
        })
    );
    assert_eq!(
        BytesFormat::MetricUnits.format(7_000_000_000),
        Output::Units(ParsedValue {
            whole: 7,
            tenth: 0,
            unit: 'G',
        })
    );
}

#[test]
fn binary_units_scale_by_1024() {
    assert_eq!(
        BytesFormat::BinaryUnits.format(1023),
        Output::Units(ParsedValue {
            whole: 1023,
            tenth: 0,
            unit: 'B',
        })
    );
    assert_eq!(
        BytesFormat::BinaryUnits.format(1536),
        Output::Units(ParsedValue {
            whole: 1,
            tenth: 5,
            unit: 'K',
        })
    );
    assert_eq!(
        BytesFormat::BinaryUnits.format(1024 * 1024),
        Output::Units(ParsedValue {
            whole: 1,
            tenth: 0,
            unit: 'M',
        })
    );
}

#[test]
fn output_text_shows_digits_and_unit() {
    assert_eq!(
        Output::PlainNumber(1234).text(),
        vec!['1', '2', '3', '4'],
    );
    assert_eq!(Output::PlainNumber(0).text(), vec!['0']);
    assert_eq!(
        Output::Units(ParsedValue {
            whole: 1,
            tenth: 5,
            unit: 'K',
        })
        .text(),
        vec!['1', '.', '5', 'K'],
    );
}
