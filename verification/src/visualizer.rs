//! Pure, single-threaded rendering of a built [`Tree`] into fixed-width
//! text rows: tree-skeleton glyphs and a clipped name on the left, the
//! formatted size in the middle, and a proportional bar on the right.

use vstd::prelude::*;
use crate::bytes_format::{chars_to_string, spec_format, spec_output_text, BytesFormat};
use crate::size::Size;
use crate::tree::{Tree, TreeV};

pub mod column_width_distribution;

verus! {

use crate::visualizer::column_width_distribution::ColumnWidthDistribution;

/// Vertical emission order of the rendered rows.
#[derive(Clone, Copy, Debug, PartialEq, Eq, Structural)]
pub enum Direction {
    /// Emit rows in pre-order traversal order, root first.
    TopDown,
    /// Emit the same rows in reverse order, root last.
    BottomUp,
}

/// Rejected layout configuration, detected before any row is rendered.
#[derive(Clone, Copy, Debug, PartialEq, Eq, Structural)]
pub enum LayoutError {
    /// The requested widths cannot fit within the line: they exceed the
    /// maximum line width, or leave no room for the tree and bar columns.
    InsufficientWidth,
}

/// `count` copies of one character (none for a non-positive count).
pub open spec fn repeat_char(ch: char, count: int) -> Seq<char> {
    if count <= 0 {
        Seq::empty()
    } else {
        Seq::new(count as nat, |i: int| ch)
    }
}

/// The four glyphs that introduce a non-root row: the branch connector
/// (`└` for a last child, `├` otherwise), a horizontal line, the parenthood
/// marker (`┬` for a node with children, `─` for a leaf), and a space.
pub open spec fn branch_glyphs(is_last: bool, has_children: bool) -> Seq<char> {
    seq![
        if is_last {
            '└'
        } else {
            '├'
        },
        '─',
        if has_children {
            '┬'
        } else {
            '─'
        },
        ' ',
    ]
}

/// The four glyphs one ancestor contributes to its descendants' rows: a
/// vertical continuation if that ancestor has later siblings, blanks if it
/// was its parent's last child.
pub open spec fn continuation_glyphs(is_last: bool) -> Seq<char> {
    if is_last {
        seq![' ', ' ', ' ', ' ']
    } else {
        seq!['│', ' ', ' ', ' ']
    }
}

/// One row before layout: the skeleton prefix with the node's name, and the
/// node's data.
#[verifier::ext_equal]
pub struct RowModel {
    pub left: Seq<char>,
    pub data: u64,
}

/// Executable counterpart of [`RowModel`].
#[derive(Debug)]
pub struct RowParts {
    /// The skeleton prefix followed by the node's name.
    pub left: Vec<char>,
    /// The node's data value.
    pub data: u64,
}

impl View for RowParts {
    type V = RowModel;

    open spec fn view(&self) -> RowModel {
        RowModel { left: self.left@, data: self.data }
    }
}

/// The views of collected row parts, in order.
pub open spec fn rows_view(v: Seq<RowParts>) -> Seq<RowModel> {
    Seq::new(v.len(), |i: int| v[i]@)
}

/// The rows of the subtree rooted at `t`, in depth-first pre-order: the
/// node's own row (its ancestors' continuation glyphs, its branch glyphs
/// and its name), followed by the rows of its children in stored order.
/// The root row carries the bare name.
pub open spec fn spec_rows(t: TreeV, anc: Seq<char>, is_root: bool, is_last: bool) -> Seq<RowModel>
    decreases t,
{
    let left = if is_root {
        t.name
    } else {
        anc + branch_glyphs(is_last, t.children.len() > 0) + t.name
    };
    let child_anc = if is_root {
        anc
    } else {
        anc + continuation_glyphs(is_last)
    };
    seq![RowModel { left, data: t.data }] + spec_forest_rows(t.children, child_anc)
}

/// The rows of a forest under one ancestor prefix; only the final subtree
/// is a last child.
pub open spec fn spec_forest_rows(cs: Seq<TreeV>, anc: Seq<char>) -> Seq<RowModel>
    decreases cs,
{
    if cs.len() == 0 {
        Seq::empty()
    } else {
        spec_rows(cs[0], anc, false, cs.len() == 1) + spec_forest_rows(cs.drop_first(), anc)
    }
}

/// Relies on `str::chars`: iterating a string's characters yields exactly
/// its view, in order.
#[verifier::external_body]
fn string_to_chars(s: &String) -> (r: Vec<char>)
    ensures
        r@ == s@,
{
    s.chars().collect()
}

/// Append every character of `src` to `dst`.
fn push_all(dst: &mut Vec<char>, src: &Vec<char>)
    ensures
        final(dst)@ == old(dst)@ + src@,
{
    let mut i: usize = 0;
    while i < src.len()
        invariant
            i <= src@.len(),
            dst@ == old(dst)@ + src@.take(i as int),
        decreases src@.len() - i,
    {
        dst.push(src[i]);
        proof {
            assert(old(dst)@ + src@.take(i as int) + seq![src@[i as int]] =~= old(dst)@
                + src@.take(i as int + 1));
        }
        i += 1;
    }
    proof {
        assert(src@.take(src@.len() as int) =~= src@);
    }
}

/// Append `count` copies of `ch` to `dst`.
fn push_repeat(dst: &mut Vec<char>, ch: char, count: usize)
    ensures
        final(dst)@ == old(dst)@ + repeat_char(ch, count as int),
{
    let mut i: usize = 0;
    while i < count
        invariant
            i <= count,
            dst@ == old(dst)@ + repeat_char(ch, i as int),
        decreases count - i,
    {
        dst.push(ch);
        proof {
            assert(old(dst)@ + repeat_char(ch, i as int) + seq![ch] =~= old(dst)@ + repeat_char(
                ch,
                i as int + 1,
            ));
        }
        i += 1;
    }
}

/// Collect the rows of the subtree rooted at `t` in pre-order, appending
/// them to `out`.
fn collect_rows<D: Size>(
    t: &Tree<D>,
    anc: &Vec<char>,
    is_root: bool,
    is_last: bool,
    out: &mut Vec<RowParts>,
)
    ensures
        rows_view(final(out)@) == rows_view(old(out)@) + spec_rows(t@, anc@, is_root, is_last),
    decreases *t,
{
    let has_children = t.children.len() > 0;
    let mut left: Vec<char> = Vec::new();
    if !is_root {
        push_all(&mut left, anc);
        if is_last {
            left.push('└');
        } else {
            left.push('├');
        }
        left.push('─');
        if has_children {
            left.push('┬');
        } else {
            left.push('─');
        }
        left.push(' ');
        proof {
            assert(left@ =~= anc@ + branch_glyphs(is_last, has_children));
        }
    }
    let name_chars = string_to_chars(&t.name);
    push_all(&mut left, &name_chars);
    let ghost spec_left = if is_root {
        t@.name
    } else {
        anc@ + branch_glyphs(is_last, t@.children.len() > 0)
            + t@.name
    };
    proof {
        assert(t@.children.len() == t.children@.len()) by {
            crate::tree::lemma_forest_view_index(t.children@);
        }
        assert(left@ =~= spec_left);
    }
    out.push(RowParts { left, data: t.data.value() });
    let mut child_anc: Vec<char> = Vec::new();
    push_all(&mut child_anc, anc);
    if !is_root {
        if is_last {
            push_repeat(&mut child_anc, ' ', 4);
        } else {
            child_anc.push('│');
            push_repeat(&mut child_anc, ' ', 3);
        }
        proof {
            assert(child_anc@ =~= anc@ + continuation_glyphs(is_last));
        }
    }
    proof {
        assert(child_anc@ =~= if is_root {
            anc@
        } else {
            anc@ + continuation_glyphs(is_last)
        });
        assert(rows_view(out@) =~= rows_view(old(out)@) + seq![
            RowModel { left: spec_left, data: t@.data },
        ]);
    }
    collect_forest_rows(&t.children, &child_anc, out);
    proof {
        assert(t@.children == crate::tree::forest_view(t.children@));
        assert(rows_view(final(out)@) =~= rows_view(old(out)@) + spec_rows(
            t@,
            anc@,
            is_root,
            is_last,
        ));
    }
}

/// Collect the rows of every subtree of the forest, appending them to
/// `out`.
fn collect_forest_rows<D: Size>(v: &Vec<Tree<D>>, anc: &Vec<char>, out: &mut Vec<RowParts>)
    ensures
        rows_view(final(out)@) == rows_view(old(out)@) + spec_forest_rows(
            crate::tree::forest_view(v@),
            anc@,
        ),
    decreases *v,
{
    let count = v.len();
    let ghost fv = crate::tree::forest_view(v@);
    proof {
        crate::tree::lemma_forest_view_index(v@);
        assert(fv.skip(0) =~= fv);
    }
    let mut i: usize = 0;
    while i < count
        invariant
            count == v@.len(),
            fv == crate::tree::forest_view(v@),
            fv.len() == count,
            forall|k: int| 0 <= k < count ==> fv[k] == v@[k]@,
            i <= count,
            rows_view(out@) + spec_forest_rows(fv.skip(i as int), anc@) == rows_view(old(out)@)
                + spec_forest_rows(fv, anc@),
        decreases count - i,
    {
        let is_last = i + 1 == count;
        proof {
            assert(fv.skip(i as int)[0] == fv[i as int]);
            assert(fv.skip(i as int).drop_first() =~= fv.skip(i as int + 1));
            assert(fv.skip(i as int).len() == 1 <==> i + 1 == count);
        }
        collect_rows(&v[i], anc, false, is_last, out);
        proof {
            assert(rows_view(out@) + spec_forest_rows(fv.skip(i as int + 1), anc@) =~= rows_view(
                old(out)@,
            ) + spec_forest_rows(fv, anc@));
        }
        i += 1;
    }
    proof {
        assert(fv.skip(count as int) =~= Seq::<TreeV>::empty());
        assert(rows_view(final(out)@) =~= rows_view(old(out)@) + spec_forest_rows(fv, anc@));
    }
}

/// The size label of one row: its data value formatted for display.
pub open spec fn spec_label(data: u64, fmt: BytesFormat) -> Seq<char> {
    spec_output_text(spec_format(fmt, data))
}

/// The widest size label over the rows.
pub open spec fn spec_max_label(rows: Seq<RowModel>, fmt: BytesFormat) -> int
    decreases rows.len(),
{
    if rows.len() == 0 {
        0
    } else {
        let rest = spec_max_label(rows.drop_last(), fmt);
        let last = spec_label(rows.last().data, fmt).len() as int;
        if last > rest {
            last
        } else {
            rest
        }
    }
}

/// The widest skeleton-plus-name prefix over the rows.
pub open spec fn spec_max_left(rows: Seq<RowModel>) -> int
    decreases rows.len(),
{
    if rows.len() == 0 {
        0
    } else {
        let rest = spec_max_left(rows.drop_last());
        let last = rows.last().left.len() as int;
        if last > rest {
            last
        } else {
            rest
        }
    }
}

/// No row's label is wider than the maximum.
pub proof fn lemma_max_label_bounds(rows: Seq<RowModel>, fmt: BytesFormat)
    ensures
        spec_max_label(rows, fmt) >= 0,
        forall|i: int|
            0 <= i < rows.len() ==> spec_label(rows[i].data, fmt).len() <= spec_max_label(
                rows,
                fmt,
            ),
    decreases rows.len(),
{
    if rows.len() > 0 {
        lemma_max_label_bounds(rows.drop_last(), fmt);
        assert forall|i: int|
            0 <= i < rows.len() implies spec_label(rows[i].data, fmt).len() <= spec_max_label(
            rows,
            fmt,
        ) by {
            if i < rows.len() - 1 {
                assert(rows.drop_last()[i] == rows[i]);
            }
        }
    }
}

/// Bar fill in eighths of a character: the column width times the node's
/// share of the root capacity, floored; a node at or above the capacity
/// fills the column, and a zero capacity draws nothing.
pub open spec fn bar_eighths(d: u64, c: u64, w: int) -> int {
    if c == 0 {
        0
    } else if d >= c {
        8 * w
    } else {
        (8 * w * d) / (c as int)
    }
}

/// The fixed ordered palette of partial-fill glyphs: `frac` eighths of one
/// character, for `frac` between one and seven.
pub open spec fn eighth_char(frac: int) -> char {
    if frac == 1 {
        '▏'
    } else if frac == 2 {
        '▎'
    } else if frac == 3 {
        '▍'
    } else if frac == 4 {
        '▌'
    } else if frac == 5 {
        '▋'
    } else if frac == 6 {
        '▊'
    } else {
        '▉'
    }
}

/// The bar column: full blocks, at most one partial-fill glyph for the
/// fractional remainder, and spaces up to the column width.
pub open spec fn spec_bar_cell(d: u64, c: u64, w: int) -> Seq<char> {
    let e = bar_eighths(d, c, w);
    let filled = e / 8;
    let frac = e % 8;
    repeat_char('█', filled) + (if frac > 0 {
        seq![eighth_char(frac)]
    } else {
        Seq::<char>::empty()
    }) + repeat_char(
        ' ',
        w - filled - (if frac > 0 {
            1int
        } else {
            0int
        }),
    )
}

/// How many characters of the bar column are visibly filled: the full
/// blocks plus the partial glyph if there is one.
pub open spec fn bar_visible_width(d: u64, c: u64, w: int) -> int {
    let e = bar_eighths(d, c, w);
    e / 8 + if e % 8 > 0 {
        1int
    } else {
        0int
    }
}

/// The eighths never exceed the whole column.
pub proof fn lemma_bar_eighths_bounds(d: u64, c: u64, w: int)
    requires
        w >= 0,
    ensures
        0 <= bar_eighths(d, c, w) <= 8 * w,
{
    if c > 0 && d < c {
        assert(8 * w * d >= 0 && 8 * w * d <= 8 * w * c) by (nonlinear_arith)
            requires
                0 <= d <= c,
                w >= 0,
        ;
        vstd::arithmetic::div_mod::lemma_div_pos_is_pos(8 * w * d, c as int);
        vstd::arithmetic::div_mod::lemma_div_is_ordered(8 * w * d, 8 * w * c, c as int);
        vstd::arithmetic::div_mod::lemma_div_by_multiple(8 * w, c as int);
        assert((8 * w * c) / (c as int) == 8 * w);
        assert(bar_eighths(d, c, w) == (8 * w * d) / (c as int));
    }
}

/// The bar column is exactly as wide as asked, and a full-capacity node
/// fills all of it.
pub proof fn lemma_bar_cell_len(d: u64, c: u64, w: int)
    requires
        w >= 0,
    ensures
        spec_bar_cell(d, c, w).len() == w,
        0 <= bar_visible_width(d, c, w) <= w,
{
    lemma_bar_eighths_bounds(d, c, w);
    let e = bar_eighths(d, c, w);
    assert(e / 8 <= w && e / 8 >= 0);
    if e / 8 == w {
        assert(e == 8 * w);
        assert(e % 8 == 0);
    }
}

/// Bar monotonicity and boundedness: under one root capacity, a node with
/// more data never gets a visibly narrower bar; the bar never exceeds the
/// column; a node holding the whole capacity fills the column exactly; a
/// zero capacity draws a zero-width bar for every node.
pub proof fn lemma_bar_properties(d1: u64, d2: u64, c: u64, w: int)
    requires
        w >= 0,
        d1 <= d2,
    ensures
        bar_visible_width(d1, c, w) <= bar_visible_width(d2, c, w),
        0 <= bar_visible_width(d1, c, w) <= w,
        c > 0 ==> bar_visible_width(c, c, w) == w,
        c == 0 ==> bar_visible_width(d1, c, w) == 0,
{
    lemma_bar_eighths_bounds(d1, c, w);
    lemma_bar_eighths_bounds(d2, c, w);
    lemma_bar_cell_len(d1, c, w);
    let e1 = bar_eighths(d1, c, w);
    let e2 = bar_eighths(d2, c, w);
    if c > 0 {
        if d1 < c && d2 < c {
            assert(8 * w * d1 <= 8 * w * d2) by (nonlinear_arith)
                requires
                    0 <= d1 <= d2,
                    w >= 0,
            ;
            vstd::arithmetic::div_mod::lemma_div_is_ordered(8 * w * d1, 8 * w * d2, c as int);
        }
        assert(e1 <= e2);
        assert(e1 == 8 * (e1 / 8) + e1 % 8) by {
            vstd::arithmetic::div_mod::lemma_fundamental_div_mod(e1, 8);
        }
        assert(e2 == 8 * (e2 / 8) + e2 % 8) by {
            vstd::arithmetic::div_mod::lemma_fundamental_div_mod(e2, 8);
        }
        assert(bar_visible_width(d1, c, w) <= bar_visible_width(d2, c, w));
        assert(bar_eighths(c, c, w) == 8 * w);
        assert((8 * w) % 8 == 0) by {
            vstd::arithmetic::div_mod::lemma_mod_multiples_basic(w, 8);
        }
        assert((8 * w) / 8 == w) by {
            vstd::arithmetic::div_mod::lemma_div_multiples_vanish(w, 8);
        }
    }
}

/// The bar column reads as its visibly filled characters followed by
/// spaces: a character of the cell is a space exactly from the visible
/// width on.
pub proof fn lemma_bar_cell_visible(d: u64, c: u64, w: int)
    requires
        w >= 0,
    ensures
        forall|j: int|
            0 <= j < w ==> ((#[trigger] spec_bar_cell(d, c, w)[j] == ' ') <==> j
                >= bar_visible_width(d, c, w)),
{
    lemma_bar_eighths_bounds(d, c, w);
    lemma_bar_cell_len(d, c, w);
    let e = bar_eighths(d, c, w);
    let filled = e / 8;
    let frac = e % 8;
    let cell = spec_bar_cell(d, c, w);
    assert forall|j: int|
        0 <= j < w implies ((#[trigger] cell[j] == ' ') <==> j >= bar_visible_width(
        d,
        c,
        w,
    )) by {
        if j < filled {
            assert(cell[j] == '█');
        } else if frac > 0 && j == filled {
            assert(cell[j] == eighth_char(frac));
            assert(1 <= frac < 8);
            assert(eighth_char(frac) != ' ');
        } else {
            assert(cell[j] == ' ');
        }
    }
}

/// The partial-fill glyph for `frac` eighths.
fn eighth_glyph(frac: u64) -> (r: char)
    ensures
        r == eighth_char(frac as int),
{
    if frac == 1 {
        '▏'
    } else if frac == 2 {
        '▎'
    } else if frac == 3 {
        '▍'
    } else if frac == 4 {
        '▌'
    } else if frac == 5 {
        '▋'
    } else if frac == 6 {
        '▊'
    } else {
        '▉'
    }
}

/// Render the bar column for a node with data `d` under root capacity `c`.
fn bar_cell(d: u64, c: u64, w: usize) -> (r: Vec<char>)
    requires
        w <= 65535,
    ensures
        r@ == spec_bar_cell(d, c, w as int),
{
    proof {
        lemma_bar_eighths_bounds(d, c, w as int);
    }
    let e: u64 = if c == 0 {
        0
    } else if d >= c {
        8 * (w as u64)
    } else {
        proof {
            assert(8 * (w as int) * (d as int) <= u128::MAX) by (nonlinear_arith)
                requires
                    0 <= w <= 65535,
                    0 <= d <= u64::MAX,
            ;
        }
        let num: u128 = 8u128 * (w as u128) * (d as u128);
        let q: u128 = num / (c as u128);
        proof {
            assert(q == bar_eighths(d, c, w as int));
        }
        q as u64
    };
    let filled: usize = (e / 8) as usize;
    let frac: u64 = e % 8;
    let mut v: Vec<char> = Vec::new();
    push_repeat(&mut v, '█', filled);
    if frac > 0 {
        v.push(eighth_glyph(frac));
        push_repeat(&mut v, ' ', w - filled - 1);
    } else {
        push_repeat(&mut v, ' ', w - filled);
    }
    proof {
        assert(v@ =~= spec_bar_cell(d, c, w as int));
    }
    v
}

/// The tree cell: the prefix as-is, padded with spaces up to the column
/// width, or clipped with a trailing ellipsis mark if it is too wide.
pub open spec fn spec_fit(s: Seq<char>, width: int) -> Seq<char> {
    if s.len() <= width {
        s + repeat_char(' ', width - s.len())
    } else {
        s.take(width - 1).push('…')
    }
}

/// Fit a cell's content to an exact column width.
fn fit_cell(s: &Vec<char>, width: usize) -> (r: Vec<char>)
    requires
        width >= 1,
    ensures
        r@ == spec_fit(s@, width as int),
{
    let mut v: Vec<char> = Vec::new();
    if s.len() <= width {
        push_all(&mut v, s);
        push_repeat(&mut v, ' ', width - s.len());
        proof {
            assert(v@ =~= spec_fit(s@, width as int));
        }
    } else {
        let mut i: usize = 0;
        while i < width - 1
            invariant
                width >= 1,
                width - 1 <= s@.len(),
                i <= width - 1,
                v@ == s@.take(i as int),
            decreases width - 1 - i,
        {
            v.push(s[i]);
            proof {
                assert(s@.take(i as int).push(s@[i as int]) =~= s@.take(i as int + 1));
            }
            i += 1;
        }
        v.push('…');
        proof {
            assert(v@ =~= spec_fit(s@, width as int));
        }
    }
    v
}

/// How the two column widths are resolved from the distribution, the
/// widest label, the widest prefix and the maximum line width: an explicit
/// `Components` request is used as-is when each column is at least one
/// character wide and everything fits within the line; a `Total` budget
/// must itself fit within the line, then first reserves the label column
/// and the two separating spaces, then gives the tree column its widest
/// prefix, capped so the bar keeps at least one character, and the bar
/// column the remainder.
pub open spec fn spec_resolve(
    dist: ColumnWidthDistribution,
    label_w: int,
    left_w: int,
    max_width: u16,
) -> Result<(int, int), LayoutError> {
    match dist {
        ColumnWidthDistribution::Total { max_width: budget } => {
            if budget > max_width {
                Err(LayoutError::InsufficientWidth)
            } else if budget < label_w + 4 {
                Err(LayoutError::InsufficientWidth)
            } else {
                let avail = budget - 2 - label_w;
                let t = if left_w < 1 {
                    1int
                } else if left_w > avail - 1 {
                    avail - 1
                } else {
                    left_w
                };
                Ok((t, avail - t))
            }
        },
        ColumnWidthDistribution::Components { tree_column_max_width, bar_column_width } => {
            if tree_column_max_width < 1 || bar_column_width < 1 {
                Err(LayoutError::InsufficientWidth)
            } else if tree_column_max_width + bar_column_width + 2 + label_w > max_width {
                Err(LayoutError::InsufficientWidth)
            } else {
                Ok((tree_column_max_width as int, bar_column_width as int))
            }
        },
    }
}

/// Resolve the two column widths.
fn resolve_widths(
    dist: ColumnWidthDistribution,
    label_w: usize,
    left_w: usize,
    max_width: u16,
) -> (r: Result<(usize, usize), LayoutError>)
    ensures
        match r {
            Ok(p) => spec_resolve(dist, label_w as int, left_w as int, max_width) == Ok::<
                (int, int),
                LayoutError,
            >((p.0 as int, p.1 as int)) && 1 <= p.0 && 1 <= p.1 && p.0 + p.1 + 2 + label_w
                <= max_width,
            Err(e) => spec_resolve(dist, label_w as int, left_w as int, max_width) == Err::<
                (int, int),
                LayoutError,
            >(e),
        },
{
    match dist {
        ColumnWidthDistribution::Total { max_width: budget } => {
            if budget > max_width as usize {
                Err(LayoutError::InsufficientWidth)
            } else if budget < 4 || budget - 4 < label_w {
                Err(LayoutError::InsufficientWidth)
            } else {
                let avail = budget - 2 - label_w;
                let t = if left_w < 1 {
                    1
                } else if left_w > avail - 1 {
                    avail - 1
                } else {
                    left_w
                };
                Ok((t, avail - t))
            }
        },
        ColumnWidthDistribution::Components { tree_column_max_width, bar_column_width } => {
            if tree_column_max_width < 1 || bar_column_width < 1 {
                Err(LayoutError::InsufficientWidth)
            } else if tree_column_max_width > 65535 || bar_column_width > 65535 || label_w
                > 65535 {
                Err(LayoutError::InsufficientWidth)
            } else if tree_column_max_width + bar_column_width + 2 + label_w
                > max_width as usize {
                Err(LayoutError::InsufficientWidth)
            } else {
                Ok((tree_column_max_width, bar_column_width))
            }
        },
    }
}

/// One finished row: the fitted tree cell, a space, the right-aligned
/// label, a space, and the bar column.
pub open spec fn spec_row(
    rm: RowModel,
    fmt: BytesFormat,
    c: u64,
    tree_w: int,
    label_w: int,
    bar_w: int,
) -> Seq<char> {
    spec_fit(rm.left, tree_w) + seq![' '] + repeat_char(
        ' ',
        label_w - spec_label(rm.data, fmt).len(),
    ) + spec_label(rm.data, fmt) + seq![' '] + spec_bar_cell(rm.data, c, bar_w)
}

/// The same rows in reverse order.
pub open spec fn spec_reverse(rows: Seq<Seq<char>>) -> Seq<Seq<char>> {
    Seq::new(rows.len(), |i: int| rows[rows.len() - 1 - i])
}

/// Everything [`Visualizer::visualize`] returns, for every input: the rows
/// of the tree in pre-order, laid out with the resolved column widths and
/// padded to exactly the maximum line width, in the requested direction;
/// or the layout error the configuration deserves.
pub open spec fn spec_visualize(
    t: TreeV,
    fmt: BytesFormat,
    dir: Direction,
    dist: ColumnWidthDistribution,
    max_width: u16,
) -> Result<Seq<Seq<char>>, LayoutError> {
    let rows = spec_rows(t, Seq::empty(), true, true);
    let label_w = spec_max_label(rows, fmt);
    let left_w = spec_max_left(rows);
    match spec_resolve(dist, label_w, left_w, max_width) {
        Err(e) => Err(e),
        Ok(widths) => {
            let lines = Seq::new(
                rows.len(),
                |i: int| spec_row(rows[i], fmt, t.data, widths.0, label_w, widths.1)
                    + repeat_char(' ', max_width - (widths.0 + label_w + widths.1 + 2)),
            );
            Ok(
                match dir {
                    Direction::TopDown => lines,
                    Direction::BottomUp => spec_reverse(lines),
                },
            )
        },
    }
}

/// Column accounting: in a successful layout every rendered row is exactly
/// as wide as the maximum line width — the tree column, the bar column,
/// the label column with its two separating spaces, and the final padding.
pub proof fn lemma_column_accounting(
    t: TreeV,
    fmt: BytesFormat,
    dir: Direction,
    dist: ColumnWidthDistribution,
    max_width: u16,
)
    requires
        spec_visualize(t, fmt, dir, dist, max_width) is Ok,
    ensures
        ({
            let lines = spec_visualize(t, fmt, dir, dist, max_width)->Ok_0;
            forall|i: int|
                0 <= i < lines.len() ==> #[trigger] lines[i].len() == max_width
        }),
{
    let rows = spec_rows(t, Seq::empty(), true, true);
    let label_w = spec_max_label(rows, fmt);
    let widths = spec_resolve(dist, label_w, spec_max_left(rows), max_width)->Ok_0;
    let lines = spec_visualize(t, fmt, dir, dist, max_width)->Ok_0;
    lemma_max_label_bounds(rows, fmt);
    assert(widths.0 + label_w + widths.1 + 2 <= max_width);
    assert forall|i: int| 0 <= i < rows.len() implies #[trigger] spec_row(
        rows[i],
        fmt,
        t.data,
        widths.0,
        label_w,
        widths.1,
    ).len() == widths.0 + label_w + widths.1 + 2 by {
        lemma_bar_cell_len(rows[i].data, t.data, widths.1);
        assert(spec_fit(rows[i].left, widths.0).len() == widths.0);
        assert(repeat_char(' ', label_w - spec_label(rows[i].data, fmt).len()).len() == label_w
            - spec_label(rows[i].data, fmt).len());
    }
    assert forall|i: int| 0 <= i < lines.len() implies #[trigger] lines[i].len() == max_width by {
        match dir {
            Direction::TopDown => {},
            Direction::BottomUp => {},
        }
    }
}

/// Visualize a [`Tree`]: lay it out as fixed-width text rows.
#[derive(Debug)]
pub struct Visualizer<'a, D: Size> {
    /// The tree to visualize.
    pub tree: &'a Tree<D>,
    /// The units used to display the tree's data.
    pub bytes_format: BytesFormat,
    /// The direction of the visualization of the tree.
    pub direction: Direction,
    /// How the line width is distributed among the columns.
    pub column_width_distribution: ColumnWidthDistribution,
    /// Maximum number of characters/blocks can be placed in a line.
    pub max_width: u16,
}

impl<'a, D: Size> Visualizer<'a, D> {
    /// Render the tree: one row per node in pre-order (reversed for a
    /// bottom-up direction), or the layout error the width distribution
    /// deserves. The result is exactly [`spec_visualize`] of the inputs.
    pub fn visualize(&self) -> (r: Result<Vec<String>, LayoutError>)
        ensures
            match spec_visualize(
                self.tree@,
                self.bytes_format,
                self.direction,
                self.column_width_distribution,
                self.max_width,
            ) {
                Ok(lines) => r is Ok && r->Ok_0@.len() == lines.len() && forall|i: int|
                    0 <= i < lines.len() ==> r->Ok_0@[i]@ == lines[i],
                Err(e) => r == Err::<Vec<String>, LayoutError>(e),
            },
    {
        let ghost gt = self.tree@;
        let mut parts: Vec<RowParts> = Vec::new();
        let anc: Vec<char> = Vec::new();
        proof {
            assert(anc@ =~= Seq::<char>::empty());
        }
        collect_rows(self.tree, &anc, true, true, &mut parts);
        let ghost rows = spec_rows(gt, Seq::empty(), true, true);
        proof {
            assert(rows_view(parts@) =~= rows);
            assert(parts@.len() == rows.len());
        }
        let count = parts.len();
        let fmt = self.bytes_format;
        let mut labels: Vec<Vec<char>> = Vec::new();
        let mut i: usize = 0;
        while i < count
            invariant
                count == parts@.len(),
                rows == rows_view(parts@),
                rows.len() == count,
                i <= count,
                labels@.len() == i,
                forall|k: int| 0 <= k < i ==> labels@[k]@ == spec_label(rows[k].data, fmt),
            decreases count - i,
        {
            proof {
                assert(rows[i as int] == parts@[i as int]@);
            }
            labels.push(fmt.format(parts[i].data).text());
            i += 1;
        }
        let mut label_w: usize = 0;
        let mut left_w: usize = 0;
        let mut j: usize = 0;
        proof {
            assert(rows.take(0) =~= Seq::<RowModel>::empty());
        }
        while j < count
            invariant
                count == parts@.len(),
                rows == rows_view(parts@),
                rows.len() == count,
                labels@.len() == count,
                forall|k: int| 0 <= k < count ==> labels@[k]@ == spec_label(rows[k].data, fmt),
                j <= count,
                label_w == spec_max_label(rows.take(j as int), fmt),
                left_w == spec_max_left(rows.take(j as int)),
            decreases count - j,
        {
            proof {
                assert(rows[j as int] == parts@[j as int]@);
                assert(rows.take(j as int + 1).drop_last() =~= rows.take(j as int));
                assert(rows.take(j as int + 1).last() == rows[j as int]);
            }
            let ll = labels[j].len();
            if ll > label_w {
                label_w = ll;
            }
            let pl = parts[j].left.len();
            if pl > left_w {
                left_w = pl;
            }
            j += 1;
        }
        proof {
            assert(rows.take(count as int) =~= rows);
            lemma_max_label_bounds(rows, fmt);
        }
        let widths = match resolve_widths(
            self.column_width_distribution,
            label_w,
            left_w,
            self.max_width,
        ) {
            Ok(p) => p,
            Err(e) => {
                return Err(e);
            },
        };
        let tree_w = widths.0;
        let bar_w = widths.1;
        let pad_w: usize = self.max_width as usize - (tree_w + label_w + bar_w + 2);
        let capacity = self.tree.data.value();
        let ghost lines = Seq::new(
            rows.len(),
            |i: int| spec_row(rows[i], fmt, gt.data, tree_w as int, label_w as int, bar_w as int)
                + repeat_char(
                ' ',
                self.max_width - (tree_w + label_w + bar_w + 2),
            ),
        );
        let mut out: Vec<String> = Vec::new();
        let mut k: usize = 0;
        while k < count
            invariant
                count == parts@.len(),
                rows == rows_view(parts@),
                rows.len() == count,
                labels@.len() == count,
                forall|q: int| 0 <= q < count ==> labels@[q]@ == spec_label(rows[q].data, fmt),
                forall|q: int|
                    0 <= q < count ==> spec_label(rows[q].data, fmt).len() <= label_w,
                lines == Seq::new(
                    rows.len(),
                    |i: int| spec_row(
                        rows[i],
                        fmt,
                        gt.data,
                        tree_w as int,
                        label_w as int,
                        bar_w as int,
                    ) + repeat_char(
                        ' ',
                        self.max_width - (tree_w + label_w + bar_w + 2),
                    ),
                ),
                capacity == gt.data,
                1 <= tree_w,
                1 <= bar_w <= 65535,
                pad_w == self.max_width - (tree_w + label_w + bar_w + 2),
                k <= count,
                out@.len() == k,
                forall|q: int| 0 <= q < k ==> out@[q]@ == lines[q],
            decreases count - k,
        {
            proof {
                assert(rows[k as int] == parts@[k as int]@);
            }
            let mut row = fit_cell(&parts[k].left, tree_w);
            row.push(' ');
            push_repeat(&mut row, ' ', label_w - labels[k].len());
            push_all(&mut row, &labels[k]);
            row.push(' ');
            let bar = bar_cell(parts[k].data, capacity, bar_w);
            push_all(&mut row, &bar);
            push_repeat(&mut row, ' ', pad_w);
            proof {
                assert(row@ =~= lines[k as int]);
            }
            out.push(chars_to_string(&row));
            k += 1;
        }
        match self.direction {
            Direction::TopDown => Ok(out),
            Direction::BottomUp => {
                let mut rev: Vec<String> = Vec::new();
                let mut r: usize = count;
                while r > 0
                    invariant
                        count == out@.len(),
                        lines.len() == count,
                        forall|q: int| 0 <= q < count ==> out@[q]@ == lines[q],
                        r <= count,
                        rev@.len() == count - r,
                        forall|q: int|
                            0 <= q < count - r ==> rev@[q]@ == spec_reverse(lines)[q],
                    decreases r,
                {
                    r -= 1;
                    rev.push(out[r].clone());
                }
                Ok(rev)
            },
        }
    }
}

} // verus!
