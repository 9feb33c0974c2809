//! Panel geometry and the marks that draw a gauge.

use vstd::prelude::*;

verus! {

/// Where a panel of gauges stands in the terminal, in cells.
#[derive(Clone, Copy, Debug, PartialEq, Eq)]
pub struct Layout {
    pub cols: u32,
    pub rows: u32,
    pub x0: u32,
    pub y0: u32,
    /// Rows kept free above and below the bars.
    pub margin: u32,
    /// Columns between two gauges' anchors.
    pub spacing: u32,
}

/// What is drawn at one position.
#[derive(Clone, Copy, Debug, PartialEq, Eq)]
pub enum Mark {
    /// The name of the gauge at `index`, bracketed where it has the focus.
    Label { index: usize, focused: bool },
    TopCap,
    /// A bar row whose lower `level` quarters (0 to 4) are filled.
    Fill(u8),
    BottomCap,
}

/// One mark at a cursor position.
#[derive(Clone, Copy, Debug, PartialEq, Eq)]
pub struct Write {
    pub col: u32,
    pub row: u32,
    pub mark: Mark,
}

/// The columns over which `count` gauges share `cols` columns.
pub open spec fn spacing_of(cols: int, count: int) -> int {
    let q = if count >= 2 { cols / (count - 1) } else { cols };
    if q >= 3 { (q - 3) / 2 } else { 0 }
}

/// A panel placed by percentages of a terminal of `total_cols` by `total_rows`
/// cells, for `count` gauges. Scaling truncates; the margin is a tenth of the rows.
pub open spec fn layout_of(
    total_cols: u16,
    total_rows: u16,
    origin: (u16, u16),
    size: (u16, u16),
    count: usize,
) -> Layout {
    let cols = total_cols * size.0 / 100;
    let rows = total_rows * size.1 / 100;
    Layout {
        cols: cols as u32,
        rows: rows as u32,
        x0: (total_cols * origin.0 / 100) as u32,
        y0: (total_rows * origin.1 / 100) as u32,
        margin: (rows / 10) as u32,
        spacing: spacing_of(cols, count as int) as u32,
    }
}

/// Every anchor and row of the layout fits in a `u32`.
pub open spec fn fits(l: Layout, count: int) -> bool {
    &&& l.x0 + l.spacing * count <= u32::MAX
    &&& l.y0 + l.rows <= u32::MAX
    &&& l.margin <= l.rows
}

/// The column of the gauge at `i`.
pub open spec fn anchor(l: Layout, i: int) -> int {
    l.x0 + l.spacing * (i + 1)
}

/// The column where a label of `len` characters plus its two brackets starts,
/// centered under `anchor`, and no further left than column 0.
pub open spec fn label_col(anchor: int, len: int) -> int {
    let half = (2 + len) / 2;
    if anchor + 1 >= half { anchor + 1 - half } else { 0 }
}

/// In quarter rows from the panel's top, where the filled part of a bar of
/// `value` percent begins; a value above 100 shows as a full bar.
pub open spec fn start_of(l: Layout, value: u8) -> int {
    let v: int = if value <= 100 { value as int } else { 100 };
    4 * (l.rows - l.margin) * (100 - v) / 100
}

/// How many of row `y`'s four quarters lie below `start`.
pub open spec fn fill_level(y: int, start: int) -> int {
    if 4 * y <= start {
        0
    } else if 4 * y - start >= 4 {
        4
    } else {
        4 * y - start
    }
}

/// What a gauge at `i`, holding `value` and named with `len` characters, draws
/// on panel row `y`, if anything.
pub open spec fn write_at(l: Layout, y: int, i: int, value: u8, len: int, focused: bool) -> Option<Write> {
    let row = (l.y0 + y) as u32;
    let col = anchor(l, i) as u32;
    if y == l.rows - l.margin + 1 {
        Some(Write { col: label_col(anchor(l, i), len) as u32, row, mark: Mark::Label { index: i as usize, focused } })
    } else if y == l.margin {
        Some(Write { col, row, mark: Mark::TopCap })
    } else if l.margin < y < l.rows - l.margin {
        Some(Write { col, row, mark: Mark::Fill(fill_level(y, start_of(l, value)) as u8) })
    } else if y == l.rows - l.margin {
        Some(Write { col, row, mark: Mark::BottomCap })
    } else {
        None
    }
}

proof fn lemma_spacing_bound(cols: int, count: int, i: int)
    requires
        0 <= cols,
        0 <= i < count,
    ensures
        spacing_of(cols, count) * (i + 1) <= cols,
        0 <= spacing_of(cols, count) <= cols,
{
    let s = spacing_of(cols, count);
    if count >= 2 {
        let d = count - 1;
        let q = cols / d;
        assert(q * d <= cols) by (nonlinear_arith)
            requires d > 0, q == cols / d, cols >= 0;
        assert(q >= 0) by (nonlinear_arith)
            requires d > 0, q == cols / d, cols >= 0;
        assert(2 * s <= q);
        assert(s * (i + 1) <= cols) by (nonlinear_arith)
            requires 2 * s <= q, q * d <= cols, i + 1 <= d + 1, d >= 1, s >= 0, q >= 0;
        assert(s <= cols) by (nonlinear_arith)
            requires s * (i + 1) <= cols, i >= 0, s >= 0;
    } else {
        assert(i == 0);
    }
}

/// Places a panel of `count` gauges, as `layout_of` states.
pub fn layout(
    total_cols: u16,
    total_rows: u16,
    origin: (u16, u16),
    size: (u16, u16),
    count: usize,
) -> (r: Layout)
    requires
        origin.0 <= 100,
        origin.1 <= 100,
        size.0 <= 100,
        size.1 <= 100,
    ensures
        r == layout_of(total_cols, total_rows, origin, size, count),
        count > 0 ==> fits(r, count as int),
{
    assert(forall|a: u16, b: u16| b <= 100 ==> #[trigger] ((a as int) * (b as int)) <= 65535 * 100)
        by (nonlinear_arith);
    assert((total_cols as int) * (size.0 as int) <= 65535 * 100);
    assert((total_rows as int) * (size.1 as int) <= 65535 * 100);
    assert((total_cols as int) * (origin.0 as int) <= 65535 * 100);
    assert((total_rows as int) * (origin.1 as int) <= 65535 * 100);
    let cols: u32 = (total_cols as u32) * (size.0 as u32) / 100;
    let rows: u32 = (total_rows as u32) * (size.1 as u32) / 100;
    let x0: u32 = (total_cols as u32) * (origin.0 as u32) / 100;
    let y0: u32 = (total_rows as u32) * (origin.1 as u32) / 100;
    assert(cols <= total_cols && x0 <= total_cols && rows <= total_rows && y0 <= total_rows) by (nonlinear_arith)
        requires
            cols == (total_cols as u32) * (size.0 as u32) / 100,
            rows == (total_rows as u32) * (size.1 as u32) / 100,
            x0 == (total_cols as u32) * (origin.0 as u32) / 100,
            y0 == (total_rows as u32) * (origin.1 as u32) / 100,
            origin.0 <= 100, origin.1 <= 100, size.0 <= 100, size.1 <= 100;
    let q: u32 = if count >= 2 { ((cols as usize) / (count - 1)) as u32 } else { cols };
    let spacing: u32 = if q >= 3 { (q - 3) / 2 } else { 0 };
    let r = Layout { cols, rows, x0, y0, margin: rows / 10, spacing };
    proof {
        if count > 0 {
            lemma_spacing_bound(cols as int, count as int, count - 1);
        }
    }
    r
}

/// The fill level of row `y` for a bar that starts at `start`, as `fill_level` states.
pub fn level(y: u64, start: u64) -> (r: u8)
    requires
        y <= u32::MAX,
    ensures
        r == fill_level(y as int, start as int),
{
    if 4 * y <= start {
        0
    } else if 4 * y - start >= 4 {
        4
    } else {
        (4 * y - start) as u8
    }
}

/// Where the filled part of a bar begins, as `start_of` states.
pub fn start(l: &Layout, value: u8) -> (r: u64)
    requires
        l.margin <= l.rows,
    ensures
        r == start_of(*l, value),
{
    let v: u64 = if value <= 100 { value as u64 } else { 100 };
    let h: u64 = (l.rows - l.margin) as u64;
    assert(4 * h * (100 - v) <= 4 * (u32::MAX as int) * 100) by (nonlinear_arith)
        requires h <= u32::MAX, v <= 100;
    4 * ((l.rows - l.margin) as u64) * (100 - v) / 100
}


/// The character that fills the lower `level` quarters of a cell.
pub open spec fn fill_char(level: u8) -> char {
    if level == 0 {
        ' '
    } else if level == 1 {
        '▂'
    } else if level == 2 {
        '▄'
    } else if level == 3 {
        '▆'
    } else {
        '█'
    }
}

/// The three characters of a bar piece; a label has none of its own.
pub open spec fn glyph_of(mark: Mark) -> Seq<char> {
    match mark {
        Mark::TopCap => seq!['▛', '▀', '▜'],
        Mark::BottomCap => seq!['▙', '▄', '▟'],
        Mark::Fill(level) => seq!['▌', fill_char(level), '▐'],
        Mark::Label { .. } => seq![],
    }
}

/// A name as its label shows it: in brackets when focused, else between spaces.
pub open spec fn label_of(name: Seq<char>, focused: bool) -> Seq<char> {
    if focused {
        seq!['['] + name + seq![']']
    } else {
        seq![' '] + name + seq![' ']
    }
}

/// The text of a bar piece, as `glyph_of` states.
pub fn glyph(mark: Mark) -> (r: String)
    ensures
        r@ == glyph_of(mark),
{
    match mark {
        Mark::TopCap => {
            proof { reveal_strlit("▛▀▜"); }
            String::from_str("▛▀▜")
        },
        Mark::BottomCap => {
            proof { reveal_strlit("▙▄▟"); }
            String::from_str("▙▄▟")
        },
        Mark::Fill(level) => {
            if level == 0 {
                proof { reveal_strlit("▌ ▐"); }
                String::from_str("▌ ▐")
            } else if level == 1 {
                proof { reveal_strlit("▌▂▐"); }
                String::from_str("▌▂▐")
            } else if level == 2 {
                proof { reveal_strlit("▌▄▐"); }
                String::from_str("▌▄▐")
            } else if level == 3 {
                proof { reveal_strlit("▌▆▐"); }
                String::from_str("▌▆▐")
            } else {
                proof { reveal_strlit("▌█▐"); }
                String::from_str("▌█▐")
            }
        },
        Mark::Label { .. } => String::new(),
    }
}

/// The label text of `name`, as `label_of` states.
pub fn label(name: &str, focused: bool) -> (r: String)
    ensures
        r@ == label_of(name@, focused),
{
    proof {
        reveal_strlit("[");
        reveal_strlit("]");
        reveal_strlit(" ");
    }
    let mut out = if focused { String::from_str("[") } else { String::from_str(" ") };
    out.append(name);
    if focused {
        out.append("]");
    } else {
        out.append(" ");
    }
    out
}

/// What the gauge at `i` draws on panel row `y`, as `write_at` states.
pub fn write_of(l: &Layout, count: usize, y: u32, i: usize, value: u8, len: usize, focused: bool) -> (r: Option<Write>)
    requires
        fits(*l, count as int),
        i < count,
        y < l.rows,
    ensures
        r == write_at(*l, y as int, i as int, value, len as int, focused),
{
    assert(l.spacing * (i + 1) <= l.spacing * count) by (nonlinear_arith)
        requires i < count, l.spacing >= 0;
    let k: u64 = (i + 1) as u64;
    let col: u32 = (l.x0 as u64 + l.spacing as u64 * k) as u32;
    let row: u32 = l.y0 + y;
    let yy = y as u64;
    let rows = l.rows as u64;
    let margin = l.margin as u64;
    if yy == rows - margin + 1 {
        let half: u64 = (len / 2 + 1) as u64;
        let c: u64 = if col as u64 + 1 >= half { col as u64 + 1 - half } else { 0 };
        Some(Write { col: c as u32, row, mark: Mark::Label { index: i, focused } })
    } else if yy == margin {
        Some(Write { col, row, mark: Mark::TopCap })
    } else if margin < yy && yy < rows - margin {
        Some(Write { col, row, mark: Mark::Fill(level(yy, start(l, value))) })
    } else if yy == rows - margin {
        Some(Write { col, row, mark: Mark::BottomCap })
    } else {
        None
    }
}

} // verus!
