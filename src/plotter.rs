//! Chart layout: the vertical tick scale, the horizontal axis and the data markers.

use vstd::prelude::*;
use crate::decimal::{decimal, decimal_string};
use crate::draw::{Cursor, DrawInstruction, DrawOp, ops_of, lemma_ops_of_push, lemma_ops_of_add};

verus! {

pub open spec fn min_nat(a: nat, b: nat) -> nat {
    if a <= b { a } else { b }
}

/// Ticks drawn under each scale value: the height split into one band between
/// each two neighbouring values; a single value takes the whole height as its band.
pub open spec fn ticks_per_value(n: nat, h: nat) -> nat {
    if n <= 1 { h } else { h / (n - 1) as nat }
}

/// Ticks drawn under the first `k` scale values: never more than the height.
pub open spec fn ticks_before(k: nat, n: nat, h: nat) -> nat {
    min_nat(k * ticks_per_value(n, h), h)
}

/// Ticks drawn under the value at index `k`.
pub open spec fn group_ticks(k: nat, n: nat, h: nat) -> nat {
    min_nat(ticks_per_value(n, h), (h - ticks_before(k, n, h)) as nat)
}

/// The text of one tick: padding so that the `|` lands in the fourth column
/// after a label of up to three digits.
pub open spec fn tick_text(v: u32) -> Seq<char> {
    if v > 99 {
        seq!['|']
    } else if v >= 10 {
        seq![' ', '|']
    } else {
        seq![' ', ' ', '|']
    }
}

/// The column from which the ticks below the first one are written.
pub open spec fn tick_col(v: u32) -> nat {
    if v > 99 { 4 } else if v >= 10 { 3 } else { 2 }
}

/// `c` ticks of value `v` whose label stands on row `top`: each is written,
/// then the cursor drops to the next row.
pub open spec fn tick_ops(v: u32, top: nat, c: nat) -> Seq<DrawOp>
    decreases c,
{
    if c == 0 {
        seq![]
    } else {
        tick_ops(v, top, (c - 1) as nat) + seq![
            DrawOp::Write(tick_text(v)),
            DrawOp::Move(tick_col(v), top + c),
        ]
    }
}

/// One scale value: its label at column 1 of row `top`, then its ticks.
pub open spec fn group_ops(v: u32, top: nat, c: nat) -> Seq<DrawOp> {
    seq![DrawOp::Move(1, top), DrawOp::Write(decimal(v as nat))] + tick_ops(v, top, c)
}

/// The first `k` groups of the vertical scale `vals` over height `h`.
pub open spec fn y_ops(vals: Seq<u32>, h: nat, k: nat) -> Seq<DrawOp>
    decreases k,
{
    if k == 0 {
        seq![]
    } else {
        let j = (k - 1) as nat;
        y_ops(vals, h, j) + group_ops(
            vals[j as int],
            1 + ticks_before(j, vals.len(), h),
            group_ticks(j, vals.len(), h),
        )
    }
}

/// The column of the cursor after the first `k` groups: that of the last
/// group that drew a tick, or column 1 when none did.
pub open spec fn y_cursor_col(vals: Seq<u32>, h: nat, k: nat) -> nat
    decreases k,
{
    if k == 0 {
        1
    } else {
        let j = (k - 1) as nat;
        if group_ticks(j, vals.len(), h) > 0 {
            tick_col(vals[j as int])
        } else {
            y_cursor_col(vals, h, j)
        }
    }
}

/// The cursor after the whole vertical scale: the row below the last tick.
pub open spec fn y_cursor(vals: Seq<u32>, h: nat) -> (nat, nat) {
    (y_cursor_col(vals, h, vals.len()), 1 + ticks_before(vals.len(), vals.len(), h))
}

/// The points as values: each value with the characters of its label.
pub open spec fn points_view(d: Seq<(u32, String)>) -> Seq<(u32, Seq<char>)> {
    d.map_values(|p: (u32, String)| (p.0, p.1@))
}

/// Columns between neighbouring points: the width split into one interval
/// between each two points (one interval for a single point), at least 1.
pub open spec fn spacing(n: nat, w: nat) -> nat {
    let d: nat = if n <= 1 { 1 } else { (n - 1) as nat };
    if w / d == 0 { 1 } else { w / d }
}

/// How many of `n` points are drawn: point `i` stands at column offset
/// `i * spacing` and is drawn when that offset lies inside the width.
pub open spec fn placed(n: nat, w: nat) -> nat {
    if w == 0 { 0 } else { min_nat(n, ((w - 1) as nat / spacing(n, w)) + 1) }
}

/// The row, counted from the top of the plotting area, of a marker for value `v`
/// on a scale whose largest value is `m`, over `h` rows.
///
/// When `m >= h > 0` each row stands for `m / h` units (whole division) and
/// the row is `h - v / (m / h)`: 0 maps to row `h` and each further `m / h`
/// units one row up; a value that would climb past the top stays on row 0.
/// When `0 < m < h` a row stands for less than one unit, so the row is taken
/// from the exact proportion instead, `h - (v * h) / m`, again kept at row 0
/// or below. With no rows (`h == 0`) every marker is on row 0; with `m == 0`
/// a value of 0 is on row `h` and any other on row 0.
pub open spec fn marker_row(v: u32, m: u32, h: nat) -> nat {
    if h == 0 {
        0
    } else if m as nat >= h {
        (h - min_nat(v as nat / (m as nat / h), h)) as nat
    } else if m == 0 {
        if v == 0 { h } else { 0 }
    } else {
        (h - min_nat((v as nat * h) / (m as nat), h)) as nat
    }
}

/// The marker glyph followed by the value.
pub open spec fn marker_text(v: u32) -> Seq<char> {
    seq!['\u{25EF}'] + decimal(v as nat)
}

/// The horizontal axis line.
pub open spec fn dashes(w: nat) -> Seq<char> {
    Seq::new(w, |i: int| '-')
}

/// One point at column `col`: its label on the label row, its marker on the
/// row of its value, then the cursor back on the label row.
pub open spec fn point_ops(col: nat, label_row: nat, v: u32, label: Seq<char>, m: u32, h: nat) -> Seq<DrawOp> {
    seq![
        DrawOp::Move(col, label_row),
        DrawOp::Write(label),
        DrawOp::Move(col, 1 + marker_row(v, m, h)),
        DrawOp::Write(marker_text(v)),
        DrawOp::Move(col, label_row),
    ]
}

/// The first `k` points, point `i` at column `left + i * s`.
pub open spec fn points_ops(
    pts: Seq<(u32, Seq<char>)>,
    k: nat,
    left: nat,
    label_row: nat,
    s: nat,
    m: u32,
    h: nat,
) -> Seq<DrawOp>
    decreases k,
{
    if k == 0 {
        seq![]
    } else {
        let j = (k - 1) as nat;
        points_ops(pts, j, left, label_row, s, m, h) + point_ops(
            left + j * s,
            label_row,
            pts[j as int].0,
            pts[j as int].1,
            m,
            h,
        )
    }
}

/// The horizontal axis, four columns right of `cursor` and on its row, then
/// the points that fit in the width on the row below.
pub open spec fn x_ops(pts: Seq<(u32, Seq<char>)>, w: nat, h: nat, m: u32, cursor: (nat, nat)) -> Seq<DrawOp> {
    seq![DrawOp::Move(cursor.0 + 4, cursor.1), DrawOp::Write(dashes(w))] + points_ops(
        pts,
        placed(pts.len(), w),
        cursor.0 + 4,
        cursor.1 + 1,
        spacing(pts.len(), w),
        m,
        h,
    )
}

/// The whole chart: the vertical scale, then the axis and points from where it left the cursor.
pub open spec fn render_ops(pts: Seq<(u32, Seq<char>)>, vals: Seq<u32>, w: nat, h: nat) -> Seq<DrawOp> {
    y_ops(vals, h, vals.len()) + x_ops(pts, w, h, vals[0], y_cursor(vals, h))
}

pub proof fn lemma_y_cursor_bounds(vals: Seq<u32>, h: nat, k: nat)
    ensures
        1 <= y_cursor_col(vals, h, k) <= 4,
    decreases k,
{
    if k > 0 {
        lemma_y_cursor_bounds(vals, h, (k - 1) as nat);
    }
}

proof fn lemma_placed_exit(n: nat, w: nat, s: nat, i: nat)
    requires
        s == spacing(n, w),
        i <= n,
        i > 0 ==> (i - 1) * s < w,
        i == n || i * s >= w,
    ensures
        i == placed(n, w),
{
    if w > 0 && n > 0 {
        let q = (w - 1) as nat / s;
        if i == n && (n - 1) * s < w {
            vstd::arithmetic::div_mod::lemma_div_is_ordered(((n - 1) * s) as int, (w - 1) as int, s as int);
            vstd::arithmetic::div_mod::lemma_div_by_multiple((n - 1) as int, s as int);
        } else {
            assert(i > 0) by (nonlinear_arith)
                requires i * s >= w, w > 0;
            let r = (w - 1) - (i - 1) * s;
            assert(r < s) by (nonlinear_arith)
                requires r == (w - 1) - (i - 1) * s, i * s >= w, i > 0;
            vstd::arithmetic::div_mod::lemma_fundamental_div_mod_converse(
                (w - 1) as int, s as int, (i - 1) as int, r as int);
        }
    }
}

/// The data to chart: `(value, label)` points in order, and the vertical
/// scale from its largest value (top) down.
#[derive(Debug)]
pub struct PlotData {
    pub data: Vec<(u32, String)>,
    pub y_values: Vec<u32>,
}

/// A chart ready to be laid out over `dimension_x` columns and `dimension_y` rows.
pub struct Plotter {
    pub data: Vec<(u32, String)>,
    pub y_values: Vec<u32>,
    pub dimension_x: i32,
    pub dimension_y: i32,
}

impl Plotter {
    /// A plotter is laid out over a non-empty scale and non-negative dimensions.
    pub open spec fn wf(&self) -> bool {
        &&& self.y_values@.len() >= 1
        &&& self.dimension_x >= 0
        &&& self.dimension_y >= 0
    }

    pub open spec fn width(&self) -> nat {
        self.dimension_x as nat
    }

    pub open spec fn height(&self) -> nat {
        self.dimension_y as nat
    }

    /// A plotter for `plot_data` over `dimension = (width, height)`.
    pub fn new(plot_data: PlotData, dimension: (i32, i32)) -> (r: Self)
        requires
            plot_data.y_values@.len() >= 1,
            dimension.0 >= 0,
            dimension.1 >= 0,
        ensures
            r.wf(),
            r.data@ == plot_data.data@,
            r.y_values@ == plot_data.y_values@,
            r.dimension_x == dimension.0,
            r.dimension_y == dimension.1,
    {
        Plotter {
            data: plot_data.data,
            y_values: plot_data.y_values,
            dimension_x: dimension.0,
            dimension_y: dimension.1,
        }
    }

    /// Draws the vertical scale: each value's label at column 1, followed by
    /// its ticks, one row each; returns the cursor left below the last tick.
    pub fn plot_y(&self) -> (r: (Vec<DrawInstruction>, Cursor))
        requires
            self.wf(),
        ensures
            ops_of(r.0@) == y_ops(self.y_values@, self.height(), self.y_values@.len()),
            r.1.col as nat == y_cursor(self.y_values@, self.height()).0,
            r.1.row as nat == y_cursor(self.y_values@, self.height()).1,
    {
        let ghost vals = self.y_values@;
        let ghost hh = self.height();
        let n = self.y_values.len();
        let h = self.dimension_y as u64;
        let tpv: u64 = if n <= 1 { h } else { h / ((n - 1) as u64) };
        assert(tpv == ticks_per_value(n as nat, hh));
        let mut ops: Vec<DrawInstruction> = Vec::new();
        let mut drawn: u64 = 0;
        let mut col: u32 = 1;
        let mut k: usize = 0;
        while k < n
            invariant
                n == vals.len(),
                vals == self.y_values@,
                h == hh,
                hh <= i32::MAX,
                tpv == ticks_per_value(n as nat, hh),
                k <= n,
                drawn == ticks_before(k as nat, n as nat, hh),
                col == y_cursor_col(vals, hh, k as nat),
                ops_of(ops@) == y_ops(vals, hh, k as nat),
            decreases n - k,
        {
            let v = self.y_values[k];
            let top: u32 = (1 + drawn) as u32;
            let c: u64 = if tpv <= h - drawn { tpv } else { h - drawn };
            proof {
                lemma_ops_of_push(ops@, DrawInstruction::MoveCursor(1, top));
            }
            ops.push(DrawInstruction::MoveCursor(1, top));
            let label = decimal_string(v);
            proof {
                lemma_ops_of_push(ops@, DrawInstruction::WriteText(label));
            }
            ops.push(DrawInstruction::WriteText(label));
            let ghost base = y_ops(vals, hh, k as nat);
            let mut j: u64 = 0;
            while j < c
                invariant
                    j <= c,
                    c <= hh - drawn,
                    drawn <= hh,
                    hh <= i32::MAX,
                    top == 1 + drawn,
                    ops_of(ops@) == base + group_ops(v, top as nat, j as nat),
                decreases c - j,
            {
                let text = tick_string(v);
                proof {
                    lemma_ops_of_push(ops@, DrawInstruction::WriteText(text));
                }
                ops.push(DrawInstruction::WriteText(text));
                let tc = tick_column(v);
                let row: u32 = top + (j + 1) as u32;
                proof {
                    lemma_ops_of_push(ops@, DrawInstruction::MoveCursor(tc, row));
                    assert(group_ops(v, top as nat, (j + 1) as nat) =~= group_ops(v, top as nat, j as nat) + seq![
                        DrawOp::Write(tick_text(v)),
                        DrawOp::Move(tick_col(v), (top + j + 1) as nat),
                    ]);
                }
                ops.push(DrawInstruction::MoveCursor(tc, row));
                j = j + 1;
            }
            if c > 0 {
                col = tick_column(v);
            }
            proof {
                assert(((k + 1) as nat) * tpv == (k as nat) * tpv + tpv) by (nonlinear_arith);
                assert(c == group_ticks(k as nat, n as nat, hh));
            }
            drawn = drawn + c;
            k = k + 1;
        }
        (ops, Cursor { col, row: (1 + drawn) as u32 })
    }

    /// Draws the horizontal axis four columns right of `cursor`, then, on the
    /// row below, each point that fits in the width: its label, and its marker
    /// with its value on the row of that value.
    pub fn plot_x(&self, cursor: Cursor) -> (r: Vec<DrawInstruction>)
        requires
            self.wf(),
            cursor.col as nat + 4 + self.width() <= u32::MAX,
            cursor.row as nat + 1 <= u32::MAX,
        ensures
            ops_of(r@) == x_ops(
                points_view(self.data@),
                self.width(),
                self.height(),
                self.y_values@[0],
                (cursor.col as nat, cursor.row as nat),
            ),
    {
        let ghost pts = points_view(self.data@);
        let ghost ww = self.width();
        let ghost hh = self.height();
        let n = self.data.len();
        let w = self.dimension_x as u64;
        let h = self.dimension_y as u64;
        let m = self.y_values[0];
        let d: u64 = if n <= 1 { 1 } else { (n - 1) as u64 };
        let mut s: u64 = w / d;
        if s == 0 {
            s = 1;
        }
        assert(s == spacing(n as nat, ww));
        let left: u32 = cursor.col + 4;
        let label_row: u32 = cursor.row + 1;
        let mut ops: Vec<DrawInstruction> = Vec::new();
        ops.push(DrawInstruction::MoveCursor(left, cursor.row));
        ops.push(DrawInstruction::WriteText(dash_string(w)));
        let ghost header = seq![DrawOp::Move(left as nat, cursor.row as nat), DrawOp::Write(dashes(ww))];
        assert(ops_of(ops@) =~= header);
        let mut i: usize = 0;
        let mut off: u64 = 0;
        while i < n && off < w
            invariant
                n == pts.len(),
                pts == points_view(self.data@),
                w == ww,
                h == hh,
                ww <= i32::MAX,
                hh <= i32::MAX,
                m == self.y_values@[0],
                s == spacing(n as nat, ww),
                1 <= s,
                s <= ww || ww == 0,
                left as nat + ww <= u32::MAX,
                i <= n,
                off == i * s,
                i > 0 ==> (i - 1) * s < ww,
                ops_of(ops@) == header + points_ops(pts, i as nat, left as nat, label_row as nat, s as nat, m, hh),
            decreases n - i,
        {
            let v = self.data[i].0;
            let label = self.data[i].1.clone();
            let col: u32 = left + off as u32;
            let rel: u64 = marker_row_of(v, m, h);
            let row: u32 = (1 + rel) as u32;
            let marker = marker_string(v);
            let ghost before = ops@;
            ops.push(DrawInstruction::MoveCursor(col, label_row));
            ops.push(DrawInstruction::WriteText(label));
            ops.push(DrawInstruction::MoveCursor(col, row));
            ops.push(DrawInstruction::WriteText(marker));
            ops.push(DrawInstruction::MoveCursor(col, label_row));
            proof {
                assert(ops@ == before + seq![
                    DrawInstruction::MoveCursor(col, label_row),
                    DrawInstruction::WriteText(label),
                    DrawInstruction::MoveCursor(col, row),
                    DrawInstruction::WriteText(marker),
                    DrawInstruction::MoveCursor(col, label_row),
                ]);
                lemma_ops_of_add(before, ops@.subrange(before.len() as int, ops@.len() as int));
                assert(ops@.subrange(before.len() as int, ops@.len() as int) =~= seq![
                    DrawInstruction::MoveCursor(col, label_row),
                    DrawInstruction::WriteText(label),
                    DrawInstruction::MoveCursor(col, row),
                    DrawInstruction::WriteText(marker),
                    DrawInstruction::MoveCursor(col, label_row),
                ]);
                assert(ops@ =~= before + ops@.subrange(before.len() as int, ops@.len() as int));
                assert(pts[i as int] == (v, label@));
                assert(ops_of(seq![
                    DrawInstruction::MoveCursor(col, label_row),
                    DrawInstruction::WriteText(label),
                    DrawInstruction::MoveCursor(col, row),
                    DrawInstruction::WriteText(marker),
                    DrawInstruction::MoveCursor(col, label_row),
                ]) =~= point_ops(col as nat, label_row as nat, v, label@, m, hh));
                assert(header + points_ops(pts, (i + 1) as nat, left as nat, label_row as nat, s as nat, m, hh)
                    =~= header + points_ops(pts, i as nat, left as nat, label_row as nat, s as nat, m, hh)
                        + point_ops(col as nat, label_row as nat, v, label@, m, hh));
                assert((i + 1) * s == i * s + s) by (nonlinear_arith);
            }
            i = i + 1;
            off = off + s;
        }
        proof {
            lemma_placed_exit(n as nat, ww, s as nat, i as nat);
        }
        ops
    }

    /// Lays out the whole chart: the vertical scale, then the horizontal axis
    /// and the points, continuing from where the scale left the cursor.
    pub fn plot(&self) -> (r: Vec<DrawInstruction>)
        requires
            self.wf(),
        ensures
            ops_of(r@) == render_ops(points_view(self.data@), self.y_values@, self.width(), self.height()),
    {
        let (mut ops, cursor) = self.plot_y();
        proof {
            lemma_y_cursor_bounds(self.y_values@, self.height(), self.y_values@.len());
        }
        let mut xs = self.plot_x(cursor);
        proof {
            lemma_ops_of_add(ops@, xs@);
        }
        ops.append(&mut xs);
        ops
    }
}

fn marker_row_of(v: u32, m: u32, h: u64) -> (r: u64)
    requires
        h <= i32::MAX,
    ensures
        r as nat == marker_row(v, m, h as nat),
        r <= h,
{
    if h == 0 {
        0
    } else if m as u64 >= h {
        let per_row: u64 = m as u64 / h;
        assert(per_row > 0) by {
            vstd::arithmetic::div_mod::lemma_div_is_ordered(h as int, m as int, h as int);
            vstd::arithmetic::div_mod::lemma_div_by_multiple(1, h as int);
        }
        let q: u64 = v as u64 / per_row;
        if q >= h { 0 } else { h - q }
    } else if m == 0 {
        if v == 0 { h } else { 0 }
    } else {
        assert((v as nat) * (h as nat) <= u32::MAX * i32::MAX) by (nonlinear_arith)
            requires v <= u32::MAX, h <= i32::MAX;
        let q: u64 = (v as u64) * h / (m as u64);
        if q >= h { 0 } else { h - q }
    }
}

fn marker_string(v: u32) -> (r: String)
    ensures
        r@ == marker_text(v),
{
    proof {
        reveal_strlit("\u{25EF}");
    }
    let mut t = String::from_str("\u{25EF}");
    let digits = decimal_string(v);
    t.append(digits.as_str());
    t
}

fn dash_string(w: u64) -> (r: String)
    ensures
        r@ == dashes(w as nat),
{
    let mut t = String::new();
    let mut j: u64 = 0;
    while j < w
        invariant
            j <= w,
            t@ == dashes(j as nat),
        decreases w - j,
    {
        t.append("-");
        proof {
            reveal_strlit("-");
            assert("-"@ =~= seq!['-']);
        }
        j = j + 1;
        assert(t@ =~= dashes(j as nat));
    }
    t
}

fn tick_string(v: u32) -> (r: String)
    ensures
        r@ == tick_text(v),
{
    proof {
        reveal_strlit("|");
        reveal_strlit(" |");
        reveal_strlit("  |");
    }
    if v > 99 {
        String::from_str("|")
    } else if v >= 10 {
        String::from_str(" |")
    } else {
        String::from_str("  |")
    }
}

fn tick_column(v: u32) -> (r: u32)
    ensures
        r as nat == tick_col(v),
{
    if v > 99 { 4 } else if v >= 10 { 3 } else { 2 }
}

} // verus!
