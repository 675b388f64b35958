//! Properties of the chart layout that hold for every input.

use vstd::prelude::*;
use crate::decimal::{decimal, lemma_decimal_digits};
use crate::draw::{DrawInstruction, DrawOp, ops_of};
use crate::plotter::{
    Plotter, group_ops, group_ticks, marker_row, marker_text, min_nat, placed, point_ops, points_ops,
    points_view, render_ops, spacing, tick_col, tick_text, ticks_before, ticks_per_value, x_ops,
    y_ops,
};

verus! {

/// Whether an instruction writes a tick: text that ends in `|`.
pub open spec fn is_tick(op: DrawOp) -> bool {
    match op {
        DrawOp::Write(t) => t.len() > 0 && t.last() == '|',
        DrawOp::Move(_, _) => false,
    }
}

/// The number of ticks written by `ops`.
pub open spec fn tick_count(ops: Seq<DrawOp>) -> nat
    decreases ops.len(),
{
    if ops.len() == 0 {
        0
    } else {
        tick_count(ops.drop_last()) + if is_tick(ops.last()) { 1nat } else { 0nat }
    }
}

proof fn lemma_tick_count_add(a: Seq<DrawOp>, b: Seq<DrawOp>)
    ensures
        tick_count(a + b) == tick_count(a) + tick_count(b),
    decreases b.len(),
{
    if b.len() == 0 {
        assert(a + b =~= a);
    } else {
        assert((a + b).drop_last() =~= a + b.drop_last());
        lemma_tick_count_add(a, b.drop_last());
    }
}

proof fn lemma_group_tick_count(v: u32, top: nat, c: nat)
    ensures
        tick_count(group_ops(v, top, c)) == c,
    decreases c,
{
    if c == 0 {
        let g = seq![DrawOp::Move(1, top), DrawOp::Write(decimal(v as nat))];
        lemma_decimal_digits(v as nat);
        assert(group_ops(v, top, c) =~= g);
        assert(g.drop_last().drop_last() =~= Seq::<DrawOp>::empty());
        assert(g.drop_last() =~= seq![DrawOp::Move(1, top)]);
        let dl = decimal(v as nat);
        assert('0' <= dl[dl.len() - 1] <= '9');
        assert(!is_tick(g.last()));
        assert(!is_tick(g.drop_last().last()));
        assert(tick_count(g.drop_last().drop_last()) == 0);
        assert(tick_count(g.drop_last()) == 0);
        assert(tick_count(g) == 0);
    } else {
        lemma_group_tick_count(v, top, (c - 1) as nat);
        let tail = seq![DrawOp::Write(tick_text(v)), DrawOp::Move(tick_col(v), top + c)];
        assert(group_ops(v, top, c) =~= group_ops(v, top, (c - 1) as nat) + tail);
        lemma_tick_count_add(group_ops(v, top, (c - 1) as nat), tail);
        assert(tail.drop_last().drop_last() =~= Seq::<DrawOp>::empty());
        assert(tail.drop_last() =~= seq![DrawOp::Write(tick_text(v))]);
        assert(tick_text(v).last() == '|');
        assert(is_tick(tail.drop_last().last()));
        assert(!is_tick(tail.last()));
        assert(tick_count(tail.drop_last().drop_last()) == 0);
        assert(tick_count(tail.drop_last()) == 1);
        assert(tick_count(tail) == 1);
    }
}

proof fn lemma_ticks_before_step(k: nat, n: nat, h: nat)
    ensures
        ticks_before(k + 1, n, h) == ticks_before(k, n, h) + group_ticks(k, n, h),
{
    let t = ticks_per_value(n, h);
    assert((k + 1) * t == k * t + t) by (nonlinear_arith);
    assert(k * t <= (k + 1) * t) by (nonlinear_arith);
}

proof fn lemma_scale_tick_count(vals: Seq<u32>, h: nat, k: nat)
    requires
        k <= vals.len(),
    ensures
        tick_count(y_ops(vals, h, k)) == ticks_before(k, vals.len(), h),
    decreases k,
{
    if k > 0 {
        let j = (k - 1) as nat;
        lemma_scale_tick_count(vals, h, j);
        let g = group_ops(vals[j as int], 1 + ticks_before(j, vals.len(), h), group_ticks(j, vals.len(), h));
        lemma_tick_count_add(y_ops(vals, h, j), g);
        lemma_group_tick_count(vals[j as int], 1 + ticks_before(j, vals.len(), h), group_ticks(j, vals.len(), h));
        lemma_ticks_before_step(j, vals.len(), h);
        assert(y_ops(vals, h, k) == y_ops(vals, h, j) + g);
    } else {
        assert(0 * ticks_per_value(vals.len(), h) == 0);
    }
}

/// The vertical scale never writes more ticks than the height: it writes
/// the smaller of the height and `ticks_per_value` under every value. Each
/// value but the last gets exactly `ticks_per_value` ticks, and a scale of a
/// single value fills the whole height.
pub proof fn scale_ticks_within_height(vals: Seq<u32>, h: nat)
    requires
        vals.len() >= 1,
    ensures
        tick_count(y_ops(vals, h, vals.len())) == min_nat(vals.len() * ticks_per_value(vals.len(), h), h),
        tick_count(y_ops(vals, h, vals.len())) <= h,
        vals.len() == 1 ==> tick_count(y_ops(vals, h, vals.len())) == h,
        forall|k: nat| k + 1 < vals.len() ==> #[trigger] group_ticks(k, vals.len(), h) == ticks_per_value(vals.len(), h),
{
    lemma_scale_tick_count(vals, h, vals.len());
    let n = vals.len();
    let t = ticks_per_value(n, h);
    assert(1 * t == t);
    assert forall|k: nat| k + 1 < n implies #[trigger] group_ticks(k, n, h) == t by {
        assert(k * t + t <= (n - 1) * t) by (nonlinear_arith)
            requires k + 1 < n;
        if n > 1 {
            vstd::arithmetic::div_mod::lemma_fundamental_div_mod(h as int, (n - 1) as int);
            assert((n - 1) * t <= h) by (nonlinear_arith)
                requires t == h / (n - 1) as nat, n > 1, h == (n - 1) * (h / (n - 1) as nat) + h % (n - 1) as nat, h % (n - 1) as nat >= 0;
        }
        assert(k * t <= h);
    }
}

/// A scale of two or more values over a positive height writes exactly
/// `h` ticks whenever its values together have room for them
/// (`n * (h / (n - 1)) >= h`).
pub proof fn scale_ticks_fill_height(vals: Seq<u32>, h: nat)
    requires
        vals.len() > 1,
        h > 0,
        vals.len() * (h / (vals.len() - 1) as nat) >= h,
    ensures
        tick_count(y_ops(vals, h, vals.len())) == h,
{
    scale_ticks_within_height(vals, h);
}

proof fn lemma_points_index(
    pts: Seq<(u32, Seq<char>)>,
    k: nat,
    left: nat,
    label_row: nat,
    s: nat,
    m: u32,
    h: nat,
)
    ensures
        points_ops(pts, k, left, label_row, s, m, h).len() == 5 * k,
        forall|i: int, j: int| 0 <= i < k && 0 <= j < 5 ==> points_ops(pts, k, left, label_row, s, m, h)[5 * i + j]
            == #[trigger] point_ops((left + i * s) as nat, label_row, pts[i].0, pts[i].1, m, h)[j],
    decreases k,
{
    if k > 0 {
        lemma_points_index(pts, (k - 1) as nat, left, label_row, s, m, h);
    }
}

/// When the width leaves room for the last point (`(n - 1) * spacing < w`,
/// that is `w % (n - 1) != 0` for two or more points), every point is drawn:
/// point `i` has its label on the row below the axis and its marker on the
/// row of its value, both at column offset `i * (w / max(n - 1, 1))` from
/// the axis start.
pub proof fn every_point_placed(pts: Seq<(u32, Seq<char>)>, w: nat, h: nat, m: u32, cursor: (nat, nat))
    requires
        pts.len() >= 1,
        w > 0,
        w >= pts.len() - 1,
        pts.len() >= 2 ==> w % (pts.len() - 1) as nat != 0,
    ensures
        ({
            let n = pts.len();
            let s = w / (if n <= 1 { 1 } else { (n - 1) as nat });
            let ops = x_ops(pts, w, h, m, cursor);
            let left = cursor.0 + 4;
            &&& placed(n, w) == n
            &&& spacing(n, w) == s
            &&& ops.len() == 2 + 5 * n
            &&& forall|i: int| 0 <= i < n ==> {
                &&& #[trigger] ops[2 + 5 * i] == DrawOp::Move((left + i * s) as nat, cursor.1 + 1)
                &&& ops[2 + 5 * i + 1] == DrawOp::Write(pts[i].1)
                &&& ops[2 + 5 * i + 2] == DrawOp::Move((left + i * s) as nat, 1 + marker_row(pts[i].0, m, h))
                &&& ops[2 + 5 * i + 3] == DrawOp::Write(marker_text(pts[i].0))
            }
        }),
{
    let n = pts.len();
    let d: nat = if n <= 1 { 1 } else { (n - 1) as nat };
    let s = w / d;
    vstd::arithmetic::div_mod::lemma_fundamental_div_mod(w as int, d as int);
    assert(s >= 1) by {
        if n >= 2 {
            if s == 0 {
                assert(w == w % d as nat);
                vstd::arithmetic::div_mod::lemma_small_mod(w, d);
            }
        }
    }
    assert(spacing(n, w) == s);
    // The last point's offset lies inside the width.
    assert((n - 1) * s < w) by {
        if n >= 2 {
            assert(w == d * s + w % d);
        } else {
            assert((n - 1) * s == 0);
        }
    }
    vstd::arithmetic::div_mod::lemma_div_is_ordered(((n - 1) * s) as int, (w - 1) as int, s as int);
    vstd::arithmetic::div_mod::lemma_div_by_multiple((n - 1) as int, s as int);
    assert(placed(n, w) == n);
    let left = cursor.0 + 4;
    lemma_points_index(pts, n, left, cursor.1 + 1, s, m, h);
    let ops = x_ops(pts, w, h, m, cursor);
    let ps = points_ops(pts, n, left, cursor.1 + 1, s, m, h);
    assert forall|i: int| 0 <= i < n implies {
        &&& #[trigger] ops[2 + 5 * i] == DrawOp::Move((left + i * s) as nat, cursor.1 + 1)
        &&& ops[2 + 5 * i + 1] == DrawOp::Write(pts[i].1)
        &&& ops[2 + 5 * i + 2] == DrawOp::Move((left + i * s) as nat, 1 + marker_row(pts[i].0, m, h))
        &&& ops[2 + 5 * i + 3] == DrawOp::Write(marker_text(pts[i].0))
    } by {
        let p = point_ops((left + i * s) as nat, cursor.1 + 1, pts[i].0, pts[i].1, m, h);
        assert(ps[5 * i + 0] == p[0]);
        assert(ps[5 * i + 1] == p[1]);
        assert(ps[5 * i + 2] == p[2]);
        assert(ps[5 * i + 3] == p[3]);
    }
}

/// A higher value never sits lower: its marker row is at or above that of a
/// smaller value.
pub proof fn marker_rows_monotonic(a: u32, b: u32, m: u32, h: nat)
    requires
        a > b,
    ensures
        marker_row(a, m, h) <= marker_row(b, m, h),
{
    if h > 0 && m as nat >= h {
        let d = m as nat / h;
        vstd::arithmetic::div_mod::lemma_div_is_ordered(h as int, m as int, h as int);
        vstd::arithmetic::div_mod::lemma_div_by_multiple(1, h as int);
        vstd::arithmetic::div_mod::lemma_div_is_ordered(b as int, a as int, d as int);
    } else if m > 0 {
        assert((a as nat) * h >= (b as nat) * h) by (nonlinear_arith)
            requires a > b;
        vstd::arithmetic::div_mod::lemma_div_is_ordered((b as nat * h) as int, (a as nat * h) as int, m as int);
    }
}

/// Laying out a chart depends on its inputs alone: two layouts of the same
/// chart are the same sequence of instructions.
pub proof fn layout_is_deterministic(p: &Plotter, q: &Plotter, first: Seq<DrawInstruction>, second: Seq<DrawInstruction>)
    requires
        p.data@ == q.data@,
        p.y_values@ == q.y_values@,
        p.dimension_x == q.dimension_x,
        p.dimension_y == q.dimension_y,
        ops_of(first) == render_ops(points_view(p.data@), p.y_values@, p.width(), p.height()),
        ops_of(second) == render_ops(points_view(q.data@), q.y_values@, q.width(), q.height()),
    ensures
        ops_of(first) == ops_of(second),
{
}

} // verus!
