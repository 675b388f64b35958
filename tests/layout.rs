use term_plot::draw::{Cursor, DrawInstruction};
use term_plot::plotter::{PlotData, Plotter};

fn mv(c: u32, r: u32) -> DrawInstruction {
    DrawInstruction::MoveCursor(c, r)
}

fn wr(t: &str) -> DrawInstruction {
    DrawInstruction::WriteText(t.to_string())
}

fn plotter(data: Vec<(u32, &str)>, y_values: Vec<u32>, w: i32, h: i32) -> Plotter {
    let data = data.into_iter().map(|(v, l)| (v, l.to_string())).collect();
    Plotter::new(PlotData { data, y_values }, (w, h))
}

fn tick_writes(ops: &[DrawInstruction]) -> usize {
    ops.iter()
        .filter(|op| matches!(op, DrawInstruction::WriteText(t) if t.ends_with('|')))
        .count()
}

fn labels(ops: &[DrawInstruction], names: &[&str]) -> Vec<(u32, u32)> {
    let mut at = Vec::new();
    for k in 1..ops.len() {
        if let (DrawInstruction::MoveCursor(c, r), DrawInstruction::WriteText(t)) = (&ops[k - 1], &ops[k]) {
            if names.contains(&t.as_str()) {
                at.push((*c, *r));
            }
        }
    }
    at
}

#[test]
fn scale_of_three_values_over_ten_rows() {
    let p = plotter(vec![], vec![100, 50, 0], 20, 10);
    let (ops, cursor) = p.plot_y();
    let mut expected = vec![mv(1, 1), wr("100")];
    for j in 0..5 {
        expected.push(wr("|"));
        expected.push(mv(4, 2 + j));
    }
    expected.push(mv(1, 6));
    expected.push(wr("50"));
    for j in 0..5 {
        expected.push(wr(" |"));
        expected.push(mv(3, 7 + j));
    }
    expected.push(mv(1, 11));
    expected.push(wr("0"));
    assert_eq!(ops, expected);
    assert_eq!(cursor, Cursor { col: 3, row: 11 });
    assert_eq!(tick_writes(&ops), 10);
}

#[test]
fn scale_ticks_cap_at_height() {
    let p = plotter(vec![], vec![100, 50, 20, 0], 20, 10);
    let (ops, cursor) = p.plot_y();
    assert_eq!(tick_writes(&ops), 10);
    assert_eq!(cursor.row, 11);
    // three ticks under each of the first three values, one under the last
    let zero_label = ops.iter().position(|op| *op == wr("0")).unwrap();
    assert_eq!(tick_writes(&ops[zero_label..]), 1);
    assert_eq!(cursor.col, 2);
}

#[test]
fn scale_ticks_short_of_height_when_bands_do_not_fill_it() {
    let p = plotter(vec![], vec![3, 2, 1, 0], 20, 5);
    let (ops, cursor) = p.plot_y();
    assert_eq!(tick_writes(&ops), 4);
    assert_eq!(cursor.row, 5);
}

#[test]
fn single_value_scale_spans_the_height() {
    let p = plotter(vec![], vec![7], 20, 4);
    let (ops, cursor) = p.plot_y();
    assert_eq!(tick_writes(&ops), 4);
    assert_eq!(ops[0], mv(1, 1));
    assert_eq!(ops[1], wr("7"));
    assert_eq!(ops[2], wr("  |"));
    assert_eq!(cursor, Cursor { col: 2, row: 5 });
}

#[test]
fn three_months_over_twenty_columns() {
    let p = plotter(vec![(10, "Jan"), (50, "Feb"), (90, "Mar")], vec![100, 50, 0], 20, 10);
    let (_, cursor) = p.plot_y();
    let ops = p.plot_x(cursor);
    let expected = vec![
        mv(7, 11),
        wr("--------------------"),
        mv(7, 12),
        wr("Jan"),
        mv(7, 10),
        wr("\u{25EF}10"),
        mv(7, 12),
        mv(17, 12),
        wr("Feb"),
        mv(17, 6),
        wr("\u{25EF}50"),
        mv(17, 12),
    ];
    assert_eq!(ops, expected);
}

#[test]
fn every_point_drawn_when_width_leaves_room() {
    let p = plotter(vec![(10, "a"), (50, "b"), (90, "c")], vec![100, 0], 21, 10);
    let ops = p.plot_x(Cursor { col: 4, row: 11 });
    assert_eq!(ops.len(), 2 + 5 * 3);
    assert_eq!(labels(&ops, &["a", "b", "c"]), vec![(8, 12), (18, 12), (28, 12)]);
    let markers: Vec<usize> = (0..ops.len())
        .filter(|&k| matches!(&ops[k], DrawInstruction::WriteText(t) if t.starts_with('\u{25EF}')))
        .collect();
    assert_eq!(markers.len(), 3);
    assert_eq!(ops[markers[0] - 1], mv(8, 10));
    assert_eq!(ops[markers[1] - 1], mv(18, 6));
    assert_eq!(ops[markers[2] - 1], mv(28, 2));
}

#[test]
fn single_point_at_axis_start() {
    let p = plotter(vec![(40, "A")], vec![100, 0], 5, 10);
    let ops = p.plot();
    let (y_ops, cursor) = p.plot_y();
    assert_eq!(cursor, Cursor { col: 4, row: 11 });
    let x = &ops[y_ops.len()..];
    assert_eq!(x.len(), 7);
    assert_eq!(x[0], mv(8, 11));
    assert_eq!(x[1], wr("-----"));
    assert_eq!(x[2], mv(8, 12));
    assert_eq!(x[3], wr("A"));
    assert_eq!(x[4], mv(8, 7));
    assert_eq!(x[5], wr("\u{25EF}40"));
    assert_eq!(x[6], mv(8, 12));
}

#[test]
fn narrow_width_omits_points() {
    let p = plotter(vec![(1, "a"), (2, "b"), (3, "c"), (4, "d"), (5, "e")], vec![10, 0], 2, 10);
    let ops = p.plot_x(Cursor { col: 4, row: 11 });
    assert_eq!(labels(&ops, &["a", "b", "c", "d", "e"]), vec![(8, 12), (9, 12)]);
}

#[test]
fn too_many_multiples_do_not_overrun_points() {
    let p = plotter(vec![(1, "a"), (2, "b"), (3, "c"), (4, "d"), (5, "e")], vec![10, 0], 11, 10);
    let ops = p.plot_x(Cursor { col: 4, row: 11 });
    assert_eq!(ops.len(), 2 + 5 * 5);
    assert_eq!(
        labels(&ops, &["a", "b", "c", "d", "e"]),
        vec![(8, 12), (10, 12), (12, 12), (14, 12), (16, 12)]
    );
}

#[test]
fn empty_data_draws_only_the_axis() {
    let p = plotter(vec![], vec![10, 0], 3, 4);
    let ops = p.plot_x(Cursor { col: 2, row: 5 });
    assert_eq!(ops, vec![mv(6, 5), wr("---")]);
}

#[test]
fn higher_values_sit_higher() {
    let p = plotter(vec![(0, "z"), (33, "l"), (67, "m"), (100, "h"), (150, "o")], vec![100, 0], 41, 10);
    let ops = p.plot_x(Cursor { col: 4, row: 11 });
    let rows: Vec<u32> = (1..ops.len())
        .filter(|&k| matches!(&ops[k], DrawInstruction::WriteText(t) if t.starts_with('\u{25EF}')))
        .map(|k| match ops[k - 1] {
            DrawInstruction::MoveCursor(_, r) => r,
            _ => panic!("marker without a move"),
        })
        .collect();
    assert_eq!(rows, vec![11, 8, 5, 1, 1]);
    for k in 1..rows.len() {
        assert!(rows[k] <= rows[k - 1]);
    }
}

#[test]
fn zero_maximum_puts_zero_at_bottom() {
    let p = plotter(vec![(0, "a"), (5, "b"), (0, "c")], vec![0], 11, 4);
    let ops = p.plot_x(Cursor { col: 2, row: 5 });
    assert_eq!(ops[4], mv(6, 5));
    assert_eq!(ops[9], mv(11, 1));
    assert_eq!(ops[14], mv(16, 5));
}

#[test]
fn layout_twice_is_identical() {
    let p = plotter(vec![(10, "Jan"), (50, "Feb"), (90, "Mar")], vec![100, 50, 0], 20, 10);
    let q = plotter(vec![(10, "Jan"), (50, "Feb"), (90, "Mar")], vec![100, 50, 0], 20, 10);
    assert_eq!(p.plot(), p.plot());
    assert_eq!(p.plot(), q.plot());
}

#[test]
fn plot_is_scale_then_axis() {
    let p = plotter(vec![(10, "Jan"), (50, "Feb"), (90, "Mar")], vec![100, 50, 0], 20, 10);
    let (mut expected, cursor) = p.plot_y();
    expected.extend(p.plot_x(cursor));
    assert_eq!(p.plot(), expected);
}

#[test]
fn wide_values_and_labels_in_decimal() {
    let p = plotter(vec![(4294967295, "max")], vec![1000, 0], 1, 2);
    let ops = p.plot();
    assert_eq!(ops[1], wr("1000"));
    assert!(ops.contains(&wr("\u{25EF}4294967295")));
}

#[test]
fn marker_rows_count_whole_units_per_row() {
    // 155 over 10 rows: 15 units a row, so 150 climbs ten rows to the top.
    let p = plotter(vec![(150, "a"), (14, "b"), (15, "c")], vec![155, 0], 11, 10);
    let ops = p.plot_x(Cursor { col: 4, row: 11 });
    assert_eq!(ops[4], mv(8, 1));
    assert_eq!(ops[9], mv(13, 11));
    assert_eq!(ops[14], mv(18, 10));
}

#[test]
fn marker_rows_when_scale_is_below_height() {
    // 5 over 10 rows: the proportion 2 * 10 / 5 = 4 rows up.
    let p = plotter(vec![(2, "a"), (9, "b")], vec![5, 0], 3, 10);
    let ops = p.plot_x(Cursor { col: 4, row: 11 });
    assert_eq!(ops[4], mv(8, 7));
}
