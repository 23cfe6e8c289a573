use tuine::data_row::{DataCell, DataRow};
use tuine::geometry::{does_bound_intersect_coordinate, Rect};
use tuine::scroll_state::ScrollState;
use tuine::sorting::sort_rows_by_column;
use tuine::table_column::{TextColumn, TextColumnConstraint};
use tuine::width_resolver::resolve_column_widths;

fn column(name: &str, constraint: TextColumnConstraint) -> TextColumn {
    TextColumn::new_with_constraint(String::from(name), constraint)
}

fn row(cells: &[&str]) -> DataRow {
    let mut v = Vec::new();
    for c in cells {
        v.push(DataCell::new(String::from(*c)));
    }
    DataRow::new(v)
}

fn first_cell(r: &DataRow) -> &str {
    r.cells[0].text.as_str()
}

#[test]
fn hit_test_half_open_boundaries() {
    let r = Rect::new(2, 3, 4, 5);
    // left and top edges belong to the rectangle
    assert!(does_bound_intersect_coordinate(2, 3, r));
    assert!(does_bound_intersect_coordinate(5, 7, r));
    // right (2 + 4) and bottom (3 + 5) edges do not
    assert!(!does_bound_intersect_coordinate(6, 3, r));
    assert!(!does_bound_intersect_coordinate(2, 8, r));
    assert!(!does_bound_intersect_coordinate(6, 8, r));
}

#[test]
fn zero_sized_rect_contains_nothing() {
    let r = Rect::new(4, 4, 0, 3);
    assert!(!does_bound_intersect_coordinate(4, 4, r));
    let r2 = Rect::new(4, 4, 3, 0);
    assert!(!does_bound_intersect_coordinate(4, 4, r2));
}

#[test]
fn width_allocation_three_column_scenario() {
    // Fill named "ID", a fixed length, and a fifth of the total width of 40.
    let cols = vec![
        column("ID", TextColumnConstraint::Fill),
        column("Count", TextColumnConstraint::Length(5)),
        column("Usage", TextColumnConstraint::Percentage(20)),
    ];
    let widths = resolve_column_widths(&cols, 40);
    // first pass allocates 3 ("ID" + 1), 5, and 8; the leftover 24 is
    // spread as 8 per column
    assert_eq!(widths, vec![11, 13, 16]);
    let total: u32 = widths.iter().map(|w| *w as u32).sum();
    assert_eq!(total, 40);
}

#[test]
fn width_allocation_sums_exactly_for_many_shapes() {
    let shapes: Vec<Vec<TextColumn>> = vec![
        vec![column("A", TextColumnConstraint::Fill)],
        vec![
            column("A", TextColumnConstraint::Length(100)),
            column("B", TextColumnConstraint::Fill),
        ],
        vec![
            column("Aaaa", TextColumnConstraint::MaxLength(3)),
            column("B", TextColumnConstraint::MaxPercentage(50)),
            column("C", TextColumnConstraint::Percentage(120)),
        ],
    ];
    for cols in shapes {
        for total in [0u16, 1, 7, 39, 200] {
            let widths = resolve_column_widths(&cols, total);
            let sum: u32 = widths.iter().map(|w| *w as u32).sum();
            assert_eq!(sum, total as u32);
        }
    }
}

#[test]
fn width_allocation_monotone_without_percentages() {
    let cols = vec![
        column("Name", TextColumnConstraint::Fill),
        column("PID", TextColumnConstraint::Length(6)),
        column("State", TextColumnConstraint::MaxLength(9)),
    ];
    let mut previous = resolve_column_widths(&cols, 0);
    for total in 1u16..120 {
        let widths = resolve_column_widths(&cols, total);
        for (w, p) in widths.iter().zip(previous.iter()) {
            assert!(w >= p);
        }
        previous = widths;
    }
}

#[test]
fn grapheme_clusters_measure_fill_columns() {
    // "e" followed by a combining accent is two chars but one cluster, so
    // the first column asks for two cells, not three.
    let cols = vec![
        column("e\u{301}", TextColumnConstraint::Fill),
        column("xyz", TextColumnConstraint::Fill),
    ];
    let widths = resolve_column_widths(&cols, 6);
    assert_eq!(widths, vec![2, 4]);
}

#[test]
fn sort_missing_values_always_last() {
    // (A, 1), (B, missing), (C, 2) sorted by the value column
    let mut rows = vec![row(&["A", "1"]), row(&["B"]), row(&["C", "2"])];
    sort_rows_by_column(&mut rows, 1);
    let order: Vec<&str> = rows.iter().map(first_cell).collect();
    assert_eq!(order, vec!["A", "C", "B"]);
}

#[test]
fn sort_is_idempotent() {
    let mut rows = vec![row(&["A", "1"]), row(&["B"]), row(&["C", "2"])];
    sort_rows_by_column(&mut rows, 1);
    let once: Vec<String> = rows.iter().map(|r| String::from(first_cell(r))).collect();
    sort_rows_by_column(&mut rows, 1);
    let twice: Vec<&str> = rows.iter().map(first_cell).collect();
    assert_eq!(once, twice);
}

#[test]
fn sort_is_stable_for_equal_keys() {
    let mut rows = vec![
        row(&["X", "5"]),
        row(&["Y", "5"]),
        row(&["Z", "1"]),
        row(&["W", "5"]),
    ];
    sort_rows_by_column(&mut rows, 1);
    let order: Vec<&str> = rows.iter().map(first_cell).collect();
    assert_eq!(order, vec!["Z", "X", "Y", "W"]);
}

#[test]
fn sort_by_text_column() {
    let mut rows = vec![row(&["beta"]), row(&["alpha"]), row(&["gamma"])];
    sort_rows_by_column(&mut rows, 0);
    let order: Vec<&str> = rows.iter().map(first_cell).collect();
    assert_eq!(order, vec!["alpha", "beta", "gamma"]);
}

#[test]
fn scroll_window_contains_highlight() {
    let mut state = ScrollState::new();
    state.set_num_items(20);
    for _ in 0..9 {
        state.move_down(1);
    }
    assert_eq!(state.current_index(), 9);
    let start = state.display_start_index(5);
    // the window [start, start + 5) holds row 9 and stays inside [0, 20)
    assert_eq!(start, 5);
    assert!(start <= 9 && 9 < start + 5);
    assert!(start + 5 <= 20);
}

#[test]
fn scroll_window_follows_upward_movement() {
    let mut state = ScrollState::new();
    state.set_num_items(10);
    for _ in 0..9 {
        state.move_down(1);
    }
    let start_down = state.display_start_index(4);
    assert_eq!(start_down, 6);
    for _ in 0..9 {
        state.move_up(1);
    }
    let start_up = state.display_start_index(4);
    assert_eq!(start_up, 0);
    assert_eq!(state.current_index(), 0);
}

#[test]
fn scroll_empty_row_set_yields_empty_window() {
    let mut state = ScrollState::new();
    state.set_num_items(0);
    let start = state.display_start_index(5);
    assert_eq!(start, 0);
    assert_eq!(state.current_index(), 0);
}

#[test]
fn scroll_clamps_when_rows_shrink() {
    let mut state = ScrollState::new();
    state.set_num_items(10);
    for _ in 0..9 {
        state.move_down(1);
    }
    state.set_num_items(3);
    assert_eq!(state.current_index(), 2);
    let start = state.display_start_index(5);
    assert_eq!(start, 0);
}
