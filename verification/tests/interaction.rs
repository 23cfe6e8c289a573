use tuine::data_row::{DataCell, DataRow};
use tuine::events::{
    Event, KeyCode, KeyEvent, KeyModifiers, MouseButton, MouseEvent, MouseEventKind,
    SelectionAction, Status, WidgetEventResult,
};
use tuine::geometry::Rect;
use tuine::registry::{ComponentRegistry, Key};
use tuine::selection::{
    find_next_widget, move_widget_selection, resolve_selectable, validate_selection_graph,
    LayoutNode, MovementDirection, Resolution,
};
use tuine::text_table::{TableMessage, TextTable};
use tuine::widgets::{
    BaseWidget, Component, KillSignal, LayoutRule, NodeId, ScrollDirection, SelectableType,
    TmpBottomWidget, Widget,
};

fn row_of(cells: &[&str]) -> DataRow {
    let mut v = Vec::new();
    for c in cells {
        v.push(DataCell::new(String::from(*c)));
    }
    DataRow::new(v)
}

fn numbered_rows(n: usize) -> Vec<DataRow> {
    let mut rows = Vec::new();
    for i in 0..n {
        rows.push(row_of(&[&format!("{:04}", i)]));
    }
    rows
}

fn table_with_rows(ctx: &mut ComponentRegistry, n: usize) -> TextTable {
    TextTable::new(ctx, Key { id: 1 }, vec![String::from("ID")])
        .rows(numbered_rows(n))
        .on_select(true)
}

fn left_click(column: u16, row: u16) -> Event {
    Event::Mouse(MouseEvent { kind: MouseEventKind::Down(MouseButton::Left), column, row })
}

#[test]
fn click_on_scrolled_table_selects_logical_row() {
    let mut ctx = ComponentRegistry::new();
    let mut table = table_with_rows(&mut ctx, 20);
    let rect = Rect::new(0, 0, 40, 7);
    // scroll the highlight down nine rows
    for _ in 0..9 {
        let mut messages: Vec<TableMessage> = Vec::new();
        let ev = Event::Mouse(MouseEvent { kind: MouseEventKind::ScrollDown, column: 1, row: 1 });
        table.on_event(&mut ctx, rect, ev, &mut messages);
    }
    // the draw computes a window starting at row five
    let plan = table.draw(&mut ctx, rect);
    assert_eq!(plan.table_gap, 1);
    assert_eq!(plan.scrollable_height, 5);
    assert_eq!(plan.start, 5);
    assert_eq!(plan.end, 10);
    // clicking the screen row at header + gap + 2 selects logical row 7
    let mut messages: Vec<TableMessage> = Vec::new();
    let status = table.on_event(&mut ctx, rect, left_click(1, 4), &mut messages);
    assert_eq!(status, Status::Captured);
    let state = ctx.state_for(Key { id: 1 });
    assert_eq!(state.current_index(), 7);
    assert_eq!(messages, vec![TableMessage::SelectionChanged(7)]);
}

#[test]
fn scroll_emits_selection_message_and_clamps() {
    let mut ctx = ComponentRegistry::new();
    let mut table = table_with_rows(&mut ctx, 2);
    let rect = Rect::new(0, 0, 10, 6);
    let mut messages: Vec<TableMessage> = Vec::new();
    let down = Event::Mouse(MouseEvent { kind: MouseEventKind::ScrollDown, column: 0, row: 0 });
    assert_eq!(table.on_event(&mut ctx, rect, down, &mut messages), Status::Captured);
    assert_eq!(table.on_event(&mut ctx, rect, down, &mut messages), Status::Ignored);
    assert_eq!(
        messages,
        vec![TableMessage::SelectionChanged(1), TableMessage::SelectionChanged(1)]
    );
}

#[test]
fn keyboard_and_outside_clicks_are_ignored() {
    let mut ctx = ComponentRegistry::new();
    let mut table = table_with_rows(&mut ctx, 5);
    let rect = Rect::new(0, 0, 10, 6);
    let mut messages: Vec<TableMessage> = Vec::new();
    let key = Event::Keyboard(KeyEvent { code: KeyCode::Char('j'), modifiers: KeyModifiers::none() });
    assert_eq!(table.on_event(&mut ctx, rect, key, &mut messages), Status::Ignored);
    assert_eq!(table.on_event(&mut ctx, rect, left_click(11, 2), &mut messages), Status::Ignored);
    assert!(messages.is_empty());
}

#[test]
fn header_click_sorts_by_clicked_column() {
    let mut ctx = ComponentRegistry::new();
    let columns = vec![String::from("Name"), String::from("Value")];
    let mut table = TextTable::new(&mut ctx, Key { id: 2 }, columns)
        .rows(vec![row_of(&["b", "2"]), row_of(&["a", "3"]), row_of(&["c", "1"])])
        .sortable(true);
    // sortable(true) sorts by the first column
    assert_eq!(table.rows[0].cells[0].text, "a");
    let rect = Rect::new(0, 0, 20, 6);
    table.draw(&mut ctx, rect);
    // the second column starts at half the width; click its header cell
    let mut messages: Vec<TableMessage> = Vec::new();
    let x_in_second = table.column_widths[0] + 1;
    let status = table.on_event(&mut ctx, rect, left_click(x_in_second, 0), &mut messages);
    assert_eq!(status, Status::Captured);
    assert_eq!(table.rows[0].cells[1].text, "1");
    assert_eq!(table.rows[2].cells[1].text, "3");
}

#[test]
fn click_on_selected_row_activates_when_configured() {
    let mut ctx = ComponentRegistry::new();
    let mut table = TextTable::new(&mut ctx, Key { id: 3 }, vec![String::from("ID")])
        .rows(numbered_rows(5))
        .on_selected_click(true);
    let rect = Rect::new(0, 0, 10, 7);
    table.draw(&mut ctx, rect);
    // the first body row is the selected row zero
    let mut messages: Vec<TableMessage> = Vec::new();
    let status = table.on_event(&mut ctx, rect, left_click(1, 2), &mut messages);
    assert_eq!(status, Status::Captured);
    assert_eq!(messages, vec![TableMessage::ActivateSelection(0)]);
}

#[test]
fn gap_is_suppressed_in_low_tables() {
    let mut ctx = ComponentRegistry::new();
    let mut table = table_with_rows(&mut ctx, 20);
    // height five is under the gap threshold and the rows do not fit
    let plan = table.draw(&mut ctx, Rect::new(0, 0, 10, 5));
    assert_eq!(plan.table_gap, 0);
    assert_eq!(plan.scrollable_height, 4);
}

#[test]
fn registry_persists_state_across_cycles_and_prunes() {
    let mut ctx = ComponentRegistry::new();
    let a = Key { id: 10 };
    let b = Key { id: 11 };
    ctx.register_component(a);
    ctx.register_component(b);
    let mut state = ctx.state_for(a);
    state.set_num_items(4);
    state.move_down(3);
    ctx.save_state(a, state);
    // next rebuild cycle registers only `a`; pruning drops `b`
    ctx.prune();
    ctx.register_component(a);
    ctx.prune();
    let kept = ctx.state_for(a);
    assert_eq!(kept.current_index(), 3);
    let fresh = ctx.state_for(b);
    assert_eq!(fresh.current_index(), 0);
}

fn node(x: u16, y: u16, selectable: SelectableType) -> LayoutNode {
    LayoutNode { bounds: Rect::new(x, y, 10, 4), selectable }
}

#[test]
fn redirect_chains_resolve_to_selectable_nodes() {
    let nodes = vec![
        node(0, 0, SelectableType::Redirect(NodeId { index: 1 })),
        node(20, 0, SelectableType::Redirect(NodeId { index: 2 })),
        node(40, 0, SelectableType::Selectable),
        node(0, 10, SelectableType::Unselectable),
        node(20, 10, SelectableType::Redirect(NodeId { index: 9 })),
    ];
    assert_eq!(
        resolve_selectable(&nodes, NodeId { index: 0 }),
        Resolution::Target(NodeId { index: 2 })
    );
    assert_eq!(resolve_selectable(&nodes, NodeId { index: 3 }), Resolution::NotSelectable);
    assert_eq!(resolve_selectable(&nodes, NodeId { index: 4 }), Resolution::OutOfTree);
    assert_eq!(resolve_selectable(&nodes, NodeId { index: 9 }), Resolution::OutOfTree);
    assert!(!validate_selection_graph(&nodes));
    let valid = vec![
        node(0, 0, SelectableType::Redirect(NodeId { index: 1 })),
        node(20, 0, SelectableType::Selectable),
    ];
    assert!(validate_selection_graph(&valid));
}

#[test]
fn redirect_cycle_is_rejected() {
    let nodes = vec![
        node(0, 0, SelectableType::Redirect(NodeId { index: 1 })),
        node(20, 0, SelectableType::Redirect(NodeId { index: 0 })),
    ];
    assert_eq!(resolve_selectable(&nodes, NodeId { index: 0 }), Resolution::Cycle);
    assert!(!validate_selection_graph(&nodes));
}

#[test]
fn directional_navigation_picks_nearest_and_resolves() {
    let nodes = vec![
        node(0, 0, SelectableType::Selectable),
        node(14, 0, SelectableType::Redirect(NodeId { index: 3 })),
        node(40, 0, SelectableType::Selectable),
        node(14, 10, SelectableType::Selectable),
    ];
    // from node zero, the nearest node to the right is node one
    let next = find_next_widget(&nodes, NodeId { index: 0 }, MovementDirection::Right);
    assert_eq!(next, Some(NodeId { index: 1 }));
    // committing the move resolves the redirect to node three
    let landed = move_widget_selection(
        &nodes,
        NodeId { index: 0 },
        MovementDirection::Right,
        SelectionAction::NotHandled,
    );
    assert_eq!(landed, NodeId { index: 3 });
    // a widget that consumed the movement keeps focus
    let stayed = move_widget_selection(
        &nodes,
        NodeId { index: 0 },
        MovementDirection::Right,
        SelectionAction::Handled,
    );
    assert_eq!(stayed, NodeId { index: 0 });
    // at the edge of the dashboard focus is unchanged
    let edge = move_widget_selection(
        &nodes,
        NodeId { index: 0 },
        MovementDirection::Left,
        SelectionAction::NotHandled,
    );
    assert_eq!(edge, NodeId { index: 0 });
}

#[test]
fn widget_capability_defaults() {
    let base = BaseWidget::new(LayoutRule::Fill, LayoutRule::Length(8));
    let mut w = TmpBottomWidget::MemGraph(base);
    assert_eq!(w.get_pretty_name(), "Memory");
    assert!(w.expandable());
    assert_eq!(w.selectable_type(), SelectableType::Selectable);
    assert_eq!(
        w.handle_key_event(KeyEvent { code: KeyCode::Enter, modifiers: KeyModifiers::none() }),
        WidgetEventResult::NoRedraw
    );
    assert_eq!(w.handle_widget_selection_left(), SelectionAction::NotHandled);
    let bounds = Rect::new(3, 4, 10, 5);
    w.set_bounds(bounds);
    w.set_border_bounds(bounds);
    assert_eq!(w.bounds(), bounds);
    assert_eq!(w.border_bounds(), bounds);
    let inside = MouseEvent { kind: MouseEventKind::Moved, column: 3, row: 4 };
    let outside = MouseEvent { kind: MouseEventKind::Moved, column: 13, row: 4 };
    assert!(w.does_bounds_intersect_mouse(&inside));
    assert!(!w.does_border_intersect_mouse(&outside));
    let empty = TmpBottomWidget::Empty(base);
    assert_eq!(empty.selectable_type(), SelectableType::Unselectable);
    assert!(empty.expandable());
}

#[test]
fn legacy_defaults_match_their_documented_values() {
    assert_eq!(ScrollDirection::default(), ScrollDirection::Down);
    assert_eq!(KillSignal::default(), KillSignal::Kill(15));
}

#[test]
fn builders_keep_their_settings() {
    let mut ctx = ComponentRegistry::new();
    let table = TextTable::new(&mut ctx, Key { id: 4 }, vec![String::from("A")]);
    assert!(!table.is_sortable());
    let table = table.sortable(true);
    assert!(table.is_sortable());
    let table = table.sortable(false).show_gap(false).show_selected_entry(false);
    assert!(!table.is_sortable());
    assert!(!table.show_gap);
    assert!(!table.show_selected_entry);
}

#[test]
fn sort_column_builder_sorts_held_rows() {
    let mut ctx = ComponentRegistry::new();
    let table = TextTable::new(
        &mut ctx,
        Key { id: 5 },
        vec![String::from("Name"), String::from("Value")],
    )
        .rows(vec![row_of(&["b", "2"]), row_of(&["a", "3"]), row_of(&["c", "1"])])
        .sort_column(1);
    let order: Vec<&str> = table.rows.iter().map(|r| r.cells[1].text.as_str()).collect();
    assert_eq!(order, vec!["1", "2", "3"]);
}

#[test]
fn degenerate_geometry_degrades_gracefully() {
    let mut ctx = ComponentRegistry::new();
    let mut table = table_with_rows(&mut ctx, 3);
    // zero-height bounds: nothing is visible, nothing crashes
    let plan = table.draw(&mut ctx, Rect::new(0, 0, 10, 0));
    assert_eq!(plan.scrollable_height, 0);
    assert_eq!(plan.start, plan.end);
    // a table narrower than its columns truncates trailing widths
    let mut wide = TextTable::new(
        &mut ctx,
        Key { id: 6 },
        vec![String::from("Alpha"), String::from("Beta"), String::from("Gamma")],
    );
    let _ = wide.draw(&mut ctx, Rect::new(0, 0, 6, 5));
    let sum: u32 = wide.column_widths.iter().map(|w| *w as u32).sum();
    assert_eq!(sum, 6);
}

#[test]
fn empty_row_set_draws_empty_window() {
    let mut ctx = ComponentRegistry::new();
    let mut table = table_with_rows(&mut ctx, 0);
    let plan = table.draw(&mut ctx, Rect::new(0, 0, 10, 8));
    assert_eq!(plan.start, 0);
    assert_eq!(plan.end, 0);
}
