//! The generic sortable, scrollable text table.
//!
//! The component value is rebuilt cheaply every frame; its interaction
//! state lives in the component registry under the table's key. Each draw
//! resolves column widths against the current bounds, suppresses the
//! header gap when the table is too low, and materializes only the
//! visible window of rows. Events are hit-tested against the bounds and
//! translated through the current scroll window.

use vstd::prelude::*;
use crate::constants::TABLE_GAP_HEIGHT_LIMIT;
use crate::data_row::DataRow;
use crate::events::{Event, MouseButton, MouseEventKind, Status};
use crate::geometry::{rect_contains, Rect};
use crate::registry::{ComponentRegistry, Key};
use crate::scroll_state::{next_display_start, ScrollState};
use crate::sorting::{sort_rows, sort_rows_by_column};
use crate::table_column::{TextColumn, TextColumnConstraint};
use crate::width_resolver::{resolve_column_widths, resolved_widths};

verus! {

/// A plain description of how text is styled; the terminal backend maps
/// it to its own style type.
#[derive(Clone, Copy, Debug, PartialEq, Eq, Structural)]
pub struct TextStyle {
    pub fg: Option<u8>,
    pub bg: Option<u8>,
    pub bold: bool,
}

impl Default for TextStyle {
    fn default() -> (r: TextStyle)
        ensures
            r == (TextStyle { fg: None, bg: None, bold: false }),
    {
        TextStyle { fg: None, bg: None, bold: false }
    }
}

/// The styles a table draws its text, selection and header with.
#[derive(Clone, Copy, Debug, PartialEq, Eq, Structural)]
pub struct StyleSheet {
    pub text: TextStyle,
    pub selected_text: TextStyle,
    pub table_header: TextStyle,
}

impl Default for StyleSheet {
    fn default() -> (r: StyleSheet)
        ensures
            r.text == (TextStyle { fg: None, bg: None, bold: false }),
            r.selected_text == r.text,
            r.table_header == r.text,
    {
        StyleSheet {
            text: TextStyle::default(),
            selected_text: TextStyle::default(),
            table_header: TextStyle::default(),
        }
    }
}

/// Whether the table sorts its rows, and by which column.
#[derive(Clone, Copy, Debug, PartialEq, Eq, Structural)]
pub enum SortStatus {
    Unsortable,
    Sortable { column: usize },
}

/// A message the table hands to the application's queue.
#[derive(Clone, Copy, Debug, PartialEq, Eq, Structural)]
pub enum TableMessage {
    SelectionChanged(usize),
    ActivateSelection(usize),
}

/// What one frame of the table draws: the gap, the window height, and the
/// half-open window of row indices to materialize. The resolved column
/// widths stand in the table's own `column_widths` field.
#[derive(Clone, Copy, Debug, PartialEq, Eq, Structural)]
pub struct TableDrawPlan {
    pub table_gap: u16,
    pub scrollable_height: u16,
    pub start: usize,
    pub end: usize,
}

/// A sortable, scrollable table for text data.
#[derive(Debug)]
pub struct TextTable {
    pub key: Key,
    pub column_widths: Vec<u16>,
    pub columns: Vec<TextColumn>,
    pub show_gap: bool,
    pub show_selected_entry: bool,
    pub rows: Vec<DataRow>,
    pub style_sheet: StyleSheet,
    pub sortable: SortStatus,
    pub table_gap: u16,
    pub on_select: bool,
    pub on_selected_click: bool,
}

/// The sort column in effect, or none.
pub open spec fn spec_sort_column(s: SortStatus) -> Option<int> {
    match s {
        SortStatus::Unsortable => None,
        SortStatus::Sortable { column } => Some(column as int),
    }
}

/// The rows as the table keeps them: sorted by the sort column when one
/// is set.
pub open spec fn spec_sorted_rows(rows: Seq<DataRow>, s: SortStatus) -> Seq<DataRow> {
    match spec_sort_column(s) {
        Some(column) => sort_rows(rows, column),
        None => rows,
    }
}

/// Whether the gap row between header and data is shown: only when asked
/// for, and suppressed when the table is low and the rows do not fit.
pub open spec fn spec_table_gap(show_gap: bool, num_rows: int, height: int) -> int {
    if !show_gap || (num_rows + 2 > height && height < TABLE_GAP_HEIGHT_LIMIT as int) {
        0
    } else {
        1
    }
}

/// The column whose width span covers the relative x position: widths are
/// laid out left to right, and a position past all of them hits nothing.
pub open spec fn column_hit(widths: Seq<u16>, x: int) -> Option<int>
    decreases widths.len(),
{
    if widths.len() == 0 {
        None
    } else if x < widths[0] {
        Some(0)
    } else {
        match column_hit(widths.drop_first(), x - widths[0]) {
            Some(i) => Some(i + 1),
            None => None,
        }
    }
}

/// The highlighted row and window start after the row count is clamped to
/// `n`, starting from stored state `s0`.
pub open spec fn clamped_current(s0: ScrollState, n: int) -> int {
    if s0.spec_current_index() < n {
        s0.spec_current_index()
    } else if n > 0 {
        n - 1
    } else {
        0
    }
}

pub open spec fn clamped_start(s0: ScrollState, n: int) -> int {
    if s0.spec_display_start() < clamped_current(s0, n) {
        s0.spec_display_start()
    } else {
        clamped_current(s0, n)
    }
}

/// The stored state for a key, or the default for a fresh one.
pub open spec fn stored_state(ctx: ComponentRegistry, key: Key) -> ScrollState {
    if ctx.spec_contains(key.id) {
        ctx.spec_state(key.id)
    } else {
        ScrollState::spec_default()
    }
}

/// Everything `on_event` promises, relative to the table `pre` and the
/// interaction state it found: `c1`/`p1` are the highlighted row and
/// window start after clamping to the row count `n`, and `st` is the
/// state left in the registry.
pub open spec fn on_event_post(
    pre: TextTable,
    post: TextTable,
    st: ScrollState,
    c1: int,
    p1: int,
    n: int,
    rect: Rect,
    event: Event,
    old_msgs: Seq<TableMessage>,
    new_msgs: Seq<TableMessage>,
    status: Status,
) -> bool {
    st.spec_num_items() == n && match event {
        Event::Keyboard(_) => post == pre && new_msgs == old_msgs && status == Status::Ignored
            && st.spec_current_index() == c1 && st.spec_display_start() == p1,
        Event::Mouse(m) => {
            if !rect_contains(rect, m.column as int, m.row as int) {
                post == pre && new_msgs == old_msgs && status == Status::Ignored
                    && st.spec_current_index() == c1 && st.spec_display_start() == p1
            } else {
                match m.kind {
                    MouseEventKind::Down(MouseButton::Left) => {
                        let y_rel = m.row - rect.y;
                        let x_rel = m.column - rect.x;
                        if y_rel == 0 {
                            on_header_click_post(
                                pre,
                                post,
                                st,
                                c1,
                                p1,
                                x_rel as int,
                                old_msgs,
                                new_msgs,
                                status,
                            )
                        } else if y_rel > pre.table_gap {
                            on_body_click_post(
                                pre,
                                post,
                                st,
                                c1,
                                p1,
                                n,
                                p1 + (y_rel - pre.table_gap) - 1,
                                old_msgs,
                                new_msgs,
                                status,
                            )
                        } else {
                            post == pre && new_msgs == old_msgs && status == Status::Ignored
                                && st.spec_current_index() == c1 && st.spec_display_start() == p1
                        }
                    },
                    MouseEventKind::ScrollDown => {
                        let c2 = if n == 0 {
                            0
                        } else if c1 + 1 < n {
                            c1 + 1
                        } else {
                            n - 1
                        };
                        post == pre && st.spec_current_index() == c2 && st.spec_display_start()
                            == p1 && status == (if c2 == c1 {
                            Status::Ignored
                        } else {
                            Status::Captured
                        }) && new_msgs == (if pre.on_select {
                            old_msgs.push(TableMessage::SelectionChanged(c2 as usize))
                        } else {
                            old_msgs
                        })
                    },
                    MouseEventKind::ScrollUp => {
                        let c2 = if c1 >= 1 {
                            c1 - 1
                        } else {
                            0
                        };
                        let p2 = if p1 <= c2 {
                            p1
                        } else {
                            c2
                        };
                        post == pre && st.spec_current_index() == c2 && st.spec_display_start()
                            == p2 && status == (if c2 == c1 {
                            Status::Ignored
                        } else {
                            Status::Captured
                        }) && new_msgs == (if pre.on_select {
                            old_msgs.push(TableMessage::SelectionChanged(c2 as usize))
                        } else {
                            old_msgs
                        })
                    },
                    _ => post == pre && new_msgs == old_msgs && status == Status::Ignored
                        && st.spec_current_index() == c1 && st.spec_display_start() == p1,
                }
            }
        },
    }
}

/// A header click re-sorts by the clicked column when the table is
/// sortable and a column lies under the click; anything else is ignored.
pub open spec fn on_header_click_post(
    pre: TextTable,
    post: TextTable,
    st: ScrollState,
    c1: int,
    p1: int,
    x_rel: int,
    old_msgs: Seq<TableMessage>,
    new_msgs: Seq<TableMessage>,
    status: Status,
) -> bool {
    new_msgs == old_msgs && st.spec_current_index() == c1 && st.spec_display_start() == p1
        && if (pre.sortable matches SortStatus::Sortable { .. }) && column_hit(
        pre.column_widths@,
        x_rel,
    ) is Some {
        let c = column_hit(pre.column_widths@, x_rel)->Some_0;
        &&& status == Status::Captured
        &&& post.sortable == (SortStatus::Sortable { column: c as usize })
        &&& post.rows@ == sort_rows(pre.rows@, c)
        &&& post == (TextTable { sortable: post.sortable, rows: post.rows, ..pre })
    } else {
        post == pre && status == Status::Ignored
    }
}

/// A body click on the already-selected row emits an activate message
/// when configured; otherwise it moves the selection to the clicked row
/// (emitting a selection-change message when configured), and a click
/// past the rows is ignored.
pub open spec fn on_body_click_post(
    pre: TextTable,
    post: TextTable,
    st: ScrollState,
    c1: int,
    p1: int,
    n: int,
    target: int,
    old_msgs: Seq<TableMessage>,
    new_msgs: Seq<TableMessage>,
    status: Status,
) -> bool {
    post == pre && st.spec_display_start() == p1 && if pre.on_selected_click && target == c1
        && target < n {
        &&& status == Status::Captured
        &&& st.spec_current_index() == c1
        &&& new_msgs == old_msgs.push(TableMessage::ActivateSelection(target as usize))
    } else if target < n {
        &&& status == Status::Captured
        &&& st.spec_current_index() == target
        &&& new_msgs == (if pre.on_select {
            old_msgs.push(TableMessage::SelectionChanged(target as usize))
        } else {
            old_msgs
        })
    } else {
        &&& status == Status::Ignored
        &&& st.spec_current_index() == c1
        &&& new_msgs == old_msgs
    }
}

impl TextTable {
    /// The column count fits the width resolver's arithmetic.
    pub open spec fn wf(self) -> bool {
        self.columns@.len() <= u16::MAX as nat
    }

    /// A table over the given column names, registered under `key`. All
    /// columns fill available width; the table starts unsortable, with a
    /// header gap, with selection highlighting, and without rows.
    pub fn new(ctx: &mut ComponentRegistry, key: Key, columns: Vec<String>) -> (r: TextTable)
        requires
            old(ctx).wf(),
            columns@.len() <= u16::MAX as nat,
        ensures
            final(ctx).wf(),
            final(ctx).spec_contains(key.id),
            r.wf(),
            r.key == key,
            r.columns@.len() == columns@.len(),
            forall|i: int|
                0 <= i < columns@.len() ==> (#[trigger] r.columns@[i]).name@ == columns@[i]@
                    && r.columns@[i].width_constraint == TextColumnConstraint::Fill,
            r.column_widths@.len() == columns@.len(),
            forall|i: int| 0 <= i < columns@.len() ==> #[trigger] r.column_widths@[i] == 0,
            r.show_gap,
            r.show_selected_entry,
            r.rows@.len() == 0,
            r.sortable == SortStatus::Unsortable,
            r.table_gap == 0,
            !r.on_select,
            !r.on_selected_click,
    {
        ctx.register_component(key);
        let ghost orig = columns@;
        let mut cols: Vec<TextColumn> = Vec::new();
        let mut widths: Vec<u16> = Vec::new();
        let mut i: usize = 0;
        let n = columns.len();
        let mut names = columns;
        proof {
            assert(orig.skip(0) =~= orig);
        }
        while i < n
            invariant
                i <= n,
                n == orig.len(),
                names@ == orig.skip(i as int),
                cols@.len() == i,
                widths@.len() == i,
                forall|j: int| 0 <= j < i ==> #[trigger] widths@[j] == 0,
                forall|j: int|
                    0 <= j < i ==> (#[trigger] cols@[j]).width_constraint
                        == TextColumnConstraint::Fill,
                forall|j: int| 0 <= j < i ==> (#[trigger] cols@[j]).name@ == orig[j]@,
            decreases n - i,
        {
            proof {
                assert(names@[0] == orig.skip(i as int)[0]);
                assert(orig.skip(i as int)[0] == orig[i as int]);
            }
            let name = names.remove(0);
            cols.push(TextColumn::new(name));
            widths.push(0);
            proof {
                assert(names@ =~= orig.skip(i as int + 1));
            }
            i = i + 1;
        }
        TextTable {
            key,
            column_widths: widths,
            columns: cols,
            show_gap: true,
            show_selected_entry: true,
            rows: Vec::new(),
            style_sheet: StyleSheet::default(),
            sortable: SortStatus::Unsortable,
            table_gap: 0,
            on_select: false,
            on_selected_click: false,
        }
    }

    /// Sorts the rows in place when a sort column is set; otherwise leaves
    /// them untouched.
    pub fn try_sort_data(&mut self)
        ensures
            final(self).rows@ == spec_sorted_rows(old(self).rows@, old(self).sortable),
            final(self).key == old(self).key,
            final(self).column_widths == old(self).column_widths,
            final(self).columns == old(self).columns,
            final(self).show_gap == old(self).show_gap,
            final(self).show_selected_entry == old(self).show_selected_entry,
            final(self).style_sheet == old(self).style_sheet,
            final(self).sortable == old(self).sortable,
            final(self).table_gap == old(self).table_gap,
            final(self).on_select == old(self).on_select,
            final(self).on_selected_click == old(self).on_selected_click,
    {
        match self.sortable {
            SortStatus::Sortable { column } => {
                sort_rows_by_column(&mut self.rows, column);
            },
            SortStatus::Unsortable => {},
        }
    }

    /// Replaces the rows to display, sorting them when a sort column is
    /// set. Defaults to no rows when never called.
    pub fn rows(self, rows: Vec<DataRow>) -> (r: TextTable)
        ensures
            r.rows@ == spec_sorted_rows(rows@, self.sortable),
            r == (TextTable { rows: r.rows, ..self }),
    {
        let mut this = self;
        this.rows = rows;
        this.try_sort_data();
        this
    }

    /// Whether to try to show a gap row between header and data; without
    /// enough room the gap is still suppressed. Defaults to shown.
    pub fn show_gap(self, show_gap: bool) -> (r: TextTable)
        ensures
            r == (TextTable { show_gap, ..self }),
    {
        let mut this = self;
        this.show_gap = show_gap;
        this
    }

    /// Whether to highlight the selected entry. Defaults to highlighted.
    pub fn show_selected_entry(self, show_selected_entry: bool) -> (r: TextTable)
        ensures
            r == (TextTable { show_selected_entry, ..self }),
    {
        let mut this = self;
        this.show_selected_entry = show_selected_entry;
        this
    }

    /// Makes the table sortable by its first column, or unsortable, and
    /// re-sorts the rows it holds. Defaults to unsortable.
    pub fn sortable(self, sortable: bool) -> (r: TextTable)
        ensures
            r.sortable == if sortable {
                SortStatus::Sortable { column: 0 }
            } else {
                SortStatus::Unsortable
            },
            r.rows@ == spec_sorted_rows(self.rows@, r.sortable),
            r == (TextTable { sortable: r.sortable, rows: r.rows, ..self }),
    {
        let mut this = self;
        this.sortable = if sortable {
            SortStatus::Sortable { column: 0 }
        } else {
            SortStatus::Unsortable
        };
        this.try_sort_data();
        this
    }

    /// Enables sorting and sets the sort column, re-sorting the rows the
    /// table holds.
    pub fn sort_column(self, column: usize) -> (r: TextTable)
        ensures
            r.sortable == (SortStatus::Sortable { column }),
            r.rows@ == sort_rows(self.rows@, column as int),
            r == (TextTable { sortable: r.sortable, rows: r.rows, ..self }),
    {
        let mut this = self;
        this.sortable = SortStatus::Sortable { column };
        this.try_sort_data();
        this
    }

    /// Whether the table is currently sortable.
    pub fn is_sortable(&self) -> (r: bool)
        ensures
            r == (self.sortable matches SortStatus::Sortable { .. }),
    {
        match self.sortable {
            SortStatus::Sortable { .. } => true,
            SortStatus::Unsortable => false,
        }
    }

    /// Whether a selection-changed message is emitted when the selected
    /// row changes. Defaults to not emitting.
    pub fn on_select(self, on_select: bool) -> (r: TextTable)
        ensures
            r == (TextTable { on_select, ..self }),
    {
        let mut this = self;
        this.on_select = on_select;
        this
    }

    /// Whether clicking the already-selected row emits an activate
    /// message. Defaults to not emitting.
    pub fn on_selected_click(self, on_selected_click: bool) -> (r: TextTable)
        ensures
            r == (TextTable { on_selected_click, ..self }),
    {
        let mut this = self;
        this.on_selected_click = on_selected_click;
        this
    }

    /// The column under the relative x position, by the resolved widths.
    pub fn column_at_x(&self, x_rel: u16) -> (r: Option<usize>)
        ensures
            match r {
                Some(i) => column_hit(self.column_widths@, x_rel as int) == Some(i as int),
                None => column_hit(self.column_widths@, x_rel as int) is None,
            },
    {
        let ghost whole = self.column_widths@;
        let mut i: usize = 0;
        let mut x: u16 = x_rel;
        proof {
            assert(whole.skip(0) =~= whole);
        }
        while i < self.column_widths.len()
            invariant
                i <= whole.len(),
                whole == self.column_widths@,
                column_hit(whole, x_rel as int) == (match column_hit(
                    whole.skip(i as int),
                    x as int,
                ) {
                    Some(j) => Some(j + i as int),
                    None => None::<int>,
                }),
            decreases whole.len() - i,
        {
            let w = self.column_widths[i];
            proof {
                assert(whole.skip(i as int)[0] == whole[i as int]);
                assert(whole.skip(i as int).drop_first() =~= whole.skip(i as int + 1));
            }
            if x < w {
                return Some(i);
            }
            x = x - w;
            i = i + 1;
        }
        None
    }

    /// Resolves the column widths against the given bounds.
    pub fn update_column_widths(&mut self, bounds: Rect)
        requires
            old(self).wf(),
        ensures
            final(self).column_widths@.len() == old(self).columns@.len(),
            forall|i: int|
                0 <= i < old(self).columns@.len() ==> (#[trigger] final(self).column_widths@[i])
                    as int == resolved_widths(old(self).columns@, bounds.width as int)[i],
            *final(self) == (TextTable { column_widths: final(self).column_widths, ..*old(self) }),
    {
        self.column_widths = resolve_column_widths(&self.columns, bounds.width);
    }

    /// Prepares one frame: fetches the persisted state, clamps it to the
    /// row count, decides the gap row, resolves column widths, and
    /// computes the visible window of rows so that the highlighted row
    /// stays visible.
    pub fn draw(&mut self, state_ctx: &mut ComponentRegistry, rect: Rect) -> (plan: TableDrawPlan)
        requires
            old(self).wf(),
            old(state_ctx).wf(),
        ensures
            final(self).wf(),
            final(state_ctx).wf(),
            forall|k: u64|
                k != old(self).key.id ==> #[trigger] final(state_ctx).spec_contains(k) == old(state_ctx).spec_contains(k),
            forall|k: u64|
                k != old(self).key.id && old(state_ctx).spec_contains(k) ==> #[trigger] final(state_ctx).spec_state(k) == old(state_ctx).spec_state(k),
            final(self).table_gap as int == spec_table_gap(
                old(self).show_gap,
                old(self).rows@.len() as int,
                rect.height as int,
            ),
            *final(self) == (TextTable {
                table_gap: final(self).table_gap,
                column_widths: final(self).column_widths,
                ..*old(self)
            }),
            final(self).column_widths@.len() == old(self).columns@.len(),
            forall|i: int|
                0 <= i < old(self).columns@.len() ==> (#[trigger] final(self).column_widths@[i])
                    as int == resolved_widths(old(self).columns@, rect.width as int)[i],
            plan.table_gap == final(self).table_gap,
            plan.scrollable_height as int == if rect.height as int > 1 + plan.table_gap as int {
                rect.height - 1 - plan.table_gap
            } else {
                0
            },
            ({
                let n = old(self).rows@.len() as int;
                let s0 = stored_state(*old(state_ctx), old(self).key);
                let c1 = clamped_current(s0, n);
                let p1 = clamped_start(s0, n);
                let st = final(state_ctx).spec_state(old(self).key.id);
                &&& final(state_ctx).spec_contains(old(self).key.id)
                &&& st.spec_num_items() == n
                &&& st.spec_current_index() == c1
                &&& plan.start as int == next_display_start(
                    p1,
                    c1,
                    n,
                    plan.scrollable_height as int,
                )
                &&& st.spec_display_start() == plan.start as int
                &&& plan.start <= plan.end <= n
                &&& plan.end as int == (if n - plan.start < plan.scrollable_height as int {
                    n
                } else {
                    plan.start + plan.scrollable_height as int
                })
                &&& (n > 0 && plan.scrollable_height > 0 ==> plan.start as int <= c1 < plan.start
                    + plan.scrollable_height)
            }),
    {
        let key = self.key;
        let mut state = state_ctx.state_for(key);
        state.set_num_items(self.rows.len());
        let crowded = if (rect.height as usize) < 2 {
            true
        } else {
            self.rows.len() > (rect.height as usize) - 2
        };
        self.table_gap = if !self.show_gap || (crowded && rect.height < TABLE_GAP_HEIGHT_LIMIT) {
            0
        } else {
            1
        };
        let table_extras: u16 = 1 + self.table_gap;
        let scrollable_height: u16 = if rect.height > table_extras {
            rect.height - table_extras
        } else {
            0
        };
        self.update_column_widths(rect);
        let start = state.display_start_index(scrollable_height as usize);
        let n = state.num_items();
        let end = if n - start < scrollable_height as usize {
            n
        } else {
            start + scrollable_height as usize
        };
        state_ctx.save_state(key, state);
        TableDrawPlan { table_gap: self.table_gap, scrollable_height, start, end }
    }

    /// Routes one event: keyboard input and mouse events outside the
    /// bounds are ignored; a left click on the header re-sorts by the
    /// clicked column; a left click on a body row moves the selection or
    /// activates it; scrolling moves the selection one row and reports the
    /// new selection when configured.
    pub fn on_event(
        &mut self,
        state_ctx: &mut ComponentRegistry,
        rect: Rect,
        event: Event,
        messages: &mut Vec<TableMessage>,
    ) -> (status: Status)
        requires
            old(self).wf(),
            old(state_ctx).wf(),
        ensures
            final(self).wf(),
            final(state_ctx).wf(),
            final(state_ctx).spec_contains(old(self).key.id),
            forall|k: u64|
                k != old(self).key.id ==> #[trigger] final(state_ctx).spec_contains(k) == old(state_ctx).spec_contains(k),
            forall|k: u64|
                k != old(self).key.id && old(state_ctx).spec_contains(k) ==> #[trigger] final(state_ctx).spec_state(k) == old(state_ctx).spec_state(k),
            ({
                let n = old(self).rows@.len() as int;
                let s0 = stored_state(*old(state_ctx), old(self).key);
                on_event_post(
                    *old(self),
                    *final(self),
                    final(state_ctx).spec_state(old(self).key.id),
                    clamped_current(s0, n),
                    clamped_start(s0, n),
                    n,
                    rect,
                    event,
                    old(messages)@,
                    final(messages)@,
                    status,
                )
            }),
    {
        let key = self.key;
        let mut state = state_ctx.state_for(key);
        state.set_num_items(self.rows.len());
        let status: Status = match event {
            Event::Keyboard(_key_event) => Status::Ignored,
            Event::Mouse(mouse_event) => {
                if !crate::geometry::does_bound_intersect_coordinate(
                    mouse_event.column,
                    mouse_event.row,
                    rect,
                ) {
                    Status::Ignored
                } else {
                    match mouse_event.kind {
                        MouseEventKind::Down(MouseButton::Left) => {
                            let y_rel = mouse_event.row - rect.y;
                            let x_rel = mouse_event.column - rect.x;
                            if y_rel == 0 {
                                let is_sortable = self.is_sortable();
                                if is_sortable {
                                    match self.column_at_x(x_rel) {
                                        Some(column) => {
                                            self.sortable = SortStatus::Sortable { column };
                                            self.try_sort_data();
                                            Status::Captured
                                        },
                                        None => Status::Ignored,
                                    }
                                } else {
                                    Status::Ignored
                                }
                            } else if y_rel > self.table_gap {
                                let visual = (y_rel - self.table_gap) as usize;
                                let already = if self.on_selected_click && visual >= 1 {
                                    let ds = state.display_start();
                                    let cur = state.current_index();
                                    let nn = state.num_items();
                                    visual - 1 < nn - ds && ds + (visual - 1) == cur
                                } else {
                                    false
                                };
                                if already {
                                    let cur = state.current_index();
                                    messages.push(TableMessage::ActivateSelection(cur));
                                    Status::Captured
                                } else {
                                    let s = state.set_visual_index(visual);
                                    if self.on_select {
                                        match s {
                                            Status::Captured => {
                                                messages.push(
                                                    TableMessage::SelectionChanged(
                                                        state.current_index(),
                                                    ),
                                                );
                                            },
                                            Status::Ignored => {},
                                        }
                                    }
                                    s
                                }
                            } else {
                                Status::Ignored
                            }
                        },
                        MouseEventKind::ScrollDown => {
                            let s = state.move_down(1);
                            if self.on_select {
                                messages.push(TableMessage::SelectionChanged(state.current_index()));
                            }
                            s
                        },
                        MouseEventKind::ScrollUp => {
                            let s = state.move_up(1);
                            if self.on_select {
                                messages.push(TableMessage::SelectionChanged(state.current_index()));
                            }
                            s
                        },
                        _ => Status::Ignored,
                    }
                }
            },
        };
        state_ctx.save_state(key, state);
        status
    }
}

} // verus!
