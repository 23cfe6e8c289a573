//! The widget capability model and the closed set of dashboard widgets.
//!
//! Every on-screen element implements the capability traits: bounds and
//! border bounds, mouse hit-testing, key and mouse handling, directional
//! selection handling, sizing preference and selectability. The concrete
//! widget kinds are a closed enumeration dispatched by a match per
//! capability, so the hot draw loop pays no dynamic indirection.

use vstd::prelude::*;
use crate::data_row::DataRow;
use crate::events::{KeyEvent, MouseEvent, SelectionAction, WidgetEventResult};
use crate::geometry::{does_bound_intersect_coordinate, rect_contains, Rect};
use crate::scroll_state::ScrollState;

verus! {

/// Identifies a node of the widget layout tree.
#[derive(Clone, Copy, Debug, PartialEq, Eq, Structural)]
pub struct NodeId {
    pub index: usize,
}

/// Whether a widget can receive focus, is skipped during focus traversal,
/// or forwards focus to another node of the tree.
#[derive(Clone, Copy, Debug, PartialEq, Eq, Structural)]
pub enum SelectableType {
    Selectable,
    Unselectable,
    Redirect(NodeId),
}

/// A widget's sizing preference for the external layout solver.
#[derive(Clone, Copy, Debug, PartialEq, Eq, Structural)]
pub enum LayoutRule {
    Fill,
    Length(u16),
    Percentage(u16),
}

/// One tick's harvested resource data, reduced to the parts the widgets
/// read. The harvester that fills it stays outside this library.
#[derive(Debug)]
pub struct DataCollection {
    pub process_rows: Vec<DataRow>,
    pub temperature_rows: Vec<DataRow>,
    pub disk_rows: Vec<DataRow>,
    pub battery_rows: Vec<DataRow>,
    pub memory_points: Vec<u64>,
    pub network_points: Vec<u64>,
}

/// A capability set every drawn component implements: absolute bounds,
/// border bounds, and event handling against them.
pub trait Component: Sized {
    spec fn spec_bounds(&self) -> Rect;

    spec fn spec_border_bounds(&self) -> Rect;

    /// Handles a key event; by default the event is ignored and nothing
    /// changes.
    fn handle_key_event(&mut self, event: KeyEvent) -> (r: WidgetEventResult)
        default_ensures
            r == WidgetEventResult::NoRedraw,
            *final(self) == *old(self),
    {
        WidgetEventResult::NoRedraw
    }

    /// Handles a mouse event; by default the event is ignored and nothing
    /// changes.
    fn handle_mouse_event(&mut self, event: MouseEvent) -> (r: WidgetEventResult)
        default_ensures
            r == WidgetEventResult::NoRedraw,
            *final(self) == *old(self),
    {
        WidgetEventResult::NoRedraw
    }

    /// The component's bounding box, in absolute coordinates.
    fn bounds(&self) -> (r: Rect)
        ensures
            r == self.spec_bounds(),
    ;

    /// Replaces the bounds, leaving the border bounds alone.
    fn set_bounds(&mut self, new_bounds: Rect)
        ensures
            final(self).spec_bounds() == new_bounds,
            final(self).spec_border_bounds() == old(self).spec_border_bounds(),
    ;

    /// The bounding box including any border, in absolute coordinates.
    fn border_bounds(&self) -> (r: Rect)
        ensures
            r == self.spec_border_bounds(),
    ;

    /// Replaces the border bounds, leaving the content bounds alone.
    fn set_border_bounds(&mut self, new_bounds: Rect)
        ensures
            final(self).spec_border_bounds() == new_bounds,
            final(self).spec_bounds() == old(self).spec_bounds(),
    ;

    /// Whether a mouse event lies inside the component's bounds.
    fn does_bounds_intersect_mouse(&self, event: &MouseEvent) -> (r: bool)
        ensures
            r == rect_contains(self.spec_bounds(), event.column as int, event.row as int),
    {
        does_bound_intersect_coordinate(event.column, event.row, self.bounds())
    }

    /// Whether a mouse event lies inside the component's border bounds.
    fn does_border_intersect_mouse(&self, event: &MouseEvent) -> (r: bool)
        ensures
            r == rect_contains(self.spec_border_bounds(), event.column as int, event.row as int),
    {
        does_bound_intersect_coordinate(event.column, event.row, self.border_bounds())
    }
}

/// The capability set of a fully fledged dashboard widget: directional
/// selection handling, data ingestion, sizing and selectability.
pub trait Widget: Sized {
    spec fn spec_selectable_type(&self) -> SelectableType;

    spec fn spec_pretty_name(&self) -> Seq<char>;

    spec fn spec_width(&self) -> LayoutRule;

    spec fn spec_height(&self) -> LayoutRule;

    /// Responds to a selection movement to the left. By default nothing
    /// is consumed: `NotHandled` lets the navigation layer pick the next
    /// widget in that direction, and the widget is unchanged.
    fn handle_widget_selection_left(&mut self) -> (r: SelectionAction)
        default_ensures
            r == SelectionAction::NotHandled,
            *final(self) == *old(self),
    {
        SelectionAction::NotHandled
    }

    /// Responds to a selection movement to the right; the default
    /// consumes nothing and changes nothing.
    fn handle_widget_selection_right(&mut self) -> (r: SelectionAction)
        default_ensures
            r == SelectionAction::NotHandled,
            *final(self) == *old(self),
    {
        SelectionAction::NotHandled
    }

    /// Responds to a selection movement upward; the default consumes
    /// nothing and changes nothing.
    fn handle_widget_selection_up(&mut self) -> (r: SelectionAction)
        default_ensures
            r == SelectionAction::NotHandled,
            *final(self) == *old(self),
    {
        SelectionAction::NotHandled
    }

    /// Responds to a selection movement downward; the default consumes
    /// nothing and changes nothing.
    fn handle_widget_selection_down(&mut self) -> (r: SelectionAction)
        default_ensures
            r == SelectionAction::NotHandled,
            *final(self) == *old(self),
    {
        SelectionAction::NotHandled
    }

    /// The widget's display name.
    fn get_pretty_name(&self) -> (r: &'static str)
        ensures
            r@ == self.spec_pretty_name(),
    ;

    /// Ingests the widget-relevant part of a harvested snapshot; called
    /// once per harvest cycle for every widget, visible or not. The
    /// default ingests nothing.
    fn update_data(&mut self, data: &DataCollection)
        default_ensures
            *final(self) == *old(self),
    {
    }

    /// The desired width.
    fn width(&self) -> (r: LayoutRule)
        ensures
            r == self.spec_width(),
    ;

    /// The desired height.
    fn height(&self) -> (r: LayoutRule)
        ensures
            r == self.spec_height(),
    ;

    /// Whether the widget may grow into extra space; by default it may.
    fn expandable(&self) -> (r: bool)
        default_ensures
            r == true,
    {
        true
    }

    /// How the widget takes part in focus traversal.
    fn selectable_type(&self) -> (r: SelectableType)
        ensures
            r == self.spec_selectable_type(),
    ;
}

/// The bounds and sizing state every concrete widget carries.
#[derive(Clone, Copy, Debug, PartialEq, Eq, Structural)]
pub struct BaseWidget {
    pub bounds: Rect,
    pub border_bounds: Rect,
    pub width_rule: LayoutRule,
    pub height_rule: LayoutRule,
}

impl BaseWidget {
    pub fn new(width_rule: LayoutRule, height_rule: LayoutRule) -> (r: BaseWidget)
        ensures
            r.width_rule == width_rule,
            r.height_rule == height_rule,
            r.bounds == (Rect { x: 0, y: 0, width: 0, height: 0 }),
            r.border_bounds == r.bounds,
    {
        let zero = Rect { x: 0, y: 0, width: 0, height: 0 };
        BaseWidget { bounds: zero, border_bounds: zero, width_rule, height_rule }
    }
}

/// A carousel shows one of its children at a time and forwards focus to
/// the child it currently displays.
#[derive(Clone, Copy, Debug, PartialEq, Eq, Structural)]
pub struct CarouselWidget {
    pub base: BaseWidget,
    pub shown_child: NodeId,
}

/// The closed set of widgets the dashboard displays.
#[derive(Clone, Copy, Debug, PartialEq, Eq, Structural)]
pub enum TmpBottomWidget {
    MemGraph(BaseWidget),
    TempTable(BaseWidget),
    DiskTable(BaseWidget),
    CpuGraph(BaseWidget),
    NetGraph(BaseWidget),
    OldNetGraph(BaseWidget),
    ProcessManager(BaseWidget),
    BatteryTable(BaseWidget),
    BasicCpu(BaseWidget),
    BasicMem(BaseWidget),
    BasicNet(BaseWidget),
    Carousel(CarouselWidget),
    Empty(BaseWidget),
}

impl TmpBottomWidget {
    pub open spec fn spec_base(self) -> BaseWidget {
        match self {
            TmpBottomWidget::MemGraph(b) => b,
            TmpBottomWidget::TempTable(b) => b,
            TmpBottomWidget::DiskTable(b) => b,
            TmpBottomWidget::CpuGraph(b) => b,
            TmpBottomWidget::NetGraph(b) => b,
            TmpBottomWidget::OldNetGraph(b) => b,
            TmpBottomWidget::ProcessManager(b) => b,
            TmpBottomWidget::BatteryTable(b) => b,
            TmpBottomWidget::BasicCpu(b) => b,
            TmpBottomWidget::BasicMem(b) => b,
            TmpBottomWidget::BasicNet(b) => b,
            TmpBottomWidget::Carousel(c) => c.base,
            TmpBottomWidget::Empty(b) => b,
        }
    }

    fn base_mut(&mut self) -> (r: &mut BaseWidget)
        ensures
            *r == old(self).spec_base(),
            final(self).spec_base() == *final(r),
            final(self).spec_selectable_type() == old(self).spec_selectable_type(),
    {
        match self {
            TmpBottomWidget::MemGraph(b) => b,
            TmpBottomWidget::TempTable(b) => b,
            TmpBottomWidget::DiskTable(b) => b,
            TmpBottomWidget::CpuGraph(b) => b,
            TmpBottomWidget::NetGraph(b) => b,
            TmpBottomWidget::OldNetGraph(b) => b,
            TmpBottomWidget::ProcessManager(b) => b,
            TmpBottomWidget::BatteryTable(b) => b,
            TmpBottomWidget::BasicCpu(b) => b,
            TmpBottomWidget::BasicNet(b) => b,
            TmpBottomWidget::BasicMem(b) => b,
            TmpBottomWidget::Carousel(c) => &mut c.base,
            TmpBottomWidget::Empty(b) => b,
        }
    }
}

impl Component for TmpBottomWidget {
    open spec fn spec_bounds(&self) -> Rect {
        self.spec_base().bounds
    }

    open spec fn spec_border_bounds(&self) -> Rect {
        self.spec_base().border_bounds
    }

    fn bounds(&self) -> (r: Rect) {
        match self {
            TmpBottomWidget::MemGraph(b) => b.bounds,
            TmpBottomWidget::TempTable(b) => b.bounds,
            TmpBottomWidget::DiskTable(b) => b.bounds,
            TmpBottomWidget::CpuGraph(b) => b.bounds,
            TmpBottomWidget::NetGraph(b) => b.bounds,
            TmpBottomWidget::OldNetGraph(b) => b.bounds,
            TmpBottomWidget::ProcessManager(b) => b.bounds,
            TmpBottomWidget::BatteryTable(b) => b.bounds,
            TmpBottomWidget::BasicCpu(b) => b.bounds,
            TmpBottomWidget::BasicMem(b) => b.bounds,
            TmpBottomWidget::BasicNet(b) => b.bounds,
            TmpBottomWidget::Carousel(c) => c.base.bounds,
            TmpBottomWidget::Empty(b) => b.bounds,
        }
    }

    fn set_bounds(&mut self, new_bounds: Rect) {
        let base = self.base_mut();
        base.bounds = new_bounds;
    }

    fn border_bounds(&self) -> (r: Rect) {
        match self {
            TmpBottomWidget::MemGraph(b) => b.border_bounds,
            TmpBottomWidget::TempTable(b) => b.border_bounds,
            TmpBottomWidget::DiskTable(b) => b.border_bounds,
            TmpBottomWidget::CpuGraph(b) => b.border_bounds,
            TmpBottomWidget::NetGraph(b) => b.border_bounds,
            TmpBottomWidget::OldNetGraph(b) => b.border_bounds,
            TmpBottomWidget::ProcessManager(b) => b.border_bounds,
            TmpBottomWidget::BatteryTable(b) => b.border_bounds,
            TmpBottomWidget::BasicCpu(b) => b.border_bounds,
            TmpBottomWidget::BasicMem(b) => b.border_bounds,
            TmpBottomWidget::BasicNet(b) => b.border_bounds,
            TmpBottomWidget::Carousel(c) => c.base.border_bounds,
            TmpBottomWidget::Empty(b) => b.border_bounds,
        }
    }

    fn set_border_bounds(&mut self, new_bounds: Rect) {
        let base = self.base_mut();
        base.border_bounds = new_bounds;
    }
}

impl Widget for TmpBottomWidget {
    open spec fn spec_selectable_type(&self) -> SelectableType {
        match self {
            TmpBottomWidget::Empty(_) => SelectableType::Unselectable,
            TmpBottomWidget::Carousel(c) => SelectableType::Redirect(c.shown_child),
            _ => SelectableType::Selectable,
        }
    }

    open spec fn spec_pretty_name(&self) -> Seq<char> {
        match self {
            TmpBottomWidget::MemGraph(_) => "Memory"@,
            TmpBottomWidget::TempTable(_) => "Temperatures"@,
            TmpBottomWidget::DiskTable(_) => "Disks"@,
            TmpBottomWidget::CpuGraph(_) => "CPU"@,
            TmpBottomWidget::NetGraph(_) => "Network"@,
            TmpBottomWidget::OldNetGraph(_) => "Network"@,
            TmpBottomWidget::ProcessManager(_) => "Processes"@,
            TmpBottomWidget::BatteryTable(_) => "Battery"@,
            TmpBottomWidget::BasicCpu(_) => "CPU"@,
            TmpBottomWidget::BasicMem(_) => "Memory"@,
            TmpBottomWidget::BasicNet(_) => "Network"@,
            TmpBottomWidget::Carousel(_) => "Carousel"@,
            TmpBottomWidget::Empty(_) => "Empty"@,
        }
    }

    open spec fn spec_width(&self) -> LayoutRule {
        self.spec_base().width_rule
    }

    open spec fn spec_height(&self) -> LayoutRule {
        self.spec_base().height_rule
    }

    fn get_pretty_name(&self) -> (r: &'static str) {
        match self {
            TmpBottomWidget::MemGraph(_) => "Memory",
            TmpBottomWidget::TempTable(_) => "Temperatures",
            TmpBottomWidget::DiskTable(_) => "Disks",
            TmpBottomWidget::CpuGraph(_) => "CPU",
            TmpBottomWidget::NetGraph(_) => "Network",
            TmpBottomWidget::OldNetGraph(_) => "Network",
            TmpBottomWidget::ProcessManager(_) => "Processes",
            TmpBottomWidget::BatteryTable(_) => "Battery",
            TmpBottomWidget::BasicCpu(_) => "CPU",
            TmpBottomWidget::BasicMem(_) => "Memory",
            TmpBottomWidget::BasicNet(_) => "Network",
            TmpBottomWidget::Carousel(_) => "Carousel",
            TmpBottomWidget::Empty(_) => "Empty",
        }
    }

    fn width(&self) -> (r: LayoutRule) {
        match self {
            TmpBottomWidget::Carousel(c) => c.base.width_rule,
            TmpBottomWidget::MemGraph(b) => b.width_rule,
            TmpBottomWidget::TempTable(b) => b.width_rule,
            TmpBottomWidget::DiskTable(b) => b.width_rule,
            TmpBottomWidget::CpuGraph(b) => b.width_rule,
            TmpBottomWidget::NetGraph(b) => b.width_rule,
            TmpBottomWidget::OldNetGraph(b) => b.width_rule,
            TmpBottomWidget::ProcessManager(b) => b.width_rule,
            TmpBottomWidget::BatteryTable(b) => b.width_rule,
            TmpBottomWidget::BasicCpu(b) => b.width_rule,
            TmpBottomWidget::BasicMem(b) => b.width_rule,
            TmpBottomWidget::BasicNet(b) => b.width_rule,
            TmpBottomWidget::Empty(b) => b.width_rule,
        }
    }

    fn height(&self) -> (r: LayoutRule) {
        match self {
            TmpBottomWidget::Carousel(c) => c.base.height_rule,
            TmpBottomWidget::MemGraph(b) => b.height_rule,
            TmpBottomWidget::TempTable(b) => b.height_rule,
            TmpBottomWidget::DiskTable(b) => b.height_rule,
            TmpBottomWidget::CpuGraph(b) => b.height_rule,
            TmpBottomWidget::NetGraph(b) => b.height_rule,
            TmpBottomWidget::OldNetGraph(b) => b.height_rule,
            TmpBottomWidget::ProcessManager(b) => b.height_rule,
            TmpBottomWidget::BatteryTable(b) => b.height_rule,
            TmpBottomWidget::BasicCpu(b) => b.height_rule,
            TmpBottomWidget::BasicMem(b) => b.height_rule,
            TmpBottomWidget::BasicNet(b) => b.height_rule,
            TmpBottomWidget::Empty(b) => b.height_rule,
        }
    }

    fn selectable_type(&self) -> (r: SelectableType) {
        match self {
            TmpBottomWidget::Empty(_) => SelectableType::Unselectable,
            TmpBottomWidget::Carousel(c) => SelectableType::Redirect(c.shown_child),
            _ => SelectableType::Selectable,
        }
    }
}

/// Which way a table is being scrolled; scrolling down usually increments
/// the position.
#[derive(Clone, Copy, Debug, PartialEq, Eq, Structural)]
pub enum ScrollDirection {
    Up,
    Down,
}

impl Default for ScrollDirection {
    fn default() -> (r: ScrollDirection)
        ensures
            r == ScrollDirection::Down,
    {
        ScrollDirection::Down
    }
}

/// Which way a text cursor moves.
#[derive(Clone, Copy, Debug, PartialEq, Eq, Structural)]
pub enum CursorDirection {
    Left,
    Right,
}

/// Scroll fields of a scrollable widget.
#[derive(Clone, Copy, Debug)]
pub struct AppScrollWidgetState {
    pub current_scroll_position: usize,
    pub previous_scroll_position: usize,
    pub scroll_direction: ScrollDirection,
    pub table_state: ScrollState,
}

impl Default for AppScrollWidgetState {
    fn default() -> (r: AppScrollWidgetState)
        ensures
            r.current_scroll_position == 0,
            r.previous_scroll_position == 0,
            r.scroll_direction == ScrollDirection::Down,
            r.table_state.wf(),
    {
        AppScrollWidgetState {
            current_scroll_position: 0,
            previous_scroll_position: 0,
            scroll_direction: ScrollDirection::Down,
            table_state: ScrollState::new(),
        }
    }
}

/// What the kill dialog decided: cancel, or send the chosen signal.
#[derive(Clone, Copy, Debug, PartialEq, Eq, Structural)]
pub enum KillSignal {
    Cancel,
    Kill(usize),
}

impl Default for KillSignal {
    /// The conventional terminate signal.
    fn default() -> (r: KillSignal)
        ensures
            r == KillSignal::Kill(15),
    {
        KillSignal::Kill(15)
    }
}

/// State of the process-kill confirmation dialog. Button positions are
/// absolute cell rectangles with the signal they stand for; the timestamp
/// of the last number press is in milliseconds, supplied by the caller's
/// clock.
#[derive(Clone, Debug)]
pub struct AppDeleteDialogState {
    pub is_showing_dd: bool,
    pub selected_signal: KillSignal,
    pub button_positions: Vec<(u16, u16, u16, u16, usize)>,
    pub keyboard_signal_select: usize,
    pub last_number_press: Option<u64>,
    pub scroll_pos: usize,
}

impl Default for AppDeleteDialogState {
    fn default() -> (r: AppDeleteDialogState)
        ensures
            !r.is_showing_dd,
            r.selected_signal == KillSignal::Kill(15),
            r.button_positions@.len() == 0,
            r.keyboard_signal_select == 0,
            r.last_number_press is None,
            r.scroll_pos == 0,
    {
        AppDeleteDialogState {
            is_showing_dd: false,
            selected_signal: KillSignal::default(),
            button_positions: Vec::new(),
            keyboard_signal_select: 0,
            last_number_press: None,
            scroll_pos: 0,
        }
    }
}

/// Scroll position of a paragraph widget.
#[derive(Clone, Copy, Debug, PartialEq, Eq, Structural)]
pub struct ParagraphScrollState {
    pub current_scroll_index: u16,
    pub max_scroll_index: u16,
}

impl Default for ParagraphScrollState {
    fn default() -> (r: ParagraphScrollState)
        ensures
            r.current_scroll_index == 0,
            r.max_scroll_index == 0,
    {
        ParagraphScrollState { current_scroll_index: 0, max_scroll_index: 0 }
    }
}

/// State of the help dialog. The shortcut index holds one entry per help
/// section; the presentation layer that owns the help text sizes it.
#[derive(Clone, Debug)]
pub struct AppHelpDialogState {
    pub is_showing_help: bool,
    pub scroll_state: ParagraphScrollState,
    pub index_shortcuts: Vec<u16>,
}

impl Default for AppHelpDialogState {
    fn default() -> (r: AppHelpDialogState)
        ensures
            !r.is_showing_help,
            r.scroll_state == (ParagraphScrollState {
                current_scroll_index: 0,
                max_scroll_index: 0,
            }),
            r.index_shortcuts@.len() == 0,
    {
        AppHelpDialogState {
            is_showing_help: false,
            scroll_state: ParagraphScrollState::default(),
            index_shortcuts: Vec::new(),
        }
    }
}

/// Desired and resolved column widths of a canvas-drawn table.
#[derive(Clone, Debug)]
pub struct CanvasTableWidthState {
    pub desired_column_widths: Vec<u16>,
    pub calculated_column_widths: Vec<u16>,
}

impl Default for CanvasTableWidthState {
    fn default() -> (r: CanvasTableWidthState)
        ensures
            r.desired_column_widths@.len() == 0,
            r.calculated_column_widths@.len() == 0,
    {
        CanvasTableWidthState { desired_column_widths: Vec::new(), calculated_column_widths: Vec::new() }
    }
}

/// The widget kinds the basic-mode table can display.
#[derive(Clone, Copy, Debug, PartialEq, Eq, Structural)]
pub enum BottomWidgetType {
    Empty,
    Cpu,
    Mem,
    Net,
    Proc,
    Temp,
    Disk,
    Battery,
    BasicCpu,
    BasicMem,
    BasicNet,
}

/// State of the single basic-mode table widget: which widget it displays
/// and the corner cells of its two arrow buttons.
#[derive(Clone, Copy, Debug)]
pub struct BasicTableWidgetState {
    pub currently_displayed_widget_type: BottomWidgetType,
    pub currently_displayed_widget_id: u64,
    pub widget_id: i64,
    pub left_tlc: Option<(u16, u16)>,
    pub left_brc: Option<(u16, u16)>,
    pub right_tlc: Option<(u16, u16)>,
    pub right_brc: Option<(u16, u16)>,
}

} // verus!
