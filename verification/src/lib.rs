//! Rendering and interaction core of a terminal dashboard.
//!
//! The library keeps the state and the rules: a capability model for
//! on-screen widgets (`widgets`), rectangles and half-open hit-testing
//! (`geometry`), directional focus navigation with redirect resolution
//! over the widget tree (`selection`), a registry that persists
//! per-component interaction state across redraw cycles (`registry`,
//! `scroll_state`), and a generic sortable, scrollable text table
//! (`text_table`) with its column width resolution (`table_column`,
//! `width_resolver`) and stable row sorting (`data_row`, `sorting`).
//! The terminal backend that renders the computed frames and produces raw
//! input events stays outside.

pub mod constants;
pub mod data_row;
pub mod events;
pub mod geometry;
pub mod graphemes;
pub mod registry;
pub mod scroll_state;
pub mod selection;
pub mod sorting;
pub mod table_column;
pub mod text_table;
pub mod widgets;
pub mod width_resolver;
