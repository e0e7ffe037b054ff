//! What is shown on the terminal.

pub mod layout;
pub mod overlay;
pub mod paint_laws;
pub mod pane_widget;
pub mod render;
pub mod view_laws;

pub use layout::{compute_layout, inner_rect, ActivePane, Layout, Rect};
pub use pane_widget::PaneWidget;
