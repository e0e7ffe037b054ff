//! Multi-session terminal orchestrator: the logic of its panes, layout, input and voice routing.

pub mod app;
pub mod complete;
pub mod correction;
pub mod event;
pub mod event_laws;
pub mod logo;
pub mod pane;
pub mod paths;
pub mod pty;
pub mod route;
pub mod route_laws;
pub mod session;
pub mod style;
pub mod text;
pub mod text_laws;
pub mod ui;
pub mod voice;
pub mod vt;
pub mod width;
