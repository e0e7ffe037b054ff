//! The application: panes, focus, dialogs and input.

pub mod dialog;
pub mod input;
pub mod key_laws;
pub mod laws;
pub mod machine;
pub mod managed;
pub mod selection;
pub mod selection_laws;
pub mod speech;
pub mod speech_laws;
pub mod state;

pub use dialog::Dialog;
pub use selection::{extract_selection, TextSelection};
