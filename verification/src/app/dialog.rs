//! Confirmation and input dialogs.

use crate::text::copy_text;
use vstd::prelude::*;

verus! {

/// Active confirmation dialog.
pub enum Dialog {
    Closed,
    ConfirmQuit,
    ConfirmCloseWorker(usize),
    /// Input buffer for the session name.
    SaveSession(String),
}

/// A dialog with its text as a sequence.
pub enum DialogView {
    Closed,
    ConfirmQuit,
    ConfirmCloseWorker(usize),
    SaveSession(Seq<char>),
}

impl View for Dialog {
    type V = DialogView;

    open spec fn view(&self) -> DialogView {
        match *self {
            Dialog::Closed => DialogView::Closed,
            Dialog::ConfirmQuit => DialogView::ConfirmQuit,
            Dialog::ConfirmCloseWorker(idx) => DialogView::ConfirmCloseWorker(idx),
            Dialog::SaveSession(input) => DialogView::SaveSession(input@),
        }
    }
}

impl Clone for Dialog {
    fn clone(&self) -> (copy: Self)
        ensures
            copy@ == self@,
    {
        match self {
            Dialog::Closed => Dialog::Closed,
            Dialog::ConfirmQuit => Dialog::ConfirmQuit,
            Dialog::ConfirmCloseWorker(idx) => Dialog::ConfirmCloseWorker(*idx),
            Dialog::SaveSession(input) => Dialog::SaveSession(copy_text(input)),
        }
    }
}

impl Dialog {
    /// Whether a dialog is shown.
    pub fn is_open(&self) -> (r: bool)
        ensures
            r == !(self@ is Closed),
    {
        match self {
            Dialog::Closed => false,
            _ => true,
        }
    }
}

} // verus!
