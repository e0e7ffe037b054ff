//! A pane with what the application knows of its program.

use crate::app::state::ManagedView;
use crate::pane::{Pane, PaneStatus};
use crate::pty::PtyEvent;
use crate::text;
use crate::vt;
use vstd::prelude::*;

verus! {

/// A pane, the directory of its program, and when its program last wrote something.
pub struct ManagedPane {
    pub pane: Pane,
    pub cwd: Option<String>,
    /// In milliseconds.
    pub last_output_time: Option<u64>,
}

impl View for ManagedPane {
    type V = ManagedView;

    open spec fn view(&self) -> ManagedView {
        ManagedView {
            id: self.pane.id,
            name: self.pane.name@,
            grid: self.pane.grid@,
            fed: vt::bytes_fed(self.pane.parser),
            status: self.pane.status,
            cwd: text::opt_text(self.cwd),
            last_output: self.last_output_time,
        }
    }
}

impl ManagedPane {
    /// A pane whose program was just started.
    pub fn spawn(id: u32, name: String, cols: u16, rows: u16, cwd: Option<String>) -> (p: Self)
        ensures
            p@ == ManagedView::started(id, name@, cols, rows, text::opt_text(cwd)),
            p@.grid.wf(),
    {
        ManagedPane { pane: Pane::new(id, name, cols, rows), cwd, last_output_time: None }
    }

    /// Takes in what the program did. `exit_code` is its exit code, if it is known.
    pub fn drain_output(&mut self, event: &PtyEvent, now: u64, exit_code: Option<i32>)
        requires
            old(self)@.grid.wf(),
        ensures
            final(self)@ == old(self)@.after(event@, now, exit_code),
            final(self)@.grid.wf(),
    {
        match event {
            PtyEvent::Output(data) => {
                self.pane.process_bytes(data.as_slice());
                self.last_output_time = Some(now);
            },
            PtyEvent::Exited => {
                let code = match exit_code {
                    Some(c) => c,
                    None => 0,
                };
                self.pane.status = PaneStatus::Exited(code);
            },
        }
    }

    /// Takes the answers that are to be sent to the program.
    pub fn flush_responses(&mut self) -> (bytes: Vec<u8>)
        requires
            old(self)@.grid.wf(),
        ensures
            bytes@ == old(self)@.grid.response,
            final(self)@ == old(self)@.answered(),
            final(self)@.grid.wf(),
    {
        let mut bytes: Vec<u8> = Vec::new();
        bytes.append(&mut self.pane.grid.response_buf);
        assert(bytes@ =~= old(self)@.grid.response);
        assert(self@.grid =~= old(self)@.answered().grid);
        bytes
    }

    /// Gives the screen another size.
    pub fn resize(&mut self, cols: u16, rows: u16)
        requires
            old(self)@.grid.wf(),
        ensures
            final(self)@ == old(self)@.resized(cols, rows),
            final(self)@.grid.wf(),
    {
        self.pane.resize(cols, rows);
    }

    /// Moves the view by half a page.
    pub fn page(&mut self, up: bool)
        requires
            old(self)@.grid.wf(),
        ensures
            final(self)@ == (ManagedView {
                grid: if up {
                    old(self)@.grid.view_moved_up(old(self)@.half_page())
                } else {
                    old(self)@.grid.view_moved_down(old(self)@.half_page())
                },
                ..old(self)@
            }),
            final(self)@.grid.wf(),
    {
        let half: u16 = self.pane.grid.rows / 2;
        let lines: usize = if half < 1 {
            1
        } else {
            half as usize
        };
        if up {
            self.pane.grid.scroll_view_up(lines);
        } else {
            self.pane.grid.scroll_view_down(lines);
        }
    }
}

} // verus!
