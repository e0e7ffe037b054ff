//! A pane: a program's screen and the parser of its output.

pub mod control_laws;
pub mod dump;
pub mod extract;
pub mod extract_laws;
pub mod grid;
pub mod laws;
pub mod state;

pub use grid::TerminalGrid;

use crate::vt;
use crate::vt::{parser_advance, parser_new, VtActionView};
use state::GridState;
use vstd::prelude::*;

verus! {

/// A program's screen with the parser of its output.
pub struct Pane {
    pub id: u32,
    pub name: String,
    pub grid: TerminalGrid,
    pub parser: vte::Parser,
    pub status: PaneStatus,
}

/// Whether the program of a pane runs.
#[derive(Debug, Clone, Copy, PartialEq, Eq, Structural)]
pub enum PaneStatus {
    Running,
    Exited(i32),
}

/// The actions that plain bytes stand for.
pub open spec fn plain_actions(bytes: Seq<u8>) -> Seq<VtActionView> {
    Seq::new(bytes.len(), |i: int| vt::plain_action(bytes[i]))
}

/// Actions applied one batch after the other are those of both batches applied.
pub proof fn applied_in_parts(s: GridState, a: Seq<VtActionView>, b: Seq<VtActionView>)
    ensures
        s.applied_all(a + b) == s.applied_all(a).applied_all(b),
    decreases b.len(),
{
    if b.len() == 0 {
        assert(a + b =~= a);
    } else {
        applied_in_parts(s, a, b.drop_last());
        assert((a + b).drop_last() =~= a + b.drop_last());
    }
}

impl Pane {
    /// A pane with a blank screen and a program that runs.
    pub fn new(id: u32, name: String, cols: u16, rows: u16) -> (pane: Self)
        ensures
            pane.id == id,
            pane.name == name,
            pane.grid@ == GridState::fresh(cols, rows),
            pane.grid@.wf(),
            vt::bytes_fed(pane.parser) == Seq::<u8>::empty(),
            pane.status == PaneStatus::Running,
    {
        Pane {
            id,
            name,
            grid: TerminalGrid::new(cols, rows),
            parser: parser_new(),
            status: PaneStatus::Running,
        }
    }

    /// Takes in output of the program.
    pub fn process_bytes(&mut self, bytes: &[u8])
        requires
            old(self).grid@.wf(),
        ensures
            final(self).grid@ == old(self).grid@.applied_all(
                vt::vt_actions_all(vt::bytes_fed(old(self).parser), bytes@),
            ),
            final(self).grid@.wf(),
            vt::bytes_fed(final(self).parser) == vt::bytes_fed(old(self).parser) + bytes@,
            vt::all_plain(vt::bytes_fed(old(self).parser)) && vt::all_plain(bytes@) ==> final(self).grid@
                == old(self).grid@.applied_all(plain_actions(bytes@)),
            final(self).id == old(self).id,
            final(self).name == old(self).name,
            final(self).status == old(self).status,
    {
        let ghost fed = vt::bytes_fed(self.parser);
        let mut i: usize = 0;
        assert(fed + bytes@.take(0) =~= fed);
        assert(plain_actions(bytes@.take(0)) =~= Seq::empty());
        while i < bytes.len()
            invariant
                i <= bytes@.len(),
                fed == vt::bytes_fed(old(self).parser),
                vt::bytes_fed(self.parser) == fed + bytes@.take(i as int),
                self.grid@.wf(),
                self.grid@ == old(self).grid@.applied_all(
                    vt::vt_actions_all(fed, bytes@.take(i as int)),
                ),
                vt::all_plain(fed) && vt::all_plain(bytes@) ==> self.grid@
                    == old(self).grid@.applied_all(plain_actions(bytes@.take(i as int))),
                self.id == old(self).id,
                self.name == old(self).name,
                self.status == old(self).status,
            decreases bytes@.len() - i,
        {
            let ghost before = bytes@.take(i as int);
            let ghost grid = self.grid@;
            let actions = parser_advance(&mut self.parser, bytes[i]);
            self.grid.apply_actions(&actions);
            proof {
                let views = vt::action_views(actions@);
                assert(bytes@.take(i + 1).drop_last() =~= before);
                assert(bytes@.take(i + 1).last() == bytes@[i as int]);
                applied_in_parts(old(self).grid@, vt::vt_actions_all(fed, before), views);
                assert(fed + bytes@.take(i + 1) =~= (fed + before).push(bytes@[i as int]));
                if vt::all_plain(fed) && vt::all_plain(bytes@) {
                    assert(vt::all_plain(fed + before));
                    assert(views == seq![vt::plain_action(bytes@[i as int])]);
                    applied_in_parts(old(self).grid@, plain_actions(before), views);
                    assert(plain_actions(bytes@.take(i + 1)) =~= plain_actions(before) + views);
                }
            }
            i = i + 1;
        }
        assert(bytes@.take(bytes@.len() as int) =~= bytes@);
    }

    /// Gives the screen another size.
    pub fn resize(&mut self, cols: u16, rows: u16)
        requires
            old(self).grid@.wf(),
        ensures
            final(self).grid@ == old(self).grid@.resized(cols, rows),
            final(self).grid@.wf(),
            final(self).id == old(self).id,
            final(self).name == old(self).name,
            final(self).parser == old(self).parser,
            final(self).status == old(self).status,
    {
        self.grid.resize(cols, rows);
    }
}

} // verus!
