//! Output of the programs in the panes.

use vstd::prelude::*;

verus! {

/// What a program in a pane did.
pub enum PtyEvent {
    Output(Vec<u8>),
    Exited,
}

/// What a program did, with its output as a sequence.
pub enum PtyEventView {
    Output(Seq<u8>),
    Exited,
}

impl View for PtyEvent {
    type V = PtyEventView;

    open spec fn view(&self) -> PtyEventView {
        match *self {
            PtyEvent::Output(data) => PtyEventView::Output(data@),
            PtyEvent::Exited => PtyEventView::Exited,
        }
    }
}

/// What a read means: `None` for one that failed, else the bytes that it brought. A read that
/// fails or brings nothing is the end.
pub open spec fn read_means(bytes: Option<Seq<u8>>) -> PtyEventView {
    match bytes {
        Some(data) => if data.len() == 0 {
            PtyEventView::Exited
        } else {
            PtyEventView::Output(data)
        },
        None => PtyEventView::Exited,
    }
}

/// What a read of `n` bytes into `buf` means; `None` stands for a read that failed.
pub fn read_event(n: Option<usize>, buf: &[u8]) -> (event: PtyEvent)
    requires
        n matches Some(k) ==> k <= buf.len(),
    ensures
        event@ == read_means(
            match n {
                Some(k) => Some(buf@.take(k as int)),
                None => None,
            },
        ),
{
    match n {
        None => PtyEvent::Exited,
        Some(k) => {
            if k == 0 {
                return PtyEvent::Exited;
            }
            let mut data: Vec<u8> = Vec::new();
            let mut i: usize = 0;
            while i < k
                invariant
                    i <= k <= buf.len(),
                    data@ == buf@.take(i as int),
                decreases k - i,
            {
                data.push(buf[i]);
                i = i + 1;
                assert(data@ =~= buf@.take(i as int));
            }
            PtyEvent::Output(data)
        },
    }
}

} // verus!
