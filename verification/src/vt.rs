//! The actions that an escape sequence parser finds in the output of a program.

use crate::text;
use vstd::prelude::*;

verus! {

/// The outside parser; what it holds is `bytes_fed`.
#[verifier::external_type_specification]
#[verifier::external_body]
pub struct ExParser<const OSC_RAW_BUF_SIZE: usize>(vte::Parser<OSC_RAW_BUF_SIZE>);

/// The outside parameter list; what it holds is `param_groups`.
#[verifier::external_type_specification]
#[verifier::external_body]
pub struct ExParams(vte::Params);

/// One action of the parser.
pub enum VtAction {
    Print(char),
    Execute(u8),
    Csi { params: Vec<Vec<u16>>, intermediates: Vec<u8>, ignore: bool, action: char },
    Esc { intermediates: Vec<u8>, ignore: bool, byte: u8 },
    Osc { strings: Vec<Vec<u8>>, bell_terminated: bool },
    Hook { params: Vec<Vec<u16>>, intermediates: Vec<u8>, ignore: bool, action: char },
    Put(u8),
    Unhook,
}

/// An action as a mathematical value.
#[verifier::ext_equal]
pub enum VtActionView {
    Print(char),
    Execute(u8),
    Csi { params: Seq<Seq<u16>>, intermediates: Seq<u8>, ignore: bool, action: char },
    Esc { intermediates: Seq<u8>, ignore: bool, byte: u8 },
    Osc { strings: Seq<Seq<u8>>, bell_terminated: bool },
    Hook { params: Seq<Seq<u16>>, intermediates: Seq<u8>, ignore: bool, action: char },
    Put(u8),
    Unhook,
}

impl View for VtAction {
    type V = VtActionView;

    open spec fn view(&self) -> VtActionView {
        match *self {
            VtAction::Print(c) => VtActionView::Print(c),
            VtAction::Execute(byte) => VtActionView::Execute(byte),
            VtAction::Csi { params, intermediates, ignore, action } => VtActionView::Csi {
                params: text::nested(params@),
                intermediates: intermediates@,
                ignore,
                action,
            },
            VtAction::Esc { intermediates, ignore, byte } => VtActionView::Esc {
                intermediates: intermediates@,
                ignore,
                byte,
            },
            VtAction::Osc { strings, bell_terminated } => VtActionView::Osc {
                strings: text::nested(strings@),
                bell_terminated,
            },
            VtAction::Hook { params, intermediates, ignore, action } => VtActionView::Hook {
                params: text::nested(params@),
                intermediates: intermediates@,
                ignore,
                action,
            },
            VtAction::Put(byte) => VtActionView::Put(byte),
            VtAction::Unhook => VtActionView::Unhook,
        }
    }
}

/// The actions of a vector as mathematical values.
pub open spec fn action_views(v: Seq<VtAction>) -> Seq<VtActionView> {
    Seq::new(v.len(), |i: int| v[i]@)
}

/// The bytes that a parser has been given since it was made.
pub uninterp spec fn bytes_fed(parser: vte::Parser) -> Seq<u8>;

/// The actions that a parser takes on `byte` after it was given the bytes `fed`.
pub uninterp spec fn vt_actions(fed: Seq<u8>, byte: u8) -> Seq<VtActionView>;

/// The parameters of a sequence, each with its sub-parameters.
pub uninterp spec fn param_groups(params: vte::Params) -> Seq<Seq<u16>>;

/// The actions that a parser takes on `bytes`, one byte after the other, after it was given
/// the bytes `fed`.
pub open spec fn vt_actions_all(fed: Seq<u8>, bytes: Seq<u8>) -> Seq<VtActionView>
    decreases bytes.len(),
{
    if bytes.len() == 0 {
        Seq::empty()
    } else {
        vt_actions_all(fed, bytes.drop_last()) + vt_actions(
            fed + bytes.drop_last(),
            bytes.last(),
        )
    }
}

/// A byte that is text or a control character by itself, and begins no sequence.
pub open spec fn is_plain(byte: u8) -> bool {
    byte < 0x80 && byte != 0x1b
}

/// Bytes without escape sequences and without characters beyond ASCII.
pub open spec fn all_plain(bytes: Seq<u8>) -> bool {
    forall|i: int| 0 <= i < bytes.len() ==> is_plain(#[trigger] bytes[i])
}

/// The one action that a plain byte stands for.
pub open spec fn plain_action(byte: u8) -> VtActionView {
    if byte < 0x20 {
        VtActionView::Execute(byte)
    } else {
        VtActionView::Print(byte as char)
    }
}

/// Collects the values that `Params::iter` of `vte` hands out: the parameters in order, each
/// with its sub-parameters.
#[verifier::external_body]
fn groups_of(params: &vte::Params) -> (groups: Vec<Vec<u16>>)
    ensures
        text::nested(groups@) == param_groups(*params),
{
    params.iter().map(|group| group.to_vec()).collect()
}

/// Copies of the strings of an operating system command.
fn strings_of(params: &[&[u8]]) -> (strings: Vec<Vec<u8>>)
    ensures
        text::nested(strings@) == Seq::new(params@.len(), |i: int| params@[i]@),
{
    let mut strings: Vec<Vec<u8>> = Vec::new();
    let mut i: usize = 0;
    while i < params.len()
        invariant
            i <= params@.len(),
            strings@.len() == i,
            forall|j: int| 0 <= j < i ==> (#[trigger] strings@[j])@ == params@[j]@,
        decreases params@.len() - i,
    {
        strings.push(vstd::slice::slice_to_vec(params[i]));
        i = i + 1;
    }
    assert(text::nested(strings@) =~= Seq::new(params@.len(), |i: int| params@[i]@));
    strings
}

/// Takes down the actions of the parser in the order in which it calls for them.
pub struct ActionLog {
    pub log: Vec<VtAction>,
}

impl ActionLog {
    /// The log has grown by one action.
    pub open spec fn grown(self, before: ActionLog, action: VtActionView) -> bool {
        action_views(self.log@) == action_views(before.log@).push(action)
    }

    fn note(&mut self, action: VtAction)
        ensures
            final(self).grown(*old(self), action@),
    {
        self.log.push(action);
        assert(action_views(self.log@) =~= action_views(old(self).log@).push(action@));
    }
}

impl vte::Perform for ActionLog {
    fn print(&mut self, c: char)
        ensures
            final(self).grown(*old(self), VtActionView::Print(c)),
    {
        self.note(VtAction::Print(c));
    }

    fn execute(&mut self, byte: u8)
        ensures
            final(self).grown(*old(self), VtActionView::Execute(byte)),
    {
        self.note(VtAction::Execute(byte));
    }

    fn hook(&mut self, params: &vte::Params, intermediates: &[u8], ignore: bool, action: char)
        ensures
            final(self).grown(
                *old(self),
                VtActionView::Hook {
                    params: param_groups(*params),
                    intermediates: intermediates@,
                    ignore,
                    action,
                },
            ),
    {
        self.note(
            VtAction::Hook {
                params: groups_of(params),
                intermediates: vstd::slice::slice_to_vec(intermediates),
                ignore,
                action,
            },
        );
    }

    fn put(&mut self, byte: u8)
        ensures
            final(self).grown(*old(self), VtActionView::Put(byte)),
    {
        self.note(VtAction::Put(byte));
    }

    fn unhook(&mut self)
        ensures
            final(self).grown(*old(self), VtActionView::Unhook),
    {
        self.note(VtAction::Unhook);
    }

    fn osc_dispatch(&mut self, params: &[&[u8]], bell_terminated: bool)
        ensures
            final(self).grown(
                *old(self),
                VtActionView::Osc {
                    strings: Seq::new(params@.len(), |i: int| params@[i]@),
                    bell_terminated,
                },
            ),
    {
        self.note(VtAction::Osc { strings: strings_of(params), bell_terminated });
    }

    fn csi_dispatch(
        &mut self,
        params: &vte::Params,
        intermediates: &[u8],
        ignore: bool,
        action: char,
    )
        ensures
            final(self).grown(
                *old(self),
                VtActionView::Csi {
                    params: param_groups(*params),
                    intermediates: intermediates@,
                    ignore,
                    action,
                },
            ),
    {
        self.note(
            VtAction::Csi {
                params: groups_of(params),
                intermediates: vstd::slice::slice_to_vec(intermediates),
                ignore,
                action,
            },
        );
    }

    fn esc_dispatch(&mut self, intermediates: &[u8], ignore: bool, byte: u8)
        ensures
            final(self).grown(
                *old(self),
                VtActionView::Esc { intermediates: intermediates@, ignore, byte },
            ),
    {
        self.note(
            VtAction::Esc {
                intermediates: vstd::slice::slice_to_vec(intermediates),
                ignore,
                byte,
            },
        );
    }
}

/// Calls `Parser::new` of `vte`: a parser that has been given nothing yet.
#[verifier::external_body]
pub(crate) fn parser_new() -> (parser: vte::Parser)
    ensures
        bytes_fed(parser) == Seq::<u8>::empty(),
{
    vte::Parser::new()
}

/// Calls `Parser::advance` of `vte` with a log. The parser keeps no state but what the bytes
/// given to it left there, so the actions are those that belong to these bytes. In its ground
/// state, which plain bytes never leave, a plain byte is printed or executed.
#[verifier::external_body]
pub(crate) fn parser_advance(parser: &mut vte::Parser, byte: u8) -> (actions: Vec<VtAction>)
    ensures
        bytes_fed(*final(parser)) == bytes_fed(*old(parser)).push(byte),
        action_views(actions@) == vt_actions(bytes_fed(*old(parser)), byte),
        all_plain(bytes_fed(*old(parser))) && is_plain(byte) ==> action_views(actions@) == seq![
            plain_action(byte),
        ],
{
    let mut log = ActionLog { log: Vec::new() };
    parser.advance(&mut log, byte);
    log.log
}

/// Output that comes in parts means what it means at once.
pub proof fn output_in_parts(fed: Seq<u8>, a: Seq<u8>, b: Seq<u8>)
    ensures
        vt_actions_all(fed, a + b) == vt_actions_all(fed, a) + vt_actions_all(fed + a, b),
        a.len() == 1 ==> vt_actions_all(fed, a) == vt_actions(fed, a[0]),
    decreases b.len(),
{
    if a.len() == 1 {
        assert(a.drop_last() =~= Seq::empty());
        assert(fed + a.drop_last() =~= fed);
        assert(vt_actions_all(fed, a.drop_last()) =~= Seq::empty());
        assert(vt_actions_all(fed, a) =~= vt_actions(fed, a[0]));
    }
    if b.len() == 0 {
        assert(a + b =~= a);
        assert(vt_actions_all(fed, a + b) =~= vt_actions_all(fed, a) + vt_actions_all(fed + a, b));
    } else {
        output_in_parts(fed, a, b.drop_last());
        assert((a + b).drop_last() =~= a + b.drop_last());
        assert(fed + (a + b.drop_last()) =~= fed + a + b.drop_last());
        assert(vt_actions_all(fed, a + b) =~= vt_actions_all(fed, a) + vt_actions_all(fed + a, b));
    }
}

/// Printable bytes print themselves, and control characters but escape are executed.
pub proof fn plain_bytes_mean_themselves(byte: u8)
    ensures
        is_plain(byte) <==> byte < 128 && byte != 27,
        32 <= byte < 128 ==> plain_action(byte) == VtActionView::Print(byte as char),
        byte < 32 ==> plain_action(byte) == VtActionView::Execute(byte),
{
}

} // verus!
