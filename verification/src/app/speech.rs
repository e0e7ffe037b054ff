//! Spoken commands: their way to the orchestrator for correction, and on to a pane.

use crate::app::machine;
use crate::app::machine::{
    line_bytes, no_actions, one_action, push_action, push_all, Action, App, CorrectionState,
};
use crate::correction;
use crate::correction::{format_correction_prompt, heuristic_extract_correction};
use crate::pane::extract;
use crate::pane::{Pane, PaneStatus};
use crate::route;
use crate::route::parse_worker_route;
use crate::session::WorkerInfo;
use crate::text;
use crate::text::{copy_opt, copy_text};
use crate::ui::render;
use crate::ui::render::is_pane_blocked;
use crate::ui::ActivePane;
use crate::voice::{VoiceEvent, VoiceState};
use vstd::prelude::*;

verus! {

/// What a text names, with its content as a sequence.
pub open spec fn target_of(target: Option<(usize, String)>) -> Option<(nat, Seq<char>)> {
    match target {
        Some((idx, content)) => Some((idx as nat, content@)),
        None => None,
    }
}

/// The corrected command on a screen: between the markers, else a line that looks like it, else
/// the command as it was spoken.
fn corrected_text(pane: &Pane, raw: &str) -> (r: String)
    requires
        pane.grid@.wf(),
    ensures
        r@ == correction::corrected(extract::screen_text(pane.grid@.cells), raw@),
{
    match pane.grid.extract_between_markers("[CDC_CORRECT]", "[/CDC_CORRECT]") {
        Some(s) => s,
        None => {
            let all = pane.grid.extract_all_text();
            match heuristic_extract_correction(all.as_str(), raw) {
                Some(s) => s,
                None => raw.to_owned(),
            }
        },
    }
}

impl App {
    /// Sends a text to the worker that it names, else to the orchestrator. `target` is what the
    /// text names.
    pub fn deliver(&self, said: &str, target: Option<(usize, String)>) -> (actions: Vec<Action>)
        ensures
            machine::actions_of(actions@) == self@.delivered(said@, target_of(target)),
    {
        match target {
            Some((idx, content)) => {
                if idx < self.workers.len() {
                    let running = match self.workers[idx].pane.status {
                        PaneStatus::Running => true,
                        PaneStatus::Exited(_) => false,
                    };
                    if running {
                        return one_action(
                            Action::Write {
                                pane: ActivePane::Worker(idx),
                                bytes: line_bytes(content.as_str()),
                            },
                        );
                    }
                }
                no_actions()
            },
            None => one_action(
                Action::Write { pane: ActivePane::Orchestrator, bytes: line_bytes(said) },
            ),
        }
    }

    /// Route text to worker (if pattern matches) or orchestrator.
    pub fn route_text(&self, said: &str) -> (actions: Vec<Action>)
        ensures
            machine::actions_of(actions@) == self@.routed(said@),
            route::all_simple(text::trim(said@)) ==> machine::actions_of(actions@)
                == self@.delivered(
                said@,
                route::route(said@, route::simple_lowered(text::trim(said@))),
            ),
    {
        let target = parse_worker_route(said);
        proof {
            assert(target_of(target) == route::route(said@, route::lowered(text::trim(said@))));
        }
        self.deliver(said, target)
    }

    /// Takes in a spoken text.
    fn on_transcribed(&mut self, said: String, now: u64, timeout_ms: u64) -> (actions: Vec<Action>)
        requires
            old(self).wf(),
        ensures
            final(self).wf(),
            (final(self)@, machine::actions_of(actions@)) == old(self)@.transcribed(
                said@,
                now,
                timeout_ms,
                render::needs_permission(old(self).orchestrator.pane),
            ),
    {
        let mut actions = match &self.correction_state {
            CorrectionState::WaitingForResponse { raw_text, hard_ceiling } => self.route_text(
                raw_text.as_str(),
            ),
            CorrectionState::Idle => no_actions(),
        };
        let blocked = is_pane_blocked(&self.orchestrator.pane);
        let running = match self.orchestrator.pane.status {
            PaneStatus::Running => true,
            PaneStatus::Exited(_) => false,
        };
        if running && !blocked {
            let prompt = format_correction_prompt(said.as_str());
            let ghost before = machine::actions_of(actions@);
            push_action(
                &mut actions,
                Action::Write {
                    pane: ActivePane::Orchestrator,
                    bytes: line_bytes(prompt.as_str()),
                },
            );
            assert(machine::actions_of(actions@) =~= before + seq![
                machine::actions_of(actions@).last(),
            ]);
            let hard_ceiling = if timeout_ms <= u64::MAX - now {
                now + timeout_ms
            } else {
                u64::MAX
            };
            self.correction_state = CorrectionState::WaitingForResponse {
                raw_text: said,
                hard_ceiling,
            };
        } else {
            push_all(&mut actions, self.route_text(said.as_str()));
            self.correction_state = CorrectionState::Idle;
        }
        self.voice_state = VoiceState::Idle;
        actions
    }

    /// Takes in an event of voice input.
    pub fn on_voice(&mut self, event: VoiceEvent, now: u64, timeout_ms: u64) -> (actions: Vec<
        Action,
    >)
        requires
            old(self).wf(),
        ensures
            final(self).wf(),
            (final(self)@, machine::actions_of(actions@)) == old(self)@.voice_event(
                event@,
                now,
                timeout_ms,
                render::needs_permission(old(self).orchestrator.pane),
            ),
    {
        match event {
            VoiceEvent::Transcribed(said) => self.on_transcribed(said, now, timeout_ms),
            VoiceEvent::StateChanged(state) => {
                self.voice_state = state;
                no_actions()
            },
            VoiceEvent::DownloadProgress(dl, total) => {
                self.voice_state = VoiceState::Downloading(dl, total);
                no_actions()
            },
            VoiceEvent::Error(msg) => {
                self.voice_state = VoiceState::Error(msg);
                no_actions()
            },
        }
    }

    /// Sends the corrected command on, if the wait for it is over.
    pub fn check_correction(&mut self, now: u64, quiescence_ms: u64) -> (actions: Vec<Action>)
        requires
            old(self).wf(),
        ensures
            final(self).wf(),
            (final(self)@, machine::actions_of(actions@)) == old(self)@.correction_checked(
                now,
                quiescence_ms,
            ),
    {
        let raw = match &self.correction_state {
            CorrectionState::Idle => {
                return no_actions();
            },
            CorrectionState::WaitingForResponse { raw_text, hard_ceiling } => {
                let quiescent = match self.orchestrator.last_output_time {
                    Some(t) => now >= t && now - t > quiescence_ms,
                    None => false,
                };
                if !quiescent && now < *hard_ceiling {
                    return no_actions();
                }
                copy_text(raw_text)
            },
        };
        let corrected = corrected_text(&self.orchestrator.pane, raw.as_str());
        let actions = self.route_text(corrected.as_str());
        self.correction_state = CorrectionState::Idle;
        actions
    }

    /// Whether a correction is awaited.
    pub fn correcting(&self) -> (r: bool)
        ensures
            r == !(self@.correction is Idle),
    {
        match &self.correction_state {
            CorrectionState::Idle => false,
            CorrectionState::WaitingForResponse { raw_text, hard_ceiling } => true,
        }
    }

    /// The workers as they are saved in a session.
    pub fn worker_infos(&self) -> (infos: Vec<WorkerInfo>)
        ensures
            infos.len() == self.workers.len(),
            forall|i: int|
                0 <= i < infos.len() ==> (#[trigger] infos@[i]).name@ == self@.workers[i].name
                    && text::opt_text(infos@[i].cwd) == self@.workers[i].cwd,
    {
        let mut infos: Vec<WorkerInfo> = Vec::new();
        let mut i: usize = 0;
        while i < self.workers.len()
            invariant
                i <= self.workers.len(),
                infos.len() == i,
                forall|k: int|
                    0 <= k < i ==> (#[trigger] infos@[k]).name@ == self@.workers[k].name
                        && text::opt_text(infos@[k].cwd) == self@.workers[k].cwd,
            decreases self.workers.len() - i,
        {
            let w = &self.workers[i];
            let info = WorkerInfo { name: copy_text(&w.pane.name), cwd: copy_opt(&w.cwd) };
            infos.push(info);
            i = i + 1;
        }
        infos
    }
}

} // verus!
