use vstd::prelude::*;
use crate::dialog::{file_action, input_action, menu_action, Dialog, Step, Subdialog, UiAction};
use crate::input::{input_step, EventEffect, EventQueue, InputEvent, InputState};

verus! {

/// The exit code when the window is closed.
pub const QUIT_CODE: i32 = 0;

/// The exit code of an aborted dialog.
pub const ABORT_CODE: i32 = 1;

/// The state of one run of a dialog: the dialog itself, the events not yet
/// applied, the input that the interface sees, and the exit code once decided.
pub struct Session {
    pub dialog: Dialog,
    pub queue: EventQueue,
    pub input: InputState,
    pub exit_code: Option<i32>,
}

/// The exit code that a step decides, if it decides one.
pub open spec fn step_exit(r: Step) -> Option<i32> {
    match r {
        Step::Resolved(o) => Some(o.spec_code()),
        _ => None,
    }
}

/// The exit code that an event decides, if it decides one.
pub open spec fn effect_exit(e: EventEffect) -> Option<i32> {
    match e {
        EventEffect::Continue => None,
        EventEffect::Quit => Some(QUIT_CODE),
        EventEffect::Abort => Some(ABORT_CODE),
    }
}

impl Session {
    pub open spec fn wf(&self) -> bool {
        self.dialog.wf() && self.input.wf()
    }

    /// A run of `dialog`, with nothing queued and nothing decided.
    pub fn new(dialog: Dialog) -> (r: Session)
        requires
            dialog.wf(),
        ensures
            r.wf(),
            r.dialog == dialog,
            r.queue.events@.len() == 0,
            r.exit_code is None,
    {
        Session { dialog, queue: EventQueue::new(), input: InputState::new(), exit_code: None }
    }

    /// Applies the outcome of one pass of the interface to the dialog. Once the
    /// exit code is decided, nothing changes any more.
    pub fn ui_pass(&mut self, action: UiAction) -> (r: Step)
        requires
            old(self).wf(),
        ensures
            final(self).wf(),
            final(self).queue == old(self).queue,
            final(self).input == old(self).input,
            old(self).exit_code is Some ==> *final(self) == *old(self) && r is Continue,
            old(self).exit_code is None ==> {
                &&& final(self).exit_code == step_exit(r)
                &&& final(self).dialog.width == old(self).dialog.width
                &&& final(self).dialog.height == old(self).dialog.height
                &&& match old(self).dialog.subdialog {
                    Subdialog::File(f) => final(self).dialog.subdialog matches Subdialog::File(g)
                        && file_action(f, action, g, r),
                    Subdialog::Input(d) => final(self).dialog.subdialog matches Subdialog::Input(e)
                        && input_action(d, action, e, r),
                    Subdialog::Menu(m) => final(self).dialog.subdialog matches Subdialog::Menu(n)
                        && menu_action(m, action, n, r),
                }
            },
    {
        if self.exit_code.is_some() {
            return Step::Continue;
        }
        let r = self.dialog.apply(action);
        if let Step::Resolved(o) = &r {
            self.exit_code = Some(o.code());
        }
        r
    }

    /// Queues an event that arrived.
    pub fn push_event(&mut self, event: InputEvent)
        ensures
            final(self).queue.events@ == old(self).queue.events@.push(event),
            final(self).dialog == old(self).dialog,
            final(self).input == old(self).input,
            final(self).exit_code == old(self).exit_code,
    {
        self.queue.push(event);
    }

    /// Whether the session must wait for an event: only when none is queued.
    pub fn needs_wait(&self) -> (r: bool)
        ensures
            r == (self.queue.events@.len() == 0),
    {
        self.queue.needs_wait()
    }

    /// Applies the oldest queued event, and that one only, to the input. A quit event decides
    /// exit code 0, the abort key exit code 1. Once the exit code is decided,
    /// nothing changes any more.
    pub fn apply_next_event(&mut self) -> (r: Option<EventEffect>)
        requires
            old(self).wf(),
        ensures
            final(self).wf(),
            final(self).dialog == old(self).dialog,
            old(self).exit_code is Some || old(self).queue.events@.len() == 0
                ==> *final(self) == *old(self) && r is None,
            old(self).exit_code is None && old(self).queue.events@.len() > 0 ==> {
                &&& r is Some
                &&& final(self).queue.events@ == old(self).queue.events@.drop_first()
                &&& input_step(old(self).input, old(self).queue.events@[0], final(self).input, r->0)
                &&& final(self).exit_code == effect_exit(r->0)
            },
    {
        if self.exit_code.is_some() || self.queue.events.len() == 0 {
            return None;
        }
        match self.queue.pop_front() {
            Some(event) => {
                let effect = self.input.apply_event(event);
                match effect {
                    EventEffect::Continue => {},
                    EventEffect::Quit => self.exit_code = Some(QUIT_CODE),
                    EventEffect::Abort => self.exit_code = Some(ABORT_CODE),
                }
                Some(effect)
            },
            None => None,
        }
    }
}

} // verus!
