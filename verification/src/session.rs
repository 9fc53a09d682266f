//! Handing the terminal to the playback program and taking it back. The
//! work on signals, process groups and the child is done by the caller; this
//! module decides, step by step, what is to be done next, so that whatever
//! fails, what was changed is put back before the session ends.
use vstd::prelude::*;

verus! {

/// How the child ended.
#[derive(Debug, Clone, Copy, PartialEq, Eq, Structural)]
pub struct Exit {
    pub success: bool,
    pub code: Option<i32>,
}

/// Why a session failed.
#[derive(Debug, Clone, Copy, PartialEq, Eq, Structural)]
pub enum SessionError {
    /// The handling of a signal could not be changed.
    SignalSetup,
    /// The terminal's foreground process group could not be told.
    ForegroundQuery,
    /// The child could not be started.
    Spawn,
    /// Waiting for the child failed.
    Wait,
}

/// How a session ended.
#[derive(Debug, Clone, Copy, PartialEq, Eq, Structural)]
pub enum Outcome {
    Exited(Exit),
    Failed(SessionError),
}

/// What the caller is to do next.
#[derive(Debug, Clone, Copy, PartialEq, Eq, Structural)]
pub enum Action {
    /// Ignore the interrupt signal, and remember how it was handled.
    IgnoreInterrupt,
    /// Ask for the terminal's foreground process group.
    QueryForeground,
    /// Ignore the stop signal for background writes, and remember how it
    /// was handled.
    IgnoreStop,
    /// Start the child. With `own_group` it is to restore the default
    /// handling of interrupt, quit and terminal stop and to become the head
    /// of a new process group before it runs.
    Spawn { own_group: bool },
    /// Make the child's group the terminal's foreground group.
    GiveTerminal { child: i32 },
    /// Wait for the child to end.
    Wait,
    /// Make this group the terminal's foreground group again.
    TakeTerminalBack { group: i32 },
    /// Handle the stop signal as before.
    RestoreStop,
    /// Handle the interrupt signal as before.
    RestoreInterrupt,
    /// The session is over.
    Finish(Outcome),
}

/// What came of the action done last.
#[derive(Debug, Clone, Copy, PartialEq, Eq, Structural)]
pub enum Event {
    /// Nothing was done yet.
    Begin,
    /// A change of signal handling or of the foreground group was tried.
    Changed { ok: bool },
    /// The foreground group was asked for.
    Foreground { group: Option<i32> },
    /// The child was to be started; its process id where it was.
    Spawned { child: Option<i32> },
    /// The child was waited for; how it ended where that is known.
    Waited { exit: Option<Exit> },
}

/// Where a session stands: which action is under way.
#[derive(Debug, Clone, Copy, PartialEq, Eq, Structural)]
pub enum Phase {
    Start,
    IgnoringInterrupt,
    QueryingForeground,
    IgnoringStop,
    Spawning,
    GivingTerminal,
    Waiting,
    TakingTerminalBack,
    RestoringStop,
    RestoringInterrupt,
    Finished,
}

/// A session: where it stands, what it has changed and not yet put back,
/// and how it will end once that is known.
#[derive(Debug, Clone, Copy, PartialEq, Eq, Structural)]
pub struct Session {
    pub job_control: bool,
    pub phase: Phase,
    pub interrupt_ignored: bool,
    pub stop_ignored: bool,
    pub parent_group: Option<i32>,
    pub terminal_given: bool,
    pub outcome: Option<Outcome>,
}

impl Session {
    /// Nothing is changed that would have to be put back.
    pub open spec fn is_clean(self) -> bool {
        !self.interrupt_ignored && !self.stop_ignored && !self.terminal_given
    }

    /// What a session may hold: only a session with job control changes
    /// anything or does more than start the child and wait for it, the
    /// terminal is given away only under an ignored stop
    /// signal and with the parent's group known, the stop signal is ignored
    /// only under an ignored interrupt signal, and a session that is
    /// putting things back or is over knows how it ends.
    pub open spec fn wf(self) -> bool {
        &&& !self.job_control ==> self.is_clean() && (self.phase == Phase::Start || self.phase
            == Phase::Spawning || self.phase == Phase::Waiting || self.phase == Phase::Finished)
        &&& self.terminal_given ==> self.stop_ignored && self.parent_group is Some
        &&& self.stop_ignored ==> self.interrupt_ignored
        &&& self.phase == Phase::Start ==> self.is_clean() && self.outcome is None
        &&& self.phase == Phase::IgnoringInterrupt ==> self.is_clean() && self.outcome is None
        &&& self.phase == Phase::QueryingForeground ==> self.interrupt_ignored
            && !self.stop_ignored && self.outcome is None
        &&& self.phase == Phase::IgnoringStop ==> self.interrupt_ignored && !self.stop_ignored
            && self.parent_group is Some && self.outcome is None
        &&& self.phase == Phase::Spawning ==> !self.terminal_given && self.outcome is None && (
        self.job_control ==> self.stop_ignored && self.parent_group is Some)
        &&& self.phase == Phase::GivingTerminal ==> self.stop_ignored && !self.terminal_given
            && self.parent_group is Some && self.outcome is None
        &&& self.phase == Phase::Waiting ==> self.outcome is None
        &&& self.phase == Phase::TakingTerminalBack ==> self.terminal_given
            && self.outcome is Some
        &&& self.phase == Phase::RestoringStop ==> self.stop_ignored && !self.terminal_given
            && self.outcome is Some
        &&& self.phase == Phase::RestoringInterrupt ==> self.interrupt_ignored
            && !self.stop_ignored && self.outcome is Some
        &&& self.phase == Phase::Finished ==> self.is_clean() && self.outcome is Some
    }

    /// How many steps a session has at most before it is over.
    pub open spec fn steps_left(self) -> nat {
        match self.phase {
            Phase::Start => 10,
            Phase::IgnoringInterrupt => 9,
            Phase::QueryingForeground => 8,
            Phase::IgnoringStop => 7,
            Phase::Spawning => 6,
            Phase::GivingTerminal => 5,
            Phase::Waiting => 4,
            Phase::TakingTerminalBack => 3,
            Phase::RestoringStop => 2,
            Phase::RestoringInterrupt => 1,
            Phase::Finished => 0,
        }
    }
}

/// The session with its end decided, and the first thing to put back; the
/// session is over where nothing is to be put back.
pub open spec fn unwind(s: Session, outcome: Outcome) -> (Session, Action) {
    let s = Session { outcome: Some(outcome), ..s };
    if s.terminal_given && s.parent_group is Some {
        (
            Session { phase: Phase::TakingTerminalBack, ..s },
            Action::TakeTerminalBack { group: s.parent_group->0 },
        )
    } else if s.stop_ignored {
        (Session { phase: Phase::RestoringStop, terminal_given: false, ..s }, Action::RestoreStop)
    } else if s.interrupt_ignored {
        (
            Session { phase: Phase::RestoringInterrupt, terminal_given: false, ..s },
            Action::RestoreInterrupt,
        )
    } else {
        (Session { phase: Phase::Finished, terminal_given: false, ..s }, Action::Finish(outcome))
    }
}

/// The step of a session: from where it stands and what came of the action
/// done last, where it stands next and what is to be done next.
///
/// With job control the order is: ignore the interrupt signal; ask for the
/// foreground group, without which the session fails; ignore the stop
/// signal; start the child in a group of its own; give it the terminal;
/// wait for it. Then, and whenever a step fails, whatever was changed is
/// put back in the opposite order: the terminal is taken back where it was
/// given, the stop signal and the interrupt signal are handled as before.
/// Without job control the child is started and waited for, and nothing
/// else is done. An event that does not answer the action under way ends
/// the session as a failure of that action.
pub open spec fn advance(s: Session, e: Event) -> (Session, Action) {
    match s.phase {
        Phase::Start => if s.job_control {
            (Session { phase: Phase::IgnoringInterrupt, ..s }, Action::IgnoreInterrupt)
        } else {
            (Session { phase: Phase::Spawning, ..s }, Action::Spawn { own_group: false })
        },
        Phase::IgnoringInterrupt => match e {
            Event::Changed { ok: true } => (
                Session { phase: Phase::QueryingForeground, interrupt_ignored: true, ..s },
                Action::QueryForeground,
            ),
            _ => unwind(s, Outcome::Failed(SessionError::SignalSetup)),
        },
        Phase::QueryingForeground => match e {
            Event::Foreground { group: Some(g) } => (
                Session { phase: Phase::IgnoringStop, parent_group: Some(g), ..s },
                Action::IgnoreStop,
            ),
            _ => unwind(s, Outcome::Failed(SessionError::ForegroundQuery)),
        },
        Phase::IgnoringStop => match e {
            Event::Changed { ok: true } => (
                Session { phase: Phase::Spawning, stop_ignored: true, ..s },
                Action::Spawn { own_group: true },
            ),
            _ => unwind(s, Outcome::Failed(SessionError::SignalSetup)),
        },
        Phase::Spawning => match e {
            Event::Spawned { child: Some(c) } => if s.job_control {
                (Session { phase: Phase::GivingTerminal, ..s }, Action::GiveTerminal { child: c })
            } else {
                (Session { phase: Phase::Waiting, ..s }, Action::Wait)
            },
            _ => unwind(s, Outcome::Failed(SessionError::Spawn)),
        },
        Phase::GivingTerminal => match e {
            Event::Changed { ok } => (
                Session { phase: Phase::Waiting, terminal_given: ok, ..s },
                Action::Wait,
            ),
            _ => (Session { phase: Phase::Waiting, ..s }, Action::Wait),
        },
        Phase::Waiting => match e {
            Event::Waited { exit: Some(x) } => unwind(s, Outcome::Exited(x)),
            _ => unwind(s, Outcome::Failed(SessionError::Wait)),
        },
        Phase::TakingTerminalBack => match s.outcome {
            Some(o) => unwind(Session { terminal_given: false, ..s }, o),
            None => unwind(
                Session { terminal_given: false, ..s },
                Outcome::Failed(SessionError::Wait),
            ),
        },
        Phase::RestoringStop => match s.outcome {
            Some(o) => unwind(Session { stop_ignored: false, terminal_given: false, ..s }, o),
            None => unwind(
                Session { stop_ignored: false, terminal_given: false, ..s },
                Outcome::Failed(SessionError::Wait),
            ),
        },
        Phase::RestoringInterrupt => match s.outcome {
            Some(o) => unwind(
                Session {
                    interrupt_ignored: false,
                    stop_ignored: false,
                    terminal_given: false,
                    ..s
                },
                o,
            ),
            None => unwind(
                Session {
                    interrupt_ignored: false,
                    stop_ignored: false,
                    terminal_given: false,
                    ..s
                },
                Outcome::Failed(SessionError::Wait),
            ),
        },
        Phase::Finished => match s.outcome {
            Some(o) => (s, Action::Finish(o)),
            None => (s, Action::Finish(Outcome::Failed(SessionError::Wait))),
        },
    }
}

impl Session {
    /// A session that has not begun.
    pub fn new(job_control: bool) -> (s: Session)
        ensures
            s.wf(),
            s.phase == Phase::Start,
            s.job_control == job_control,
            s.is_clean(),
    {
        Session {
            job_control,
            phase: Phase::Start,
            interrupt_ignored: false,
            stop_ignored: false,
            parent_group: None,
            terminal_given: false,
            outcome: None,
        }
    }

    /// Whether the session holds what a session may hold.
    pub fn is_sound(&self) -> (b: bool)
        ensures
            b == self.wf(),
    {
        let clean = !self.interrupt_ignored && !self.stop_ignored && !self.terminal_given;
        let decided = self.outcome.is_some();
        let group = self.parent_group.is_some();
        let plain_phase = match self.phase {
            Phase::Start | Phase::Spawning | Phase::Waiting | Phase::Finished => true,
            _ => false,
        };
        let by_phase = match self.phase {
            Phase::Start => clean && !decided,
            Phase::IgnoringInterrupt => clean && !decided,
            Phase::QueryingForeground => self.interrupt_ignored && !self.stop_ignored && !decided,
            Phase::IgnoringStop => self.interrupt_ignored && !self.stop_ignored && group
                && !decided,
            Phase::Spawning => !self.terminal_given && !decided && (!self.job_control || (
            self.stop_ignored && group)),
            Phase::GivingTerminal => self.stop_ignored && !self.terminal_given && group
                && !decided,
            Phase::Waiting => !decided,
            Phase::TakingTerminalBack => self.terminal_given && decided,
            Phase::RestoringStop => self.stop_ignored && !self.terminal_given && decided,
            Phase::RestoringInterrupt => self.interrupt_ignored && !self.stop_ignored && decided,
            Phase::Finished => clean && decided,
        };
        (self.job_control || (clean && plain_phase)) && (!self.terminal_given || (
        self.stop_ignored && group)) && (!self.stop_ignored || self.interrupt_ignored) && by_phase
    }

    fn unwind_with(self, outcome: Outcome) -> (r: (Session, Action))
        ensures
            r == unwind(self, outcome),
    {
        let s = Session { outcome: Some(outcome), ..self };
        if s.terminal_given && s.parent_group.is_some() {
            match s.parent_group {
                Some(group) => (
                    Session { phase: Phase::TakingTerminalBack, ..s },
                    Action::TakeTerminalBack { group },
                ),
                None => (s, Action::Finish(outcome)),
            }
        } else if s.stop_ignored {
            (
                Session { phase: Phase::RestoringStop, terminal_given: false, ..s },
                Action::RestoreStop,
            )
        } else if s.interrupt_ignored {
            (
                Session { phase: Phase::RestoringInterrupt, terminal_given: false, ..s },
                Action::RestoreInterrupt,
            )
        } else {
            (
                Session { phase: Phase::Finished, terminal_given: false, ..s },
                Action::Finish(outcome),
            )
        }
    }

    /// Takes the session one step on: given what came of the action done
    /// last, says what is to be done next. The session is over only when
    /// everything that it changed is put back.
    pub fn step(self, event: Event) -> (r: (Session, Action))
        requires
            self.wf(),
        ensures
            r == advance(self, event),
            r.0.wf(),
            r.1 is Finish ==> r.0.is_clean() && r.0.phase == Phase::Finished,
            self.phase != Phase::Finished ==> r.0.steps_left() < self.steps_left(),
    {
        let failed_wait = Outcome::Failed(SessionError::Wait);
        match self.phase {
            Phase::Start => {
                if self.job_control {
                    (Session { phase: Phase::IgnoringInterrupt, ..self }, Action::IgnoreInterrupt)
                } else {
                    (
                        Session { phase: Phase::Spawning, ..self },
                        Action::Spawn { own_group: false },
                    )
                }
            },
            Phase::IgnoringInterrupt => match event {
                Event::Changed { ok: true } => (
                    Session { phase: Phase::QueryingForeground, interrupt_ignored: true, ..self },
                    Action::QueryForeground,
                ),
                _ => self.unwind_with(Outcome::Failed(SessionError::SignalSetup)),
            },
            Phase::QueryingForeground => match event {
                Event::Foreground { group: Some(g) } => (
                    Session { phase: Phase::IgnoringStop, parent_group: Some(g), ..self },
                    Action::IgnoreStop,
                ),
                _ => self.unwind_with(Outcome::Failed(SessionError::ForegroundQuery)),
            },
            Phase::IgnoringStop => match event {
                Event::Changed { ok: true } => (
                    Session { phase: Phase::Spawning, stop_ignored: true, ..self },
                    Action::Spawn { own_group: true },
                ),
                _ => self.unwind_with(Outcome::Failed(SessionError::SignalSetup)),
            },
            Phase::Spawning => match event {
                Event::Spawned { child: Some(c) } => {
                    if self.job_control {
                        (
                            Session { phase: Phase::GivingTerminal, ..self },
                            Action::GiveTerminal { child: c },
                        )
                    } else {
                        (Session { phase: Phase::Waiting, ..self }, Action::Wait)
                    }
                },
                _ => self.unwind_with(Outcome::Failed(SessionError::Spawn)),
            },
            Phase::GivingTerminal => match event {
                Event::Changed { ok } => (
                    Session { phase: Phase::Waiting, terminal_given: ok, ..self },
                    Action::Wait,
                ),
                _ => (Session { phase: Phase::Waiting, ..self }, Action::Wait),
            },
            Phase::Waiting => match event {
                Event::Waited { exit: Some(x) } => self.unwind_with(Outcome::Exited(x)),
                _ => self.unwind_with(failed_wait),
            },
            Phase::TakingTerminalBack => {
                let s = Session { terminal_given: false, ..self };
                match self.outcome {
                    Some(o) => s.unwind_with(o),
                    None => s.unwind_with(failed_wait),
                }
            },
            Phase::RestoringStop => {
                let s = Session { stop_ignored: false, terminal_given: false, ..self };
                match self.outcome {
                    Some(o) => s.unwind_with(o),
                    None => s.unwind_with(failed_wait),
                }
            },
            Phase::RestoringInterrupt => {
                let s = Session {
                    interrupt_ignored: false,
                    stop_ignored: false,
                    terminal_given: false,
                    ..self
                };
                match self.outcome {
                    Some(o) => s.unwind_with(o),
                    None => s.unwind_with(failed_wait),
                }
            },
            Phase::Finished => match self.outcome {
                Some(o) => (self, Action::Finish(o)),
                None => (self, Action::Finish(failed_wait)),
            },
        }
    }
}

/// Without job control a session is: start the child, wait for it, and end
/// with how it ended. Nothing else is asked of the caller, and the session
/// ends whatever the child does.
pub proof fn lemma_plain_session_ends(child: i32, exit: Exit)
    ensures
        ({
            let s0 = Session {
                job_control: false,
                phase: Phase::Start,
                interrupt_ignored: false,
                stop_ignored: false,
                parent_group: None,
                terminal_given: false,
                outcome: None,
            };
            let (s1, a1) = advance(s0, Event::Begin);
            let (s2, a2) = advance(s1, Event::Spawned { child: Some(child) });
            let (s3, a3) = advance(s2, Event::Waited { exit: Some(exit) });
            &&& a1 == (Action::Spawn { own_group: false })
            &&& a2 == Action::Wait
            &&& a3 == Action::Finish(Outcome::Exited(exit))
            &&& s3.phase == Phase::Finished
        }),
{
}

/// Without job control every session is over after three steps at most,
/// whatever comes of starting the child and of waiting for it.
pub proof fn lemma_plain_session_is_short(e1: Event, e2: Event, e3: Event)
    ensures
        ({
            let s0 = Session {
                job_control: false,
                phase: Phase::Start,
                interrupt_ignored: false,
                stop_ignored: false,
                parent_group: None,
                terminal_given: false,
                outcome: None,
            };
            let (s1, a1) = advance(s0, e1);
            let (s2, a2) = advance(s1, e2);
            let (s3, a3) = advance(s2, e3);
            a3 is Finish && s3.phase == Phase::Finished
        }),
{
}

/// A failure to start the child, to wait for it, or to learn the foreground
/// group ends the session with the error of its own kind, once what was
/// changed is put back.
pub proof fn lemma_failures_stay_apart(s: Session)
    requires
        s.wf(),
    ensures
        s.phase == Phase::Spawning ==> advance(s, Event::Spawned { child: None }).0.outcome
            == Some(Outcome::Failed(SessionError::Spawn)),
        s.phase == Phase::Waiting ==> advance(s, Event::Waited { exit: None }).0.outcome == Some(
            Outcome::Failed(SessionError::Wait),
        ),
        s.phase == Phase::QueryingForeground ==> advance(
            s,
            Event::Foreground { group: None },
        ).0.outcome == Some(Outcome::Failed(SessionError::ForegroundQuery)),
{
}

/// Once the end of a session is decided, the steps that put things back do
/// not change it.
pub proof fn lemma_outcome_is_kept(s: Session, e: Event)
    requires
        s.wf(),
        s.outcome is Some,
    ensures
        advance(s, e).0.outcome == s.outcome,
        advance(s, e).1 is Finish ==> advance(s, e).1 == Action::Finish(s.outcome->0),
{
}

} // verus!
