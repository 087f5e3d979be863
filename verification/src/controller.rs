//! The sweep controller as a state machine. It opens the session, starts
//! the liveness monitor, walks the progression of secrets and hands out one
//! candidate code after the other, stops at the first code that the device
//! takes, and lets the monitor shut down before it reports.
//!
//! The caller does what an action says and reports back what happened. The
//! controller never touches the device.

use vstd::prelude::*;
use vstd::string::*;

use crate::formula::{formula_code, huawei_hash_formula};
use crate::secrets::{continuation_base, secret_at, secret_key_at};
use crate::session::TestOutcome;

verus! {

/// How a sweep ended.
#[derive(Clone, Copy, Debug, PartialEq, Eq, Structural)]
pub enum Outcome {
    /// The device took a code.
    Success,
    /// Every candidate was tried and none was taken.
    Exhausted,
    /// The session could not be opened, or the transport failed in a test.
    Aborted,
}

/// The state of a sweep as a whole.
#[derive(Clone, Copy, Debug, PartialEq, Eq, Structural)]
pub enum RunState {
    Running,
    Success,
    Exhausted,
    Aborted,
}

/// Where the controller stands, and so what it awaits.
#[derive(Clone, Copy, Debug, PartialEq, Eq, Structural)]
pub enum Phase {
    /// The session is to be opened.
    Opening,
    /// The session is open; the monitor is to be started.
    Starting,
    /// A candidate is with the device.
    Testing,
    /// The sweep is decided; the monitor is to shut down.
    Stopping(Outcome),
    /// The sweep is over and may be reported.
    Finished(Outcome),
}

/// What the caller reports.
#[derive(Clone, Copy, Debug, PartialEq, Eq, Structural)]
pub enum ControllerEvent {
    /// The session was opened and its interface claimed.
    SessionOpened,
    /// The session could not be opened.
    SessionFailed,
    /// The monitor runs.
    MonitorStarted,
    /// The candidate that was handed out has this outcome.
    Tested(TestOutcome),
    /// The stop signal was raised and the monitor has ended.
    MonitorStopped,
}

/// The figures of a sweep that is over.
#[derive(Clone, Copy, Debug, PartialEq, Eq, Structural)]
pub struct Report {
    /// How the sweep ended.
    pub outcome: Outcome,
    /// The number of candidates whose outcome was reported.
    pub attempts: usize,
    /// The number of those that were malformed and never sent.
    pub skipped: usize,
    /// After an exhausted sweep, the base from which a later sweep goes on
    /// where this one stopped.
    pub continuation: Option<u64>,
}

/// What the caller is to do next.
#[derive(Debug)]
pub enum ControllerAction {
    /// Open the session and report `SessionOpened` or `SessionFailed`.
    OpenSession,
    /// Start the monitor and report `MonitorStarted`.
    StartMonitor,
    /// Test the code, which belongs to the secret at position `index`, and
    /// report `Tested` with the outcome.
    Test { index: usize, secret: u64, code: String },
    /// Raise the stop signal, wait until the monitor has ended, and report
    /// `MonitorStopped`.
    StopMonitor,
    /// The sweep is over; these are its figures.
    Report(Report),
}

/// An action, with the code as a sequence of characters.
pub enum ActionModel {
    OpenSession,
    StartMonitor,
    Test { index: usize, secret: u64, code: Seq<char> },
    StopMonitor,
    Report(Report),
}

/// The mathematical model of a controller.
pub struct Sweep {
    /// The device's three identifiers.
    pub imei: Seq<char>,
    pub sn: Seq<char>,
    pub pid: Seq<char>,
    /// The base of the progression of secrets.
    pub base: u64,
    /// The number of candidates of this sweep.
    pub count: usize,
    /// The number of candidates whose outcome was reported.
    pub attempts: usize,
    /// The number of those that were malformed.
    pub skipped: usize,
    pub phase: Phase,
}

/// The counters of a controller and its phase.
#[derive(Clone, Copy)]
struct Progress {
    attempts: usize,
    skipped: usize,
    phase: Phase,
}

/// Drives one sweep over `count` candidates for one device.
pub struct Controller {
    imei: String,
    sn: String,
    pid: String,
    base: u64,
    count: usize,
    progress: Progress,
}

impl View for ControllerAction {
    type V = ActionModel;

    open spec fn view(&self) -> ActionModel {
        match *self {
            ControllerAction::OpenSession => ActionModel::OpenSession,
            ControllerAction::StartMonitor => ActionModel::StartMonitor,
            ControllerAction::Test { index, secret, code } => ActionModel::Test {
                index,
                secret,
                code: code@,
            },
            ControllerAction::StopMonitor => ActionModel::StopMonitor,
            ControllerAction::Report(report) => ActionModel::Report(report),
        }
    }
}

impl Sweep {
    /// What holds of every sweep: no more outcomes than candidates, no more
    /// malformed candidates than outcomes, and while a candidate is with
    /// the device, it is one of the sweep's.
    pub open spec fn wf(self) -> bool {
        &&& self.skipped <= self.attempts <= self.count
        &&& self.phase == Phase::Testing ==> self.attempts < self.count
    }

    /// The sweep with the next candidate handed out, or, where none is
    /// left, exhausted.
    pub open spec fn advance(self) -> Sweep {
        if self.attempts < self.count {
            Sweep { phase: Phase::Testing, ..self }
        } else {
            Sweep { phase: Phase::Stopping(Outcome::Exhausted), ..self }
        }
    }

    /// The sweep with one more outcome counted, malformed or not.
    pub open spec fn counted(self, malformed: bool) -> Sweep {
        Sweep {
            attempts: (self.attempts + 1) as usize,
            skipped: if malformed {
                (self.skipped + 1) as usize
            } else {
                self.skipped
            },
            ..self
        }
    }

    /// The transition of the controller: the sweep after an event.
    ///
    /// A session that fails to open aborts the sweep at once, with nothing
    /// to shut down. The first code that the device takes ends the sweep
    /// in success, and a transport error aborts it. A rejected candidate
    /// and a malformed one are counted and the next one is handed out;
    /// where none is left the sweep is exhausted. A decided sweep is over
    /// when the monitor has ended. An event that the phase does not await
    /// changes nothing.
    pub open spec fn next(self, event: ControllerEvent) -> Sweep {
        match (self.phase, event) {
            (Phase::Opening, ControllerEvent::SessionOpened) => Sweep {
                phase: Phase::Starting,
                ..self
            },
            (Phase::Opening, ControllerEvent::SessionFailed) => Sweep {
                phase: Phase::Finished(Outcome::Aborted),
                ..self
            },
            (Phase::Starting, ControllerEvent::MonitorStarted) => self.advance(),
            (Phase::Testing, ControllerEvent::Tested(TestOutcome::Unlocked)) => Sweep {
                phase: Phase::Stopping(Outcome::Success),
                ..self.counted(false)
            },
            (Phase::Testing, ControllerEvent::Tested(TestOutcome::TransportError)) => Sweep {
                phase: Phase::Stopping(Outcome::Aborted),
                ..self.counted(false)
            },
            (Phase::Testing, ControllerEvent::Tested(TestOutcome::Rejected)) => self.counted(
                false,
            ).advance(),
            (Phase::Testing, ControllerEvent::Tested(TestOutcome::Malformed)) => self.counted(
                true,
            ).advance(),
            (Phase::Stopping(outcome), ControllerEvent::MonitorStopped) => Sweep {
                phase: Phase::Finished(outcome),
                ..self
            },
            _ => self,
        }
    }

    /// The figures of the sweep. They hold a continuation only after an
    /// exhausted sweep: the secret that would have come next.
    pub open spec fn report(self, outcome: Outcome) -> Report {
        Report {
            outcome,
            attempts: self.attempts,
            skipped: self.skipped,
            continuation: if outcome == Outcome::Exhausted {
                Some(secret_at(self.base, self.count as nat))
            } else {
                None
            },
        }
    }

    /// The candidate that is with the device, or comes next: its position,
    /// its secret and its code.
    pub open spec fn candidate(self) -> ActionModel {
        let secret = secret_at(self.base, self.attempts as nat);
        ActionModel::Test {
            index: self.attempts,
            secret,
            code: formula_code(self.imei, self.sn, self.pid, secret),
        }
    }

    /// What the sweep awaits of the caller.
    pub open spec fn pending(self) -> ActionModel {
        match self.phase {
            Phase::Opening => ActionModel::OpenSession,
            Phase::Starting => ActionModel::StartMonitor,
            Phase::Testing => self.candidate(),
            Phase::Stopping(_) => ActionModel::StopMonitor,
            Phase::Finished(outcome) => ActionModel::Report(self.report(outcome)),
        }
    }

    /// The state of the sweep as a whole: running until it is decided.
    pub open spec fn run_state(self) -> RunState {
        match self.phase {
            Phase::Stopping(outcome) | Phase::Finished(outcome) => match outcome {
                Outcome::Success => RunState::Success,
                Outcome::Exhausted => RunState::Exhausted,
                Outcome::Aborted => RunState::Aborted,
            },
            _ => RunState::Running,
        }
    }
}

/// The sweep that begins: nothing is counted, and the session is awaited.
pub open spec fn fresh_sweep(
    imei: Seq<char>,
    sn: Seq<char>,
    pid: Seq<char>,
    base: u64,
    count: usize,
) -> Sweep {
    Sweep { imei, sn, pid, base, count, attempts: 0, skipped: 0, phase: Phase::Opening }
}

/// The sweep after a sequence of events.
pub open spec fn sweep_after(start: Sweep, events: Seq<ControllerEvent>) -> Sweep
    decreases events.len(),
{
    if events.len() == 0 {
        start
    } else {
        sweep_after(start, events.drop_last()).next(events.last())
    }
}

/// The events with which every sweep begins that gets to test: the session
/// is opened and the monitor runs.
pub open spec fn opening() -> Seq<ControllerEvent> {
    seq![ControllerEvent::SessionOpened, ControllerEvent::MonitorStarted]
}

/// The events that report `count` candidates in a row as rejected.
pub open spec fn rejections(count: nat) -> Seq<ControllerEvent> {
    Seq::new(count, |i: int| ControllerEvent::Tested(TestOutcome::Rejected))
}

/// A step keeps a sweep well formed. It never changes the device, the
/// base or the count, and it counts an attempt exactly when the outcome of
/// the candidate that is with the device is reported.
pub proof fn lemma_step_keeps_sweep(sweep: Sweep, event: ControllerEvent)
    requires
        sweep.wf(),
    ensures
        sweep.next(event).wf(),
        sweep.next(event).imei == sweep.imei,
        sweep.next(event).sn == sweep.sn,
        sweep.next(event).pid == sweep.pid,
        sweep.next(event).base == sweep.base,
        sweep.next(event).count == sweep.count,
        sweep.next(event).attempts == if sweep.phase == Phase::Testing && event is Tested {
            sweep.attempts + 1
        } else {
            sweep.attempts as int
        },
{
}

/// A session that cannot be opened aborts the sweep at once: no candidate
/// was tried, the monitor was never asked for, and the report is due.
pub proof fn lemma_failed_session_aborts(sweep: Sweep)
    requires
        sweep.phase == Phase::Opening,
    ensures
        sweep.next(ControllerEvent::SessionFailed).phase == Phase::Finished(Outcome::Aborted),
        sweep.next(ControllerEvent::SessionFailed).attempts == sweep.attempts,
        sweep.next(ControllerEvent::SessionFailed).pending() == ActionModel::Report(
            Report {
                outcome: Outcome::Aborted,
                attempts: sweep.attempts,
                skipped: sweep.skipped,
                continuation: None,
            },
        ),
{
}

/// The first code that the device takes decides the sweep: it is counted,
/// the sweep is a success, and what is asked for next is the end of the
/// monitor, not another test.
pub proof fn lemma_first_match_ends_sweep(sweep: Sweep)
    requires
        sweep.wf(),
        sweep.phase == Phase::Testing,
    ensures
        sweep.next(ControllerEvent::Tested(TestOutcome::Unlocked)).run_state() == RunState::Success,
        sweep.next(ControllerEvent::Tested(TestOutcome::Unlocked)).attempts == sweep.attempts + 1,
        sweep.next(ControllerEvent::Tested(TestOutcome::Unlocked)).pending()
            == ActionModel::StopMonitor,
{
}

/// A transport error in a test decides the sweep as well: the candidate is
/// counted, the sweep is aborted, and the end of the monitor is asked for.
pub proof fn lemma_transport_error_aborts(sweep: Sweep)
    requires
        sweep.wf(),
        sweep.phase == Phase::Testing,
    ensures
        sweep.next(ControllerEvent::Tested(TestOutcome::TransportError)).run_state()
            == RunState::Aborted,
        sweep.next(ControllerEvent::Tested(TestOutcome::TransportError)).attempts == sweep.attempts
            + 1,
        sweep.next(ControllerEvent::Tested(TestOutcome::TransportError)).pending()
            == ActionModel::StopMonitor,
{
}

/// A decided sweep stays decided. Whatever is reported, its outcome and its
/// counters stay as they are and no further candidate is handed out.
pub proof fn lemma_decided_is_final(sweep: Sweep, event: ControllerEvent)
    requires
        sweep.run_state() != RunState::Running,
    ensures
        sweep.next(event).run_state() == sweep.run_state(),
        sweep.next(event).attempts == sweep.attempts,
        sweep.next(event).skipped == sweep.skipped,
        !(sweep.next(event).pending() is Test),
        !(sweep.next(event).pending() is StartMonitor),
        !(sweep.next(event).pending() is OpenSession),
{
}

/// A sweep becomes reportable in two ways only: the monitor has ended
/// after the sweep was decided, or the session never opened, in which case
/// no monitor was started.
pub proof fn lemma_report_follows_monitor(sweep: Sweep, event: ControllerEvent)
    requires
        !(sweep.phase is Finished),
        sweep.next(event).phase is Finished,
    ensures
        (sweep.phase is Stopping && event == ControllerEvent::MonitorStopped) || (sweep.phase
            == Phase::Opening && event == ControllerEvent::SessionFailed),
{
}

/// Once the session is open and the monitor runs, the first candidate is
/// handed out, if there is one.
proof fn lemma_opening(start: Sweep)
    requires
        start.phase == Phase::Opening,
    ensures
        sweep_after(start, opening()) == start.advance(),
{
    assert(opening().drop_last() =~= seq![ControllerEvent::SessionOpened]);
    assert(opening().drop_last().drop_last() =~= Seq::<ControllerEvent>::empty());
    reveal_with_fuel(sweep_after, 3);
}

/// While candidates are rejected, the sweep counts them and hands out the
/// next one, until none is left.
proof fn lemma_rejections(sweep: Sweep, k: nat)
    requires
        sweep.wf(),
        sweep.phase == Phase::Testing,
        sweep.attempts + k <= sweep.count,
    ensures
        sweep_after(sweep, rejections(k)) == (Sweep {
            attempts: (sweep.attempts + k) as usize,
            phase: if sweep.attempts + k < sweep.count {
                Phase::Testing
            } else {
                Phase::Stopping(Outcome::Exhausted)
            },
            ..sweep
        }),
    decreases k,
{
    if k > 0 {
        lemma_rejections(sweep, (k - 1) as nat);
        assert(rejections(k).drop_last() =~= rejections((k - 1) as nat));
        assert(rejections(k).last() == ControllerEvent::Tested(TestOutcome::Rejected));
    }
}

/// A sweep walks the progression of secrets in order. After `k` rejected
/// candidates, with more to come, the candidate that is handed out is the
/// one at position `k`: its secret is the progression's secret there, and
/// its code is the formula's code for that secret.
pub proof fn lemma_sweep_walks_progression(start: Sweep, k: nat)
    requires
        start.phase == Phase::Opening,
        start.attempts == 0,
        start.skipped == 0,
        k < start.count,
    ensures
        ({
            let secret = secret_at(start.base, k);
            sweep_after(start, opening() + rejections(k)).pending() == (ActionModel::Test {
                index: k as usize,
                secret,
                code: formula_code(start.imei, start.sn, start.pid, secret),
            })
        }),
{
    lemma_opening(start);
    lemma_rejections(start.advance(), k);
    lemma_sweep_after_concat(start, opening(), rejections(k));
}

/// A sweep in which the device rejects every candidate ends exhausted. Its
/// report counts as many attempts as there were candidates, none of them
/// skipped, and holds the base from which a later sweep goes on.
pub proof fn lemma_all_rejected_exhausts(start: Sweep)
    requires
        start.phase == Phase::Opening,
        start.attempts == 0,
        start.skipped == 0,
    ensures
        ({
            let events = opening() + rejections(start.count as nat)
                + seq![ControllerEvent::MonitorStopped];
            let end = sweep_after(start, events);
            &&& end.run_state() == RunState::Exhausted
            &&& end.pending() == ActionModel::Report(
                Report {
                    outcome: Outcome::Exhausted,
                    attempts: start.count,
                    skipped: 0,
                    continuation: Some(secret_at(start.base, start.count as nat)),
                },
            )
        }),
{
    let tests = rejections(start.count as nat);
    let events = opening() + tests + seq![ControllerEvent::MonitorStopped];
    lemma_opening(start);
    if start.count > 0 {
        lemma_rejections(start.advance(), start.count as nat);
    }
    lemma_sweep_after_concat(start, opening(), tests);
    assert(events.drop_last() =~= opening() + tests);
}

/// Taking two sequences of events one after the other is taking their
/// concatenation.
proof fn lemma_sweep_after_concat(
    start: Sweep,
    first: Seq<ControllerEvent>,
    second: Seq<ControllerEvent>,
)
    ensures
        sweep_after(start, first + second) == sweep_after(sweep_after(start, first), second),
    decreases second.len(),
{
    if second.len() == 0 {
        assert(first + second =~= first);
    } else {
        lemma_sweep_after_concat(start, first, second.drop_last());
        assert((first + second).drop_last() =~= first + second.drop_last());
        assert((first + second).last() == second.last());
    }
}

impl View for Controller {
    type V = Sweep;

    closed spec fn view(&self) -> Sweep {
        Sweep {
            imei: self.imei@,
            sn: self.sn@,
            pid: self.pid@,
            base: self.base,
            count: self.count,
            attempts: self.progress.attempts,
            skipped: self.progress.skipped,
            phase: self.progress.phase,
        }
    }
}

impl Controller {
    #[verifier::type_invariant]
    spec fn well_formed(&self) -> bool {
        self@.wf()
    }

    /// A controller for a sweep over the first `count` secrets from `base`
    /// for the device with these identifiers. It awaits the session.
    pub fn new(imei: &str, sn: &str, pid: &str, base: u64, count: usize) -> (controller: Controller)
        ensures
            controller@ == fresh_sweep(imei@, sn@, pid@, base, count),
            controller@.wf(),
    {
        Controller {
            imei: String::from_str(imei),
            sn: String::from_str(sn),
            pid: String::from_str(pid),
            base,
            count,
            progress: Progress { attempts: 0, skipped: 0, phase: Phase::Opening },
        }
    }

    /// The state of the sweep as a whole.
    pub fn state(&self) -> (state: RunState)
        ensures
            state == self@.run_state(),
    {
        match self.progress.phase {
            Phase::Stopping(outcome) | Phase::Finished(outcome) => match outcome {
                Outcome::Success => RunState::Success,
                Outcome::Exhausted => RunState::Exhausted,
                Outcome::Aborted => RunState::Aborted,
            },
            _ => RunState::Running,
        }
    }

    /// The number of candidates whose outcome was reported.
    pub fn attempts(&self) -> (attempts: usize)
        ensures
            attempts == self@.attempts,
            attempts <= self@.count,
    {
        proof {
            use_type_invariant(self);
        }
        self.progress.attempts
    }

    /// The number of candidates that are still to be tested.
    pub fn remaining(&self) -> (remaining: usize)
        ensures
            remaining == self@.count - self@.attempts,
    {
        proof {
            use_type_invariant(self);
        }
        self.count - self.progress.attempts
    }

    /// What the controller awaits of the caller.
    pub fn pending(&self) -> (action: ControllerAction)
        ensures
            action@ == self@.pending(),
    {
        proof {
            use_type_invariant(self);
        }
        match self.progress.phase {
            Phase::Opening => ControllerAction::OpenSession,
            Phase::Starting => ControllerAction::StartMonitor,
            Phase::Testing => {
                let index = self.progress.attempts;
                let secret = secret_key_at(self.base, index);
                let code = huawei_hash_formula(
                    self.imei.as_str(),
                    self.sn.as_str(),
                    self.pid.as_str(),
                    secret,
                );
                ControllerAction::Test { index, secret, code }
            },
            Phase::Stopping(_) => ControllerAction::StopMonitor,
            Phase::Finished(outcome) => {
                let continuation = match outcome {
                    Outcome::Exhausted => Some(continuation_base(self.base, self.count)),
                    _ => None,
                };
                ControllerAction::Report(
                    Report {
                        outcome,
                        attempts: self.progress.attempts,
                        skipped: self.progress.skipped,
                        continuation,
                    },
                )
            },
        }
    }

    /// Takes one step of the sweep: folds `event` into the state and says
    /// what the caller is to do next.
    pub fn step(&mut self, event: ControllerEvent) -> (action: ControllerAction)
        ensures
            final(self)@ == old(self)@.next(event),
            final(self)@.wf(),
            action@ == final(self)@.pending(),
    {
        proof {
            use_type_invariant(&*self);
        }
        let now = self.progress;
        let after = match (now.phase, event) {
            (Phase::Opening, ControllerEvent::SessionOpened) => Progress {
                phase: Phase::Starting,
                ..now
            },
            (Phase::Opening, ControllerEvent::SessionFailed) => Progress {
                phase: Phase::Finished(Outcome::Aborted),
                ..now
            },
            (Phase::Starting, ControllerEvent::MonitorStarted) => self.advanced(now),
            (Phase::Testing, ControllerEvent::Tested(outcome)) => {
                let counted = Progress {
                    attempts: now.attempts + 1,
                    skipped: match outcome {
                        TestOutcome::Malformed => now.skipped + 1,
                        _ => now.skipped,
                    },
                    ..now
                };
                match outcome {
                    TestOutcome::Unlocked => Progress {
                        phase: Phase::Stopping(Outcome::Success),
                        ..counted
                    },
                    TestOutcome::TransportError => Progress {
                        phase: Phase::Stopping(Outcome::Aborted),
                        ..counted
                    },
                    _ => self.advanced(counted),
                }
            },
            (Phase::Stopping(outcome), ControllerEvent::MonitorStopped) => Progress {
                phase: Phase::Finished(outcome),
                ..now
            },
            _ => now,
        };
        self.progress = after;
        self.pending()
    }

    /// The progress with the next candidate handed out, or, where none is
    /// left, exhausted.
    fn advanced(&self, progress: Progress) -> (after: Progress)
        ensures
            after.attempts == progress.attempts,
            after.skipped == progress.skipped,
            after.phase == if progress.attempts < self.count {
                Phase::Testing
            } else {
                Phase::Stopping(Outcome::Exhausted)
            },
    {
        if progress.attempts < self.count {
            Progress { phase: Phase::Testing, ..progress }
        } else {
            Progress { phase: Phase::Stopping(Outcome::Exhausted), ..progress }
        }
    }
}

} // verus!
