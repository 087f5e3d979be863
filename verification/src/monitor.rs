//! The liveness monitor as a state machine. The caller does what an action
//! says (list the devices, issue the recovery, sleep) and reports back what
//! happened; the machine decides what comes next.

use vstd::prelude::*;

verus! {

/// Seconds between two polls, and the longest time the monitor sleeps
/// without looking at the stop signal.
pub const POLL_INTERVAL_SECS: u64 = 3;

/// Seconds for which the monitor leaves the device alone after a recovery.
pub const RECOVERY_COOLDOWN_SECS: u64 = 10;

/// Where the monitor stands.
#[derive(Clone, Copy, Debug, PartialEq, Eq, Structural)]
pub enum MonitorState {
    /// Ready to poll at the next wake.
    Idle,
    /// A listing of the devices was asked for and is awaited.
    Polling,
    /// A recovery was issued; so many seconds of its cooldown are left.
    Cooling { remaining_secs: u64 },
    /// The stop signal was seen. Nothing follows.
    Stopped,
}

/// What the caller reports.
#[derive(Clone, Copy, Debug, PartialEq, Eq, Structural)]
pub enum MonitorEvent {
    /// The caller began, or has slept as asked; it read the stop signal.
    Woke { stop_requested: bool },
    /// The devices were listed; the target was among them, or was not.
    Listed { present: bool },
    /// The devices could not be listed.
    ListingFailed,
}

/// What the caller is to do next.
#[derive(Clone, Copy, Debug, PartialEq, Eq, Structural)]
pub enum MonitorAction {
    /// List the devices and report `Listed` or `ListingFailed`.
    Poll,
    /// Issue the recovery, sleep, read the stop signal and report `Woke`.
    Recover { sleep_secs: u64 },
    /// Sleep, read the stop signal and report `Woke`.
    Sleep { sleep_secs: u64 },
    /// End the monitor.
    Finish,
}

/// The smaller of a remaining cooldown and the poll interval: the next
/// stretch of sleep.
pub open spec fn stretch(remaining_secs: u64) -> u64 {
    if remaining_secs < POLL_INTERVAL_SECS {
        remaining_secs
    } else {
        POLL_INTERVAL_SECS
    }
}

/// The transition of the monitor: the state and the action that follow an
/// event.
///
/// A stopped monitor stays stopped, and a wake with the stop signal raised
/// stops it, wherever it stands. A wake without it starts a poll, or goes on
/// with a cooldown that is not over. A listing without the target, where
/// one was awaited, brings a recovery and a cooldown; a listing with the
/// target, or none, brings a sleep of one interval. A listing that was not
/// awaited changes nothing.
pub open spec fn monitor_next(state: MonitorState, event: MonitorEvent) -> (
    MonitorState,
    MonitorAction,
) {
    match (state, event) {
        (MonitorState::Stopped, _) => (MonitorState::Stopped, MonitorAction::Finish),
        (_, MonitorEvent::Woke { stop_requested: true }) => (
            MonitorState::Stopped,
            MonitorAction::Finish,
        ),
        (MonitorState::Cooling { remaining_secs }, MonitorEvent::Woke { stop_requested: false }) => {
            if remaining_secs == 0 {
                (MonitorState::Polling, MonitorAction::Poll)
            } else {
                (
                    MonitorState::Cooling {
                        remaining_secs: (remaining_secs - stretch(remaining_secs)) as u64,
                    },
                    MonitorAction::Sleep { sleep_secs: stretch(remaining_secs) },
                )
            }
        },
        (_, MonitorEvent::Woke { stop_requested: false }) => (
            MonitorState::Polling,
            MonitorAction::Poll,
        ),
        (MonitorState::Polling, MonitorEvent::Listed { present: false }) => (
            MonitorState::Cooling {
                remaining_secs: (RECOVERY_COOLDOWN_SECS - stretch(RECOVERY_COOLDOWN_SECS)) as u64,
            },
            MonitorAction::Recover { sleep_secs: stretch(RECOVERY_COOLDOWN_SECS) },
        ),
        (MonitorState::Polling, _) => (
            MonitorState::Idle,
            MonitorAction::Sleep { sleep_secs: POLL_INTERVAL_SECS },
        ),
        (MonitorState::Cooling { remaining_secs }, _) => (
            state,
            MonitorAction::Sleep { sleep_secs: stretch(remaining_secs) },
        ),
        (MonitorState::Idle, _) => (state, MonitorAction::Sleep { sleep_secs: POLL_INTERVAL_SECS }),
    }
}

/// The state of a monitor that began in `start` and has taken `events`.
pub open spec fn state_after(start: MonitorState, events: Seq<MonitorEvent>) -> MonitorState
    decreases events.len(),
{
    if events.len() == 0 {
        start
    } else {
        monitor_next(state_after(start, events.drop_last()), events.last()).0
    }
}

/// The action with which the monitor answers the event at index `k`.
pub open spec fn action_at(start: MonitorState, events: Seq<MonitorEvent>, k: int) -> MonitorAction {
    monitor_next(state_after(start, events.take(k)), events[k]).1
}

/// The number of recoveries that the monitor issues over `events`.
pub open spec fn recoveries(start: MonitorState, events: Seq<MonitorEvent>) -> nat
    decreases events.len(),
{
    if events.len() == 0 {
        0
    } else {
        let earlier = recoveries(start, events.drop_last());
        if action_at(start, events, events.len() - 1) is Recover {
            earlier + 1
        } else {
            earlier
        }
    }
}

/// The number of listings among `events` in which the target was missing.
pub open spec fn disappearances(events: Seq<MonitorEvent>) -> nat
    decreases events.len(),
{
    if events.len() == 0 {
        0
    } else {
        let earlier = disappearances(events.drop_last());
        if events.last() == (MonitorEvent::Listed { present: false }) {
            earlier + 1
        } else {
            earlier
        }
    }
}

/// Whether `event` is what a caller may report after `action`: the outcome
/// of a listing after a poll, a wake after a sleep or a recovery, and
/// nothing after the end.
pub open spec fn answers(action: MonitorAction, event: MonitorEvent) -> bool {
    match action {
        MonitorAction::Poll => !(event is Woke),
        MonitorAction::Recover { .. } => event is Woke,
        MonitorAction::Sleep { .. } => event is Woke,
        MonitorAction::Finish => false,
    }
}

/// Whether `events` is what a caller reports who begins with a wake and
/// then does what each action of a fresh monitor says.
pub open spec fn well_driven(events: Seq<MonitorEvent>) -> bool {
    &&& events.len() > 0 ==> events[0] is Woke
    &&& forall|k: int|
        0 < k < events.len() ==> answers(
            #[trigger] action_at(MonitorState::Idle, events, k - 1),
            events[k],
        )
}

/// What one step of the monitor can do. It polls only on a wake that found
/// the stop signal down. It recovers exactly when an awaited listing lacks
/// the target. It never asks for a sleep longer than one poll interval, so
/// the stop signal is read again within that time.
pub proof fn lemma_step_is_guarded(state: MonitorState, event: MonitorEvent)
    ensures
        monitor_next(state, event).1 is Poll ==> event == (MonitorEvent::Woke {
            stop_requested: false,
        }) && monitor_next(state, event).0 == MonitorState::Polling,
        monitor_next(state, event).1 is Recover <==> state == MonitorState::Polling && event == (
        MonitorEvent::Listed { present: false }),
        monitor_next(state, event).1 is Recover ==> monitor_next(state, event).1->Recover_sleep_secs
            <= POLL_INTERVAL_SECS,
        monitor_next(state, event).1 is Sleep ==> monitor_next(state, event).1->Sleep_sleep_secs
            <= POLL_INTERVAL_SECS,
        event == (MonitorEvent::Woke { stop_requested: true }) ==> monitor_next(state, event) == (
            MonitorState::Stopped,
            MonitorAction::Finish,
        ),
{
}

/// A recovery is followed by its cooldown in full. The sleep that comes
/// with the recovery and the cooldown that is left add up to the whole
/// cooldown; each wake after that sleeps a further stretch of what is left,
/// and the poll comes when nothing is left.
pub proof fn lemma_cooldown_is_kept(remaining_secs: u64)
    ensures
        ({
            let (state, action) = monitor_next(
                MonitorState::Polling,
                MonitorEvent::Listed { present: false },
            );
            &&& state is Cooling
            &&& action is Recover
            &&& action->Recover_sleep_secs + state->remaining_secs == RECOVERY_COOLDOWN_SECS
        }),
        remaining_secs > 0 ==> ({
            let (state, action) = monitor_next(
                MonitorState::Cooling { remaining_secs },
                MonitorEvent::Woke { stop_requested: false },
            );
            &&& state is Cooling
            &&& action is Sleep
            &&& action->Sleep_sleep_secs > 0
            &&& action->Sleep_sleep_secs + state->remaining_secs == remaining_secs
        }),
        monitor_next(
            MonitorState::Cooling { remaining_secs: 0 },
            MonitorEvent::Woke { stop_requested: false },
        ) == (MonitorState::Polling, MonitorAction::Poll),
{
}

/// A monitor that is driven as its actions say issues exactly one recovery
/// for each listing in which the target was missing.
pub proof fn lemma_one_recovery_per_disappearance(events: Seq<MonitorEvent>)
    requires
        well_driven(events),
    ensures
        recoveries(MonitorState::Idle, events) == disappearances(events),
    decreases events.len(),
{
    if events.len() > 0 {
        let start = MonitorState::Idle;
        let earlier = events.drop_last();
        let last = events.len() - 1;
        assert forall|k: int| 0 < k < earlier.len() implies answers(
            #[trigger] action_at(start, earlier, k - 1),
            earlier[k],
        ) by {
            assert(earlier.take(k - 1) =~= events.take(k - 1));
            assert(answers(action_at(start, events, k - 1), events[k]));
        }
        lemma_one_recovery_per_disappearance(earlier);
        assert(events.take(last) =~= earlier);
        if events.last() is Listed {
            assert(last > 0);
            assert(answers(action_at(start, events, last - 1), events[last]));
            assert(events.take(last - 1) =~= earlier.drop_last());
            lemma_step_is_guarded(state_after(start, earlier.drop_last()), earlier.last());
            assert(state_after(start, earlier) == MonitorState::Polling);
        }
        lemma_step_is_guarded(state_after(start, earlier), events.last());
    }
}

/// Once a wake has found the stop signal raised, the monitor is stopped:
/// whatever is reported after that, it answers that event and all later
/// ones with `Finish`, and neither polls nor recovers again.
pub proof fn lemma_stop_is_final(start: MonitorState, events: Seq<MonitorEvent>, k: int, j: int)
    requires
        0 <= k <= j < events.len(),
        events[k] == (MonitorEvent::Woke { stop_requested: true }),
    ensures
        action_at(start, events, j) == MonitorAction::Finish,
        state_after(start, events.take(j + 1)) == MonitorState::Stopped,
    decreases j - k,
{
    let upto = events.take(j + 1);
    assert(upto.drop_last() =~= events.take(j));
    assert(upto.last() == events[j]);
    if j > k {
        lemma_stop_is_final(start, events, k, j - 1);
    }
}

/// The next stretch of sleep of a cooldown.
fn next_stretch(remaining_secs: u64) -> (secs: u64)
    ensures
        secs == stretch(remaining_secs),
{
    if remaining_secs < POLL_INTERVAL_SECS {
        remaining_secs
    } else {
        POLL_INTERVAL_SECS
    }
}

/// The state in which a monitor begins.
pub fn monitor_start() -> (state: MonitorState)
    ensures
        state == MonitorState::Idle,
{
    MonitorState::Idle
}

/// Takes one step of the monitor: the state and the action that follow
/// `event` in `state`.
pub fn monitor_step(state: MonitorState, event: MonitorEvent) -> (next: (
    MonitorState,
    MonitorAction,
))
    ensures
        next == monitor_next(state, event),
{
    match state {
        MonitorState::Stopped => (MonitorState::Stopped, MonitorAction::Finish),
        MonitorState::Idle => match event {
            MonitorEvent::Woke { stop_requested } => if stop_requested {
                (MonitorState::Stopped, MonitorAction::Finish)
            } else {
                (MonitorState::Polling, MonitorAction::Poll)
            },
            _ => (state, MonitorAction::Sleep { sleep_secs: POLL_INTERVAL_SECS }),
        },
        MonitorState::Polling => match event {
            MonitorEvent::Woke { stop_requested } => if stop_requested {
                (MonitorState::Stopped, MonitorAction::Finish)
            } else {
                (MonitorState::Polling, MonitorAction::Poll)
            },
            MonitorEvent::Listed { present } => if present {
                (MonitorState::Idle, MonitorAction::Sleep { sleep_secs: POLL_INTERVAL_SECS })
            } else {
                let first = next_stretch(RECOVERY_COOLDOWN_SECS);
                (
                    MonitorState::Cooling { remaining_secs: RECOVERY_COOLDOWN_SECS - first },
                    MonitorAction::Recover { sleep_secs: first },
                )
            },
            MonitorEvent::ListingFailed => (
                MonitorState::Idle,
                MonitorAction::Sleep { sleep_secs: POLL_INTERVAL_SECS },
            ),
        },
        MonitorState::Cooling { remaining_secs } => match event {
            MonitorEvent::Woke { stop_requested } => if stop_requested {
                (MonitorState::Stopped, MonitorAction::Finish)
            } else if remaining_secs == 0 {
                (MonitorState::Polling, MonitorAction::Poll)
            } else {
                let secs = next_stretch(remaining_secs);
                (
                    MonitorState::Cooling { remaining_secs: remaining_secs - secs },
                    MonitorAction::Sleep { sleep_secs: secs },
                )
            },
            _ => (state, MonitorAction::Sleep { sleep_secs: next_stretch(remaining_secs) }),
        },
    }
}

} // verus!
