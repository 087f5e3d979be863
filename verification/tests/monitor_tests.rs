use unlock_sweep::monitor::{
    monitor_start, monitor_step, MonitorAction, MonitorEvent, MonitorState, POLL_INTERVAL_SECS,
    RECOVERY_COOLDOWN_SECS,
};

const WAKE: MonitorEvent = MonitorEvent::Woke { stop_requested: false };
const STOP: MonitorEvent = MonitorEvent::Woke { stop_requested: true };
const PRESENT: MonitorEvent = MonitorEvent::Listed { present: true };
const ABSENT: MonitorEvent = MonitorEvent::Listed { present: false };

/// Drives a fresh monitor as its actions say. Each poll is answered from
/// `listings`; the stop signal is raised from the wake with number
/// `stop_at_wake` on. Returns the number of polls, of recoveries, and the
/// seconds slept.
fn drive(listings: &[MonitorEvent], stop_at_wake: usize) -> (usize, usize, u64) {
    let mut state = monitor_start();
    let mut polls = 0;
    let mut recoveries = 0;
    let mut slept = 0;
    let mut wakes = 0;
    let mut event = if stop_at_wake == 0 { STOP } else { WAKE };
    loop {
        let (next, action) = monitor_step(state, event);
        state = next;
        let sleep = match action {
            MonitorAction::Finish => return (polls, recoveries, slept),
            MonitorAction::Poll => {
                if polls == listings.len() {
                    return (polls, recoveries, slept);
                }
                event = listings[polls];
                polls += 1;
                continue;
            }
            MonitorAction::Recover { sleep_secs } => {
                recoveries += 1;
                sleep_secs
            }
            MonitorAction::Sleep { sleep_secs } => sleep_secs,
        };
        assert!(sleep <= POLL_INTERVAL_SECS);
        slept += sleep;
        wakes += 1;
        event = if wakes >= stop_at_wake { STOP } else { WAKE };
    }
}

#[test]
fn starts_idle_and_polls_at_the_first_wake() {
    assert_eq!(monitor_start(), MonitorState::Idle);
    assert_eq!(monitor_step(MonitorState::Idle, WAKE), (MonitorState::Polling, MonitorAction::Poll));
}

#[test]
fn present_device_means_one_interval_of_sleep() {
    assert_eq!(
        monitor_step(MonitorState::Polling, PRESENT),
        (MonitorState::Idle, MonitorAction::Sleep { sleep_secs: 3 })
    );
    assert_eq!(POLL_INTERVAL_SECS, 3);
}

#[test]
fn failed_listing_is_no_disappearance() {
    assert_eq!(
        monitor_step(MonitorState::Polling, MonitorEvent::ListingFailed),
        (MonitorState::Idle, MonitorAction::Sleep { sleep_secs: 3 })
    );
}

#[test]
fn missing_device_brings_a_recovery() {
    assert_eq!(
        monitor_step(MonitorState::Polling, ABSENT),
        (MonitorState::Cooling { remaining_secs: 7 }, MonitorAction::Recover { sleep_secs: 3 })
    );
}

#[test]
fn cooldown_is_slept_in_stretches_of_one_interval() {
    let mut state = MonitorState::Polling;
    let mut actions = Vec::new();
    let mut event = ABSENT;
    for _ in 0..5 {
        let (next, action) = monitor_step(state, event);
        state = next;
        actions.push(action);
        event = WAKE;
    }
    assert_eq!(
        actions,
        vec![
            MonitorAction::Recover { sleep_secs: 3 },
            MonitorAction::Sleep { sleep_secs: 3 },
            MonitorAction::Sleep { sleep_secs: 3 },
            MonitorAction::Sleep { sleep_secs: 1 },
            MonitorAction::Poll,
        ]
    );
    assert_eq!(state, MonitorState::Polling);
    assert_eq!(RECOVERY_COOLDOWN_SECS, 10);
}

#[test]
fn flapping_presence_gives_one_recovery_per_disappearance() {
    let listings = [PRESENT, ABSENT, PRESENT, PRESENT, ABSENT, ABSENT, PRESENT, ABSENT];
    let (polls, recoveries, slept) = drive(&listings, usize::MAX);
    assert_eq!(polls, 8);
    assert_eq!(recoveries, 4);
    assert_eq!(slept, 4 * POLL_INTERVAL_SECS + 4 * RECOVERY_COOLDOWN_SECS);
}

#[test]
fn steady_presence_gives_no_recovery() {
    let listings = [PRESENT; 20];
    assert_eq!(drive(&listings, usize::MAX), (20, 0, 60));
}

#[test]
fn failed_listings_give_no_recovery() {
    let listings = [MonitorEvent::ListingFailed; 5];
    assert_eq!(drive(&listings, usize::MAX), (5, 0, 15));
}

#[test]
fn stop_before_the_first_poll() {
    assert_eq!(drive(&[ABSENT, ABSENT], 0), (0, 0, 0));
}

#[test]
fn stop_ends_polling_at_the_next_wake() {
    let listings = [PRESENT; 20];
    // Two sleeps are taken; the wake after the second finds the signal.
    let (polls, recoveries, slept) = drive(&listings, 2);
    assert_eq!((polls, recoveries), (2, 0));
    assert_eq!(slept, 2 * POLL_INTERVAL_SECS);
}

#[test]
fn stop_cuts_a_cooldown_short() {
    let listings = [ABSENT, PRESENT, PRESENT];
    let (polls, recoveries, slept) = drive(&listings, 2);
    assert_eq!((polls, recoveries), (1, 1));
    assert_eq!(slept, 6);
}

#[test]
fn stop_is_seen_in_every_state() {
    for state in [
        MonitorState::Idle,
        MonitorState::Polling,
        MonitorState::Cooling { remaining_secs: 7 },
        MonitorState::Cooling { remaining_secs: 0 },
        MonitorState::Stopped,
    ] {
        assert_eq!(monitor_step(state, STOP), (MonitorState::Stopped, MonitorAction::Finish));
    }
}

#[test]
fn stopped_monitor_stays_stopped() {
    for event in [WAKE, STOP, PRESENT, ABSENT, MonitorEvent::ListingFailed] {
        assert_eq!(
            monitor_step(MonitorState::Stopped, event),
            (MonitorState::Stopped, MonitorAction::Finish)
        );
    }
}

#[test]
fn listing_that_was_not_awaited_changes_nothing() {
    for event in [PRESENT, ABSENT, MonitorEvent::ListingFailed] {
        assert_eq!(
            monitor_step(MonitorState::Idle, event),
            (MonitorState::Idle, MonitorAction::Sleep { sleep_secs: 3 })
        );
        assert_eq!(
            monitor_step(MonitorState::Cooling { remaining_secs: 2 }, event),
            (MonitorState::Cooling { remaining_secs: 2 }, MonitorAction::Sleep { sleep_secs: 2 })
        );
    }
}

#[test]
fn wake_during_a_poll_polls_again() {
    assert_eq!(
        monitor_step(MonitorState::Polling, WAKE),
        (MonitorState::Polling, MonitorAction::Poll)
    );
}
