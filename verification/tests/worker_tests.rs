use kittypaws::config::{Duration, FrequencyOptions, RandomRange, StartupOptions};
use kittypaws::worker::{LoopAction, LoopState, StartupMode, Worker};

fn secs(n: u64) -> Duration {
    Duration::from_secs(n)
}

/// Drives a worker for at most `limit` steps with the clock standing at
/// `now`, and hands back the actions it gave, the first included.
fn drive(
    startup: StartupMode,
    frequency: FrequencyOptions,
    deadline: Option<u128>,
    now: Duration,
    limit: usize,
) -> Vec<LoopAction> {
    let (mut worker, first) = Worker::start(startup, frequency, deadline);
    let mut actions = vec![first];
    while actions.len() < limit && *actions.last().unwrap() != LoopAction::Finish {
        actions.push(worker.advance(&now));
    }
    actions
}

fn invocations(actions: &[LoopAction]) -> usize {
    actions.iter().filter(|a| **a == LoopAction::Invoke).count()
}

#[test]
fn startup_mode_comes_from_the_configured_option() {
    assert_eq!(StartupMode::from(StartupOptions::Hot), StartupMode::Immediatelly);
    assert_eq!(StartupMode::from(StartupOptions::Cold), StartupMode::AfterInterval);
    assert_eq!(StartupMode::from(StartupOptions::Delayed(secs(4))), StartupMode::Delayed(secs(4)));
}

#[test]
fn once_runs_exactly_once_without_a_recurrence_wait() {
    for startup in [StartupMode::Immediatelly, StartupMode::AfterInterval] {
        let actions = drive(startup, FrequencyOptions::Once, None, secs(0), 50);
        assert_eq!(actions, vec![LoopAction::Invoke, LoopAction::Finish]);
    }
    let delayed = drive(StartupMode::Delayed(secs(2)), FrequencyOptions::Once, None, secs(0), 50);
    assert_eq!(delayed, vec![LoopAction::Wait(secs(2)), LoopAction::Invoke, LoopAction::Finish]);
    assert_eq!(invocations(&delayed), 1);
}

#[test]
fn delayed_start_waits_the_delay_before_the_first_run() {
    let (mut worker, first) =
        Worker::start(StartupMode::Delayed(secs(7)), FrequencyOptions::Fixed(secs(1)), None);
    assert_eq!(first, LoopAction::Wait(secs(7)));
    assert_eq!(worker.current_state(), LoopState::AwaitingStart);
    assert_eq!(worker.advance(&secs(7)), LoopAction::Invoke);
    assert_eq!(worker.current_state(), LoopState::Running);
}

#[test]
fn start_after_interval_waits_one_interval_first() {
    let (mut worker, first) =
        Worker::start(StartupMode::AfterInterval, FrequencyOptions::Fixed(secs(3)), None);
    assert_eq!(first, LoopAction::Wait(secs(3)));
    assert_eq!(worker.current_state(), LoopState::AwaitingStart);
    assert_eq!(worker.advance(&secs(3)), LoopAction::Invoke);
}

#[test]
fn immediate_start_runs_at_once() {
    let (worker, first) =
        Worker::start(StartupMode::Immediatelly, FrequencyOptions::Fixed(secs(3)), None);
    assert_eq!(first, LoopAction::Invoke);
    assert_eq!(worker.current_state(), LoopState::Running);
    assert!(!worker.is_terminated());
}

#[test]
fn fixed_frequency_alternates_runs_and_waits() {
    let actions =
        drive(StartupMode::Immediatelly, FrequencyOptions::Fixed(secs(3)), None, secs(100), 7);
    assert_eq!(
        actions,
        vec![
            LoopAction::Invoke,
            LoopAction::Wait(secs(3)),
            LoopAction::Invoke,
            LoopAction::Wait(secs(3)),
            LoopAction::Invoke,
            LoopAction::Wait(secs(3)),
            LoopAction::Invoke,
        ]
    );
}

#[test]
fn deadline_in_the_past_allows_one_run_only() {
    let deadline = Some(secs(10).as_nanos());
    for startup in [
        StartupMode::Immediatelly,
        StartupMode::AfterInterval,
        StartupMode::Delayed(secs(1)),
    ] {
        let actions = drive(startup, FrequencyOptions::Fixed(secs(3)), deadline, secs(11), 50);
        assert_eq!(invocations(&actions), 1);
        assert_eq!(*actions.last().unwrap(), LoopAction::Finish);
        assert!(actions.len() <= 4);
    }
}

#[test]
fn deadline_is_checked_after_each_wait() {
    let deadline = Some(secs(10).as_nanos());
    let (mut worker, first) =
        Worker::start(StartupMode::Immediatelly, FrequencyOptions::Fixed(secs(3)), deadline);
    assert_eq!(first, LoopAction::Invoke);
    assert_eq!(worker.advance(&secs(1)), LoopAction::Wait(secs(3)));
    assert_eq!(worker.advance(&secs(4)), LoopAction::Invoke);
    assert_eq!(worker.advance(&secs(5)), LoopAction::Wait(secs(3)));
    // The deadline itself is not past the deadline.
    assert_eq!(worker.advance(&secs(10)), LoopAction::Invoke);
    assert_eq!(worker.advance(&secs(20)), LoopAction::Wait(secs(3)));
    assert_eq!(worker.advance(&Duration::new(10, 1).unwrap()), LoopAction::Finish);
    assert!(worker.is_terminated());
    assert_eq!(worker.advance(&secs(0)), LoopAction::Finish);
    assert_eq!(worker.current_state(), LoopState::Terminated);
}

#[test]
fn random_frequency_waits_within_its_range() {
    let range = RandomRange { min: secs(1), max: secs(2) };
    let (mut worker, first) =
        Worker::start(StartupMode::AfterInterval, FrequencyOptions::Random(range), None);
    match first {
        LoopAction::Wait(w) => {
            assert!(secs(1).le(&w));
            assert!(w.as_nanos() < secs(2).as_nanos());
        }
        other => panic!("expected a wait, got {:?}", other),
    }
    assert_eq!(worker.advance(&secs(0)), LoopAction::Invoke);
    match worker.advance(&secs(0)) {
        LoopAction::Wait(w) => {
            assert!(secs(1).le(&w));
            assert!(w.as_nanos() < secs(2).as_nanos());
        }
        other => panic!("expected a wait, got {:?}", other),
    }
}
