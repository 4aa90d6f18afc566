//! The loop that one worker runs for one plugin, as a state machine. The
//! caller performs each action the machine hands out (a wait, or one call of
//! the plugin) and then asks for the next one. The run loop and the status
//! loop of a plugin are two such machines with schedules of their own.

use vstd::prelude::*;
use crate::config::{Duration, FrequencyOptions, StartupOptions};
use crate::intervals::{time_till_next_run, wait_allowed};

verus! {

/// The wait before the first run of a plugin.
#[derive(Clone, Copy, Debug, PartialEq, Eq)]
pub enum StartupMode {
    /// No wait.
    Immediatelly,
    /// The given delay.
    Delayed(Duration),
    /// One recurrence interval.
    AfterInterval,
}

/// The startup mode that the configured option stands for.
pub open spec fn startup_mode_of(value: StartupOptions) -> StartupMode {
    match value {
        StartupOptions::Hot => StartupMode::Immediatelly,
        StartupOptions::Cold => StartupMode::AfterInterval,
        StartupOptions::Delayed(duration) => StartupMode::Delayed(duration),
    }
}

impl From<StartupOptions> for StartupMode {
    fn from(value: StartupOptions) -> (r: StartupMode) {
        match value {
            StartupOptions::Hot => StartupMode::Immediatelly,
            StartupOptions::Cold => StartupMode::AfterInterval,
            StartupOptions::Delayed(duration) => StartupMode::Delayed(duration),
        }
    }
}

impl vstd::std_specs::convert::FromSpecImpl<StartupOptions> for StartupMode {
    open spec fn obeys_from_spec() -> bool {
        true
    }

    open spec fn from_spec(value: StartupOptions) -> StartupMode {
        startup_mode_of(value)
    }
}

/// Where a worker stands.
#[derive(Clone, Copy, Debug, PartialEq, Eq)]
pub enum LoopState {
    /// The wait before the first run is under way.
    AwaitingStart,
    /// A call of the plugin is under way.
    Running,
    /// The wait between two runs is under way.
    Waiting,
    /// The loop has ended.
    Terminated,
}

/// What the caller does next.
#[derive(Clone, Copy, Debug, PartialEq, Eq)]
pub enum LoopAction {
    /// Sleep for the given time.
    Wait(Duration),
    /// Call the plugin once.
    Invoke,
    /// Leave the loop.
    Finish,
}

/// Whether the deadline, in nanoseconds, lies before the instant `now`.
pub open spec fn deadline_passed(deadline: Option<u128>, now: nat) -> bool {
    deadline matches Some(t) && now > t
}

/// The first state and action of a worker: a call at once, or the initial
/// wait. A single-run plugin that starts after one interval has no interval
/// to wait for and is called at once.
pub open spec fn first_step(
    startup: StartupMode,
    frequency: FrequencyOptions,
    state: LoopState,
    action: LoopAction,
) -> bool {
    match startup {
        StartupMode::Immediatelly => state == LoopState::Running && action == LoopAction::Invoke,
        StartupMode::Delayed(d) => state == LoopState::AwaitingStart && action == LoopAction::Wait(
            d,
        ),
        StartupMode::AfterInterval => if frequency is Once {
            state == LoopState::Running && action == LoopAction::Invoke
        } else {
            &&& state == LoopState::AwaitingStart
            &&& action matches LoopAction::Wait(w)
            &&& wait_allowed(frequency, Some(w))
        },
    }
}

/// One step of a worker: in `state` the action under way has been completed
/// at the instant `now`, the worker moves to `next` and hands out `action`.
///
/// After the initial wait the plugin is called. After a call a single-run
/// plugin is done; any other waits as its frequency says. After such a wait
/// the deadline is looked at: past it the loop ends, otherwise the plugin is
/// called again. A loop that has ended stays so.
pub open spec fn next_step(
    frequency: FrequencyOptions,
    deadline: Option<u128>,
    state: LoopState,
    now: nat,
    next: LoopState,
    action: LoopAction,
) -> bool {
    match state {
        LoopState::AwaitingStart => next == LoopState::Running && action == LoopAction::Invoke,
        LoopState::Running => if frequency is Once {
            next == LoopState::Terminated && action == LoopAction::Finish
        } else {
            &&& next == LoopState::Waiting
            &&& action matches LoopAction::Wait(w)
            &&& wait_allowed(frequency, Some(w))
        },
        LoopState::Waiting => if deadline_passed(deadline, now) {
            next == LoopState::Terminated && action == LoopAction::Finish
        } else {
            next == LoopState::Running && action == LoopAction::Invoke
        },
        LoopState::Terminated => next == LoopState::Terminated && action == LoopAction::Finish,
    }
}

/// The worker of one loop.
#[derive(Debug)]
pub struct Worker {
    frequency: FrequencyOptions,
    deadline: Option<u128>,
    state: LoopState,
}

impl Worker {
    /// The recurrence policy of the loop.
    pub closed spec fn frequency(&self) -> FrequencyOptions {
        self.frequency
    }

    /// The deadline of the loop in nanoseconds, if it has one.
    pub closed spec fn deadline(&self) -> Option<u128> {
        self.deadline
    }

    /// Where the worker stands.
    pub closed spec fn state(&self) -> LoopState {
        self.state
    }

    #[verifier::type_invariant]
    spec fn frequency_is_valid(&self) -> bool {
        self.frequency.valid()
    }

    /// A worker for a plugin, with the first thing to do.
    pub fn start(startup: StartupMode, frequency: FrequencyOptions, deadline: Option<u128>) -> (r: (
        Worker,
        LoopAction,
    ))
        requires
            frequency.valid(),
        ensures
            r.0.frequency() == frequency,
            r.0.deadline() == deadline,
            first_step(startup, frequency, r.0.state(), r.1),
    {
        let initial_wait = match startup {
            StartupMode::Immediatelly => None,
            StartupMode::Delayed(d) => Some(d),
            StartupMode::AfterInterval => time_till_next_run(&frequency),
        };
        match initial_wait {
            Some(w) => (
                Worker { frequency, deadline, state: LoopState::AwaitingStart },
                LoopAction::Wait(w),
            ),
            None => (Worker { frequency, deadline, state: LoopState::Running }, LoopAction::Invoke),
        }
    }

    /// Where the worker stands.
    pub fn current_state(&self) -> (s: LoopState)
        ensures
            s == self.state(),
    {
        self.state
    }

    /// Whether the loop has ended.
    pub fn is_terminated(&self) -> (r: bool)
        ensures
            r == (self.state() == LoopState::Terminated),
    {
        match self.state {
            LoopState::Terminated => true,
            _ => false,
        }
    }

    /// Takes note that the action handed out last has been completed at the
    /// instant `now`, given as the time since some fixed origin, and hands
    /// out the next action.
    pub fn advance(&mut self, now: &Duration) -> (action: LoopAction)
        ensures
            final(self).frequency() == old(self).frequency(),
            final(self).deadline() == old(self).deadline(),
            next_step(
                old(self).frequency(),
                old(self).deadline(),
                old(self).state(),
                now@,
                final(self).state(),
                action,
            ),
    {
        proof {
            use_type_invariant(&*self);
        }
        match self.state {
            LoopState::AwaitingStart => {
                self.state = LoopState::Running;
                LoopAction::Invoke
            },
            LoopState::Running => {
                match time_till_next_run(&self.frequency) {
                    Some(w) => {
                        self.state = LoopState::Waiting;
                        LoopAction::Wait(w)
                    },
                    None => {
                        self.state = LoopState::Terminated;
                        LoopAction::Finish
                    },
                }
            },
            LoopState::Waiting => {
                let past = match self.deadline {
                    Some(t) => now.as_nanos() > t,
                    None => false,
                };
                if past {
                    self.state = LoopState::Terminated;
                    LoopAction::Finish
                } else {
                    self.state = LoopState::Running;
                    LoopAction::Invoke
                }
            },
            LoopState::Terminated => LoopAction::Finish,
        }
    }
}

/// One step of a loop as seen from outside: the instant at which the worker
/// was asked, the state it moved to and the action it handed out.
pub struct Step {
    pub now: nat,
    pub state: LoopState,
    pub action: LoopAction,
}

/// `cur` follows `prev` in a loop with the given policy and deadline.
pub open spec fn follows(
    frequency: FrequencyOptions,
    deadline: Option<u128>,
    prev: Step,
    cur: Step,
) -> bool {
    next_step(frequency, deadline, prev.state, cur.now, cur.state, cur.action)
}

/// `steps` is the beginning of a loop: what `Worker::start` gave, followed by
/// what successive calls of `Worker::advance` gave.
pub open spec fn is_run(
    startup: StartupMode,
    frequency: FrequencyOptions,
    deadline: Option<u128>,
    steps: Seq<Step>,
) -> bool {
    &&& steps.len() > 0
    &&& first_step(startup, frequency, steps[0].state, steps[0].action)
    &&& forall|i: int|
        1 <= i < steps.len() ==> follows(frequency, deadline, steps[i - 1], #[trigger] steps[i])
}

/// Number of calls of the plugin among `steps`.
pub open spec fn invocations(steps: Seq<Step>) -> nat
    decreases steps.len(),
{
    if steps.len() == 0 {
        0
    } else {
        invocations(steps.drop_last()) + if steps.last().action is Invoke {
            1nat
        } else {
            0nat
        }
    }
}

/// Every instant of `steps` after the first lies past the deadline `t`.
pub open spec fn all_past(steps: Seq<Step>, t: u128) -> bool {
    forall|i: int| 1 <= i < steps.len() ==> (#[trigger] steps[i]).now > t
}

/// A beginning of a run is a run.
proof fn lemma_run_prefix(
    startup: StartupMode,
    frequency: FrequencyOptions,
    deadline: Option<u128>,
    steps: Seq<Step>,
    k: int,
)
    requires
        is_run(startup, frequency, deadline, steps),
        1 <= k <= steps.len(),
    ensures
        is_run(startup, frequency, deadline, steps.take(k)),
{
    let head = steps.take(k);
    assert(head[0] == steps[0]);
    assert forall|i: int| 1 <= i < head.len() implies follows(
        frequency,
        deadline,
        head[i - 1],
        #[trigger] head[i],
    ) by {
        assert(head[i - 1] == steps[i - 1]);
        assert(head[i] == steps[i]);
        assert(follows(frequency, deadline, steps[i - 1], steps[i]));
    }
}

/// A loop that has ended stays ended: from the step at which it ended on,
/// every action is to leave the loop, and the plugin is not called again.
pub proof fn lemma_nothing_runs_after_the_end(
    startup: StartupMode,
    frequency: FrequencyOptions,
    deadline: Option<u128>,
    steps: Seq<Step>,
    ended: int,
)
    requires
        is_run(startup, frequency, deadline, steps),
        0 <= ended < steps.len(),
        steps[ended].state == LoopState::Terminated,
    ensures
        forall|i: int|
            ended < i < steps.len() ==> (#[trigger] steps[i]).state == LoopState::Terminated
                && steps[i].action == LoopAction::Finish,
        invocations(steps) == invocations(steps.take(ended + 1)),
    decreases steps.len() - ended,
{
    if ended + 1 < steps.len() {
        assert(follows(frequency, deadline, steps[ended], steps[ended + 1]));
        lemma_nothing_runs_after_the_end(startup, frequency, deadline, steps, ended + 1);
        let head = steps.take(ended + 2);
        assert(head.drop_last() =~= steps.take(ended + 1));
        assert(head.last() == steps[ended + 1]);
    } else {
        assert(steps.take(ended + 1) =~= steps);
    }
}

/// In a single-run loop the state tells how often the plugin was called:
/// not yet while the start is awaited, once from then on; the loop never
/// waits between runs.
proof fn lemma_once_states(
    startup: StartupMode,
    deadline: Option<u128>,
    steps: Seq<Step>,
)
    requires
        is_run(startup, FrequencyOptions::Once, deadline, steps),
    ensures
        match steps.last().state {
            LoopState::AwaitingStart => invocations(steps) == 0 && steps.len() == 1,
            LoopState::Running => invocations(steps) == 1 && steps.last().action is Invoke,
            LoopState::Waiting => false,
            LoopState::Terminated => invocations(steps) == 1 && steps.last().action is Finish,
        },
    decreases steps.len(),
{
    let frequency = FrequencyOptions::Once;
    if steps.len() == 1 {
        assert(steps.drop_last() =~= Seq::<Step>::empty());
        assert(invocations(steps.drop_last()) == 0);
    } else {
        let head = steps.drop_last();
        assert(head =~= steps.take(steps.len() - 1));
        lemma_run_prefix(startup, frequency, deadline, steps, steps.len() - 1);
        lemma_once_states(startup, deadline, head);
        assert(head.last() == steps[steps.len() - 2]);
        assert(follows(frequency, deadline, steps[steps.len() - 2], steps[steps.len() - 1]));
    }
}

/// A plugin that runs once is called exactly once: in no part of its loop
/// more than once, once when the loop has ended, and its worker never waits
/// after the call.
pub proof fn lemma_once_runs_once(
    startup: StartupMode,
    deadline: Option<u128>,
    steps: Seq<Step>,
)
    requires
        is_run(startup, FrequencyOptions::Once, deadline, steps),
    ensures
        invocations(steps) <= 1,
        steps.last().state == LoopState::Terminated ==> invocations(steps) == 1,
        forall|i: int|
            0 <= i < steps.len() && (#[trigger] steps[i]).action is Wait ==> i == 0 && invocations(
                steps.take(i + 1),
            ) == 0,
{
    lemma_once_states(startup, deadline, steps);
    assert forall|i: int| 0 <= i < steps.len() && (#[trigger] steps[i]).action is Wait implies i
        == 0 && invocations(steps.take(i + 1)) == 0 by {
        let head = steps.take(i + 1);
        lemma_run_prefix(startup, FrequencyOptions::Once, deadline, steps, i + 1);
        lemma_once_states(startup, deadline, head);
        assert(head.last() == steps[i]);
    }
}

/// A delayed start hands out the delay itself as the first wait, with the
/// plugin not yet called, and calls the plugin only when asked again, that
/// is after the wait has been completed.
pub proof fn lemma_delayed_start_waits_first(
    delay: Duration,
    frequency: FrequencyOptions,
    deadline: Option<u128>,
    steps: Seq<Step>,
)
    requires
        is_run(StartupMode::Delayed(delay), frequency, deadline, steps),
    ensures
        steps[0].action == LoopAction::Wait(delay),
        steps[0].state == LoopState::AwaitingStart,
        invocations(steps.take(1)) == 0,
        steps.len() > 1 ==> steps[1].action == LoopAction::Invoke && steps[1].state
            == LoopState::Running,
{
    let head = steps.take(1);
    assert(head.drop_last() =~= Seq::<Step>::empty());
    assert(invocations(head.drop_last()) == 0);
    assert(head.last() == steps[0]);
    if steps.len() > 1 {
        assert(follows(frequency, deadline, steps[0], steps[1]));
    }
}

/// With every instant past the deadline the state bounds the length of the
/// loop so far, and the plugin has been called once as soon as the start is
/// no longer awaited.
proof fn lemma_past_deadline_states(
    startup: StartupMode,
    frequency: FrequencyOptions,
    t: u128,
    steps: Seq<Step>,
)
    requires
        is_run(startup, frequency, Some(t), steps),
        all_past(steps, t),
    ensures
        match steps.last().state {
            LoopState::AwaitingStart => invocations(steps) == 0 && steps.len() == 1,
            LoopState::Running => invocations(steps) == 1 && steps.len() <= 2,
            LoopState::Waiting => invocations(steps) == 1 && steps.len() <= 3,
            LoopState::Terminated => invocations(steps) == 1,
        },
    decreases steps.len(),
{
    let deadline = Some(t);
    if steps.len() == 1 {
        assert(steps.drop_last() =~= Seq::<Step>::empty());
        assert(invocations(steps.drop_last()) == 0);
    } else {
        let head = steps.drop_last();
        assert(head =~= steps.take(steps.len() - 1));
        lemma_run_prefix(startup, frequency, deadline, steps, steps.len() - 1);
        assert(all_past(head, t)) by {
            assert forall|i: int| 1 <= i < head.len() implies (#[trigger] head[i]).now > t by {
                assert(head[i] == steps[i]);
            }
        }
        lemma_past_deadline_states(startup, frequency, t, head);
        assert(head.last() == steps[steps.len() - 2]);
        assert(follows(frequency, deadline, steps[steps.len() - 2], steps[steps.len() - 1]));
        assert(steps[steps.len() - 1].now > t);
    }
}

/// With a deadline that has passed before the loop starts, the plugin is
/// called once and no more, whatever its frequency: the loop has ended by
/// the fourth step at the latest, that is after the initial wait, the one
/// call and one wait between runs.
pub proof fn lemma_past_deadline_runs_once(
    startup: StartupMode,
    frequency: FrequencyOptions,
    t: u128,
    steps: Seq<Step>,
)
    requires
        is_run(startup, frequency, Some(t), steps),
        all_past(steps, t),
    ensures
        invocations(steps) <= 1,
        steps.len() >= 4 ==> steps.last().state == LoopState::Terminated,
        steps.last().state == LoopState::Terminated ==> invocations(steps) == 1,
{
    lemma_past_deadline_states(startup, frequency, t, steps);
}

} // verus!
