//! The scheduler: how long a worker waits between two runs of a plugin.

use vstd::prelude::*;
use rand::Rng;
use crate::config::{Duration, FrequencyOptions};

verus! {

/// Draws a number from `low` up to, not including, `high` with
/// `rand::Rng::gen_range` on the thread's generator. Trusted: the number lies
/// in that range. The call panics on an empty range, which `requires` leaves
/// out.
#[verifier::external_body]
pub(crate) fn random_between(low: u128, high: u128) -> (r: u128)
    requires
        low < high,
    ensures
        low <= r < high,
{
    rand::thread_rng().gen_range(low..high)
}

/// The number of nanoseconds waited for a draw `sample` from a range: the
/// draw itself where it lies in the range, the nearest end of the range where
/// it does not, and the lower bound where the range holds no number.
pub open spec fn sample_in_range(min: nat, max: nat, sample: nat) -> nat {
    if min >= max {
        min
    } else if sample < min {
        min
    } else if sample >= max {
        (max - 1) as nat
    } else {
        sample
    }
}

/// Whether `wait` is a wait that the policy `frequency` allows between two
/// runs: none after a single run, the fixed wait, or a wait within the
/// random range, its upper bound excluded. A range whose bounds coincide
/// allows that one wait only.
pub open spec fn wait_allowed(frequency: FrequencyOptions, wait: Option<Duration>) -> bool {
    match frequency {
        FrequencyOptions::Once => wait is None,
        FrequencyOptions::Fixed(d) => wait == Some(d),
        FrequencyOptions::Random(range) => wait matches Some(w) && if range.min@ < range.max@ {
            range.min@ <= w@ < range.max@
        } else {
            w@ == range.min@
        },
    }
}

/// The wait that `frequency` asks for, given the number drawn for a random
/// range.
pub fn wait_for_sample(frequency: &FrequencyOptions, sample: u128) -> (r: Option<Duration>)
    requires
        frequency.valid(),
    ensures
        match *frequency {
            FrequencyOptions::Once => r is None,
            FrequencyOptions::Fixed(d) => r == Some(d),
            FrequencyOptions::Random(range) => r matches Some(w) && w@ == sample_in_range(
                range.min@,
                range.max@,
                sample as nat,
            ),
        },
        wait_allowed(*frequency, r),
{
    match frequency {
        FrequencyOptions::Once => None,
        FrequencyOptions::Fixed(d) => Some(*d),
        FrequencyOptions::Random(range) => {
            let low = range.min.as_nanos();
            let high = range.max.as_nanos();
            let nanos = if low >= high {
                low
            } else if sample < low {
                low
            } else if sample >= high {
                high - 1
            } else {
                sample
            };
            Duration::from_nanos(nanos)
        },
    }
}

/// The wait before the next run: none for a single run, the fixed wait, or a
/// wait drawn uniformly from the random range, with nanosecond resolution.
pub fn time_till_next_run(frequency: &FrequencyOptions) -> (r: Option<Duration>)
    requires
        frequency.valid(),
    ensures
        wait_allowed(*frequency, r),
        *frequency is Once <==> r is None,
{
    match frequency {
        FrequencyOptions::Random(range) => {
            let low = range.min.as_nanos();
            let high = range.max.as_nanos();
            if low < high {
                wait_for_sample(frequency, random_between(low, high))
            } else {
                wait_for_sample(frequency, low)
            }
        },
        _ => wait_for_sample(frequency, 0),
    }
}

} // verus!
