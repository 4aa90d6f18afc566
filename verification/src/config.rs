//! The typed configuration of a run: durations, startup and recurrence
//! policies, and the per-plugin and global settings, with the checks that
//! make a configuration valid.

use vstd::prelude::*;
use crate::dict::Dict;

verus! {

/// Nanoseconds in one second.
pub const NANOS_PER_SEC: u32 = 1_000_000_000;

/// The longest duration that can be held, in nanoseconds: `u64::MAX` seconds
/// and 999,999,999 nanoseconds.
pub const MAX_NANOS: u128 = 18_446_744_073_709_551_615_999_999_999;

/// A rejected configuration.
#[derive(Clone, Copy, Debug, PartialEq, Eq)]
pub enum ConfigError {
    /// A random range whose lower bound lies above its upper bound.
    InvalidRange,
    /// A duration text that is not in ISO 8601 duration notation.
    UnparsableDuration,
}

/// A span of time with nanosecond resolution. Its view is the number of
/// nanoseconds.
#[derive(Clone, Copy, Debug, PartialEq, Eq, Structural)]
pub struct Duration {
    secs: u64,
    nanos: u32,
}

impl View for Duration {
    type V = nat;

    closed spec fn view(&self) -> nat {
        (self.secs as nat) * 1_000_000_000 + (self.nanos as nat)
    }
}

/// An ISO 8601 duration by its fields, as written.
#[derive(Clone, Copy, Debug, PartialEq, Eq)]
pub enum IsoDuration {
    /// Calendar and clock units.
    Ymdhms {
        year: u32,
        month: u32,
        day: u32,
        hour: u32,
        minute: u32,
        second: u32,
        millisecond: u32,
    },
    /// A number of weeks.
    Weeks(u32),
}

/// The length of an ISO 8601 duration in nanoseconds, a year counted as 365
/// days and a month as 30.
pub open spec fn iso_duration_nanos(d: IsoDuration) -> nat {
    match d {
        IsoDuration::Ymdhms { year, month, day, hour, minute, second, millisecond } => {
            ((year as nat) * 365 * 86_400 + (month as nat) * 30 * 86_400 + (day as nat) * 86_400 + (
            hour as nat) * 3_600 + (minute as nat) * 60 + (second as nat)) * 1_000_000_000 + (
            millisecond as nat) * 1_000_000
        },
        IsoDuration::Weeks(weeks) => (weeks as nat) * 7 * 86_400 * 1_000_000_000,
    }
}

/// What `iso8601::duration` makes of a text: the fields of the duration it
/// reads, or `None` where it reports a parse error.
pub uninterp spec fn iso8601_duration_of(text: Seq<char>) -> Option<IsoDuration>;

/// What `std::time::Duration::new` builds from whole seconds and a
/// nanosecond part below one second.
pub uninterp spec fn std_duration_of(secs: u64, nanos: u32) -> std::time::Duration;

/// Calls `iso8601::duration` on `text` and hands out the fields of the
/// parsed duration. Trusted: the result is the parser's answer for this text,
/// which depends on the text alone.
#[verifier::external_body]
fn iso8601_duration(text: &str) -> (r: Option<IsoDuration>)
    ensures
        r == iso8601_duration_of(text@),
{
    match iso8601::duration(text) {
        Ok(
            iso8601::Duration::YMDHMS { year, month, day, hour, minute, second, millisecond },
        ) => Some(IsoDuration::Ymdhms { year, month, day, hour, minute, second, millisecond }),
        Ok(iso8601::Duration::Weeks(weeks)) => Some(IsoDuration::Weeks(weeks)),
        Err(_) => None,
    }
}

/// Calls `std::time::Duration::new`. Trusted: the result is the standard
/// duration of `secs` seconds and `nanos` nanoseconds. With `nanos` below one
/// second nothing is carried, so the call cannot overflow.
#[verifier::external_body]
fn std_duration(secs: u64, nanos: u32) -> (r: std::time::Duration)
    requires
        nanos < NANOS_PER_SEC,
    ensures
        r == std_duration_of(secs, nanos),
{
    std::time::Duration::new(secs, nanos)
}

impl Duration {
    #[verifier::type_invariant]
    spec fn nanos_below_one_second(&self) -> bool {
        self.nanos < NANOS_PER_SEC
    }

    /// A duration of `secs` whole seconds.
    pub fn from_secs(secs: u64) -> (d: Duration)
        ensures
            d@ == secs * 1_000_000_000,
    {
        Duration { secs, nanos: 0 }
    }

    /// A duration of `nanos` nanoseconds, if that many can be held.
    pub fn from_nanos(nanos: u128) -> (r: Option<Duration>)
        ensures
            match r {
                Some(d) => d@ == nanos,
                None => nanos > MAX_NANOS,
            },
    {
        if nanos > MAX_NANOS {
            None
        } else {
            let secs = (nanos / 1_000_000_000) as u64;
            let rest = (nanos % 1_000_000_000) as u32;
            Some(Duration { secs, nanos: rest })
        }
    }

    /// A duration of `secs` seconds and `nanos` nanoseconds. Nanoseconds of
    /// one second or more are carried over into the seconds; `None` when that
    /// exceeds the longest duration.
    pub fn new(secs: u64, nanos: u32) -> (r: Option<Duration>)
        ensures
            match r {
                Some(d) => d@ == secs * 1_000_000_000 + nanos,
                None => secs * 1_000_000_000 + nanos > MAX_NANOS,
            },
    {
        Duration::from_nanos((secs as u128) * 1_000_000_000 + (nanos as u128))
    }

    /// The duration in nanoseconds.
    pub fn as_nanos(&self) -> (n: u128)
        ensures
            n == self@,
            n <= MAX_NANOS,
    {
        proof {
            use_type_invariant(self);
        }
        (self.secs as u128) * 1_000_000_000 + (self.nanos as u128)
    }

    /// The whole seconds of the duration.
    pub fn as_secs(&self) -> (s: u64)
        ensures
            s == self@ / 1_000_000_000,
    {
        proof {
            use_type_invariant(self);
        }
        self.secs
    }

    /// The part of the duration below one second, in nanoseconds.
    pub fn subsec_nanos(&self) -> (n: u32)
        ensures
            n == self@ % 1_000_000_000,
            n < NANOS_PER_SEC,
    {
        proof {
            use_type_invariant(self);
        }
        self.nanos
    }

    /// The same span of time as a duration of the standard library.
    pub fn as_std(&self) -> (r: std::time::Duration)
        ensures
            r == std_duration_of(
                (self@ / 1_000_000_000) as u64,
                (self@ % 1_000_000_000) as u32,
            ),
    {
        std_duration(self.as_secs(), self.subsec_nanos())
    }

    /// Whether this duration is no longer than `other`.
    pub fn le(&self, other: &Duration) -> (r: bool)
        ensures
            r == (self@ <= other@),
    {
        self.as_nanos() <= other.as_nanos()
    }

    /// The length of an ISO 8601 duration given by its fields.
    pub fn from_iso(d: IsoDuration) -> (r: Duration)
        ensures
            r@ == iso_duration_nanos(d),
    {
        let total: u128 = match d {
            IsoDuration::Ymdhms { year, month, day, hour, minute, second, millisecond } => {
                let secs: u128 = (year as u128) * 365 * 86_400 + (month as u128) * 30 * 86_400 + (
                day as u128) * 86_400 + (hour as u128) * 3_600 + (minute as u128) * 60 + (
                second as u128);
                secs * 1_000_000_000 + (millisecond as u128) * 1_000_000
            },
            IsoDuration::Weeks(weeks) => (weeks as u128) * 7 * 86_400 * 1_000_000_000,
        };
        Duration { secs: (total / 1_000_000_000) as u64, nanos: (total % 1_000_000_000) as u32 }
    }

    /// The duration for what the ISO 8601 parser made of a text: its length
    /// where it read a duration, an error where it read none.
    pub fn from_parsed(parsed: Option<IsoDuration>) -> (r: Result<Duration, ConfigError>)
        ensures
            match parsed {
                Some(d) => r is Ok && r->Ok_0@ == iso_duration_nanos(d),
                None => r == Err::<Duration, ConfigError>(ConfigError::UnparsableDuration),
            },
    {
        match parsed {
            Some(d) => Ok(Duration::from_iso(d)),
            None => Err(ConfigError::UnparsableDuration),
        }
    }

    /// Reads a duration in ISO 8601 notation, such as `PT10S`, `P1DT12H` or
    /// `P2W`.
    pub fn parse(text: &str) -> (r: Result<Duration, ConfigError>)
        ensures
            match iso8601_duration_of(text@) {
                Some(d) => r is Ok && r->Ok_0@ == iso_duration_nanos(d),
                None => r == Err::<Duration, ConfigError>(ConfigError::UnparsableDuration),
            },
    {
        Duration::from_parsed(iso8601_duration(text))
    }
}

/// When a plugin runs for the first time.
#[derive(Clone, Copy, Debug, PartialEq, Eq)]
pub enum StartupOptions {
    /// At once.
    Hot,
    /// After one recurrence interval.
    Cold,
    /// After the given delay.
    Delayed(Duration),
}

/// The two ends of a range.
#[derive(Clone, Copy, Debug, PartialEq, Eq)]
pub struct RandomRange<T> {
    pub min: T,
    pub max: T,
}

/// How often a plugin runs.
#[derive(Clone, Copy, Debug, PartialEq, Eq)]
pub enum FrequencyOptions {
    /// A single run.
    Once,
    /// Runs separated by a fixed wait.
    Fixed(Duration),
    /// Runs separated by a wait drawn from a range.
    Random(RandomRange<Duration>),
}

impl FrequencyOptions {
    /// A random range is valid when its lower bound does not lie above its
    /// upper bound; the other policies are always valid.
    pub open spec fn valid(&self) -> bool {
        match *self {
            FrequencyOptions::Random(range) => range.min@ <= range.max@,
            _ => true,
        }
    }

    /// The policy of waits drawn from `min` to `max`, rejected when `min`
    /// lies above `max`.
    pub fn random(min: Duration, max: Duration) -> (r: Result<FrequencyOptions, ConfigError>)
        ensures
            min@ <= max@ ==> r == Ok::<FrequencyOptions, ConfigError>(
                FrequencyOptions::Random(RandomRange { min, max }),
            ),
            min@ > max@ ==> r == Err::<FrequencyOptions, ConfigError>(ConfigError::InvalidRange),
    {
        if min.le(&max) {
            Ok(FrequencyOptions::Random(RandomRange { min, max }))
        } else {
            Err(ConfigError::InvalidRange)
        }
    }

    /// Checks the policy.
    pub fn validate(&self) -> (r: Result<(), ConfigError>)
        ensures
            self.valid() ==> r == Ok::<(), ConfigError>(()),
            !self.valid() ==> r == Err::<(), ConfigError>(ConfigError::InvalidRange),
    {
        match self {
            FrequencyOptions::Random(range) => {
                if range.min.le(&range.max) {
                    Ok(())
                } else {
                    Err(ConfigError::InvalidRange)
                }
            },
            _ => Ok(()),
        }
    }
}

/// The status schedule of one plugin and the tags added to its metrics.
#[derive(Clone, Debug)]
pub struct MonitoringOptions {
    pub frequency: FrequencyOptions,
    pub extra_tags: Option<Dict<String>>,
}

/// The metrics sink and the tags added to every metric of the run.
#[derive(Clone, Debug)]
pub struct GlobalMonitoringOptions {
    pub dsn: String,
    pub extra_tags: Option<Dict<String>>,
}

/// One configured plugin.
#[derive(Clone, Debug)]
pub struct PluginConfig {
    pub name: String,
    pub startup: StartupOptions,
    pub frequency: FrequencyOptions,
    pub monitoring: Option<MonitoringOptions>,
    pub options: Option<Dict<String>>,
}

impl PluginConfig {
    /// Both schedules of the plugin are valid.
    pub open spec fn valid(&self) -> bool {
        &&& self.frequency.valid()
        &&& self.monitoring matches Some(m) ==> m.frequency.valid()
    }

    /// Checks both schedules of the plugin.
    pub fn validate(&self) -> (r: Result<(), ConfigError>)
        ensures
            self.valid() ==> r == Ok::<(), ConfigError>(()),
            !self.valid() ==> r == Err::<(), ConfigError>(ConfigError::InvalidRange),
    {
        match self.frequency.validate() {
            Ok(()) => {},
            Err(e) => {
                return Err(e);
            },
        }
        match &self.monitoring {
            Some(m) => m.frequency.validate(),
            None => Ok(()),
        }
    }
}

/// The configuration of a whole run.
#[derive(Clone, Debug)]
pub struct KittypawsConfig {
    pub duration: Option<Duration>,
    pub plugins: Vec<PluginConfig>,
    pub monitoring: Option<GlobalMonitoringOptions>,
}

impl KittypawsConfig {
    /// Every plugin entry is valid.
    pub open spec fn valid(&self) -> bool {
        forall|i: int| 0 <= i < self.plugins@.len() ==> (#[trigger] self.plugins@[i]).valid()
    }

    /// Checks every plugin entry, before any worker starts.
    pub fn validate(&self) -> (r: Result<(), ConfigError>)
        ensures
            self.valid() ==> r == Ok::<(), ConfigError>(()),
            !self.valid() ==> r == Err::<(), ConfigError>(ConfigError::InvalidRange),
    {
        let n = self.plugins.len();
        let mut i: usize = 0;
        while i < n
            invariant
                n == self.plugins@.len(),
                i <= n,
                forall|j: int| 0 <= j < i ==> (#[trigger] self.plugins@[j]).valid(),
            decreases n - i,
        {
            match self.plugins[i].validate() {
                Ok(()) => {},
                Err(e) => {
                    assert(!self.plugins@[i as int].valid());
                    return Err(e);
                },
            }
            i = i + 1;
        }
        Ok(())
    }
}

/// A type whose values can be read from the options of a plugin.
pub trait FromConfig<T> {
    /// The value that the options stand for, or why they stand for none.
    fn from_config(config: &Dict<String>) -> Result<T, String>;
}

} // verus!
