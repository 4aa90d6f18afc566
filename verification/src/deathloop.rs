//! The decisions of the container-restart plugin: what its options mean,
//! which container it restarts, and how long it rests between restarts.

use vstd::prelude::*;
use crate::dict::Dict;
use crate::intervals::random_between;
use crate::text::{contains_name, has_name};

verus! {

/// The plugin that restarts a container again and again.
#[derive(Clone, Debug, PartialEq, Eq)]
pub struct ContainerRestartPlugin {
    pub name: String,
}

/// How the plugin goes on after a restart.
#[derive(Clone, Copy, Debug, PartialEq, Eq)]
pub enum Frequency {
    /// Rest for the interval, then restart again.
    Fixed,
    /// Rest for a time drawn between the least interval and the interval,
    /// then restart again.
    Random,
    /// Stop.
    Once,
}

/// Why the plugin cannot do its work.
#[derive(Clone, Copy, Debug, PartialEq, Eq)]
pub enum RestartError {
    /// The options name no target container.
    NoTarget,
    /// The frequency is none of `fixed`, `random` and `once`.
    InvalidFrequency,
    /// The least interval is not below the interval, so that there is no
    /// time to draw.
    EmptyRange,
}

/// One container as the container engine lists it.
#[derive(Clone, Debug, PartialEq, Eq)]
pub struct ContainerInfo {
    pub id: String,
    pub names: Vec<String>,
}

/// The frequency that an option value stands for; `fixed` where the option
/// is not set.
pub open spec fn frequency_of(value: Option<Seq<char>>) -> Result<Frequency, RestartError> {
    match value {
        None => Ok(Frequency::Fixed),
        Some(text) => if text == "fixed"@ {
            Ok(Frequency::Fixed)
        } else if text == "random"@ {
            Ok(Frequency::Random)
        } else if text == "once"@ {
            Ok(Frequency::Once)
        } else {
            Err(RestartError::InvalidFrequency)
        },
    }
}

/// The text of an optional string.
pub open spec fn option_text(value: Option<&String>) -> Option<Seq<char>> {
    match value {
        Some(text) => Some(text@),
        None => None,
    }
}

/// The name under which the engine lists the container `name`.
pub open spec fn listed_name(name: Seq<char>) -> Seq<char> {
    seq!['/'] + name
}

/// Position of the first container of `containers` that is listed under
/// `name`, or the number of containers where none is.
pub open spec fn first_listed(containers: Seq<ContainerInfo>, name: Seq<char>) -> nat
    decreases containers.len(),
{
    if containers.len() == 0 {
        0
    } else if has_name(containers[0].names@, listed_name(name)) {
        0
    } else {
        1 + first_listed(containers.drop_first(), name)
    }
}

proof fn lemma_first_listed_is(containers: Seq<ContainerInfo>, name: Seq<char>, k: int)
    requires
        0 <= k <= containers.len(),
        k < containers.len() ==> has_name(containers[k].names@, listed_name(name)),
        forall|j: int|
            0 <= j < k ==> !has_name((#[trigger] containers[j]).names@, listed_name(name)),
    ensures
        first_listed(containers, name) == k,
    decreases containers.len(),
{
    if containers.len() != 0 && k > 0 {
        let rest = containers.drop_first();
        assert(!has_name(containers[0].names@, listed_name(name)));
        assert forall|j: int| 0 <= j < k - 1 implies !has_name(
            (#[trigger] rest[j]).names@,
            listed_name(name),
        ) by {
            assert(rest[j] == containers[j + 1]);
        }
        if k < containers.len() {
            assert(rest[k - 1] == containers[k]);
        }
        lemma_first_listed_is(rest, name, k - 1);
    }
}

impl ContainerRestartPlugin {
    /// The plugin under its name, `deathloop`.
    pub fn new() -> (r: ContainerRestartPlugin)
        ensures
            r.name@ == "deathloop"@,
    {
        ContainerRestartPlugin { name: "deathloop".to_owned() }
    }

    /// The line that announces `event` of this plugin.
    pub open spec fn notice_text(&self, event: Seq<char>) -> Seq<char> {
        seq!['['] + self.name@ + seq![']', ' '] + event
    }

    /// The line that announces `event` of this plugin.
    pub fn notice(&self, event: &str) -> (r: String)
        ensures
            r@ == self.notice_text(event@),
    {
        proof {
            reveal_strlit("[");
            reveal_strlit("] ");
        }
        let r = "[".to_owned().concat(self.name.as_str()).concat("] ").concat(event);
        assert(r@ =~= self.notice_text(event@));
        r
    }

    /// The container to restart: the option `target`.
    pub fn target(config: &Dict<String>) -> (r: Result<&String, RestartError>)
        ensures
            match r {
                Ok(target) => config@.contains_key("target"@) && *target == config@["target"@],
                Err(error) => !config@.contains_key("target"@) && error == RestartError::NoTarget,
            },
    {
        let key = "target".to_owned();
        match config.get(&key) {
            Some(target) => Ok(target),
            None => Err(RestartError::NoTarget),
        }
    }

    /// The frequency that the option `frequency` stands for.
    pub fn read_frequency(value: Option<&String>) -> (r: Result<Frequency, RestartError>)
        ensures
            r == frequency_of(option_text(value)),
    {
        match value {
            None => Ok(Frequency::Fixed),
            Some(text) => {
                if crate::text::str_eq(text.as_str(), "fixed") {
                    Ok(Frequency::Fixed)
                } else if crate::text::str_eq(text.as_str(), "random") {
                    Ok(Frequency::Random)
                } else if crate::text::str_eq(text.as_str(), "once") {
                    Ok(Frequency::Once)
                } else {
                    Err(RestartError::InvalidFrequency)
                }
            },
        }
    }

    /// The text of the interval option `key`, or `default` where it is not
    /// set.
    pub fn interval_text<'a>(config: &'a Dict<String>, key: &str, default: &'a str) -> (r: &'a str)
        ensures
            config@.contains_key(key@) ==> r@ == config@[key@]@,
            !config@.contains_key(key@) ==> r@ == default@,
    {
        let key = key.to_owned();
        match config.get(&key) {
            Some(text) => text.as_str(),
            None => default,
        }
    }

    /// The identifier of the container that the engine lists under `name`:
    /// the first of `containers` that has the name with a slash before it
    /// among its names.
    pub fn get_container_id(containers: &Vec<ContainerInfo>, name: &str) -> (r: Option<String>)
        ensures
            match r {
                Some(id) => first_listed(containers@, name@) < containers@.len() && id
                    == containers@[first_listed(containers@, name@) as int].id,
                None => first_listed(containers@, name@) == containers@.len(),
            },
    {
        proof {
            reveal_strlit("/");
        }
        let listed = "/".to_owned().concat(name);
        assert(listed@ =~= listed_name(name@));
        let n = containers.len();
        let mut i: usize = 0;
        while i < n
            invariant
                n == containers@.len(),
                i <= n,
                listed@ == listed_name(name@),
                forall|j: int|
                    0 <= j < i ==> !has_name(
                        (#[trigger] containers@[j]).names@,
                        listed_name(name@),
                    ),
            decreases n - i,
        {
            if contains_name(&containers[i].names, listed.as_str()) {
                proof {
                    lemma_first_listed_is(containers@, name@, i as int);
                }
                return Some(containers[i].id.clone());
            }
            i = i + 1;
        }
        proof {
            lemma_first_listed_is(containers@, name@, n as int);
        }
        None
    }

    /// The rest after a restart, in seconds, for a number `sample` drawn
    /// from the least interval up to, not including, the interval: the
    /// interval for the fixed frequency, the number drawn for the random
    /// one, none where the plugin stops.
    pub fn rest_for_sample(frequency: Frequency, interval: u64, sample: u64) -> (r: Option<u64>)
        ensures
            r == match frequency {
                Frequency::Fixed => Some(interval),
                Frequency::Random => Some(sample),
                Frequency::Once => None,
            },
    {
        match frequency {
            Frequency::Fixed => Some(interval),
            Frequency::Random => Some(sample),
            Frequency::Once => None,
        }
    }

    /// The rest after a restart, in seconds. The random frequency needs a
    /// least interval below the interval.
    pub fn rest_seconds(frequency: Frequency, interval: u64, min_interval: u64) -> (r: Result<
        Option<u64>,
        RestartError,
    >)
        ensures
            match frequency {
                Frequency::Fixed => r == Ok::<Option<u64>, RestartError>(Some(interval)),
                Frequency::Once => r == Ok::<Option<u64>, RestartError>(None),
                Frequency::Random => if min_interval < interval {
                    r matches Ok(Some(rest)) && min_interval <= rest < interval
                } else {
                    r == Err::<Option<u64>, RestartError>(RestartError::EmptyRange)
                },
            },
    {
        match frequency {
            Frequency::Random => {
                if min_interval < interval {
                    let sample = random_between(min_interval as u128, interval as u128) as u64;
                    Ok(ContainerRestartPlugin::rest_for_sample(frequency, interval, sample))
                } else {
                    Err(RestartError::EmptyRange)
                }
            },
            _ => Ok(ContainerRestartPlugin::rest_for_sample(frequency, interval, 0)),
        }
    }
}

impl RestartError {
    /// The text of this error.
    pub open spec fn message_text(&self) -> Seq<char> {
        match *self {
            RestartError::NoTarget => "No target specified"@,
            RestartError::InvalidFrequency => "Invalid frequency"@,
            RestartError::EmptyRange => "cannot sample empty range"@,
        }
    }

    /// The text of this error.
    pub fn message(&self) -> (r: &'static str)
        ensures
            r@ == self.message_text(),
    {
        match self {
            RestartError::NoTarget => "No target specified",
            RestartError::InvalidFrequency => "Invalid frequency",
            RestartError::EmptyRange => "cannot sample empty range",
        }
    }
}

} // verus!
