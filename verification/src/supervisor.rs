//! What the supervisor decides for a whole run: which workers a plugin
//! gets, the deadline all workers share, and what one turn of the status
//! loop hands to the metrics sink.

use vstd::prelude::*;
use crate::config::{Duration, GlobalMonitoringOptions, PluginConfig};
use crate::dict::Dict;
use crate::bash_plugin::readings;
use crate::monitoring::{
    is_delivery_report,
    send_to,
    MetricPoint,
    MetricSender,
    StatusReading,
    StatusValue,
};
use crate::plug::{failure_text, get_status, PluginInterface, PluginStatusValue, RuntimeError};
use crate::worker::{first_step, startup_mode_of, LoopAction, StartupMode, Worker};

verus! {

/// What all workers of one run share: the identifier of the run and the
/// instant after which no further run of a plugin starts, in nanoseconds
/// since the origin of the clock.
#[derive(Clone, Debug, PartialEq, Eq)]
pub struct RunContext {
    pub run_id: String,
    pub deadline: Option<u128>,
}

/// Makes a random identifier with `uuid::Uuid::new_v4` and writes it as
/// text. Trusted: the text has the 36 characters of the hyphenated form.
/// Which identifier comes is chance.
#[verifier::external_body]
fn new_run_id() -> (r: String)
    ensures
        r@.len() == 36,
{
    uuid::Uuid::new_v4().to_string()
}

/// The deadline of a run that starts at `now` and may take `run_duration`.
pub open spec fn deadline_for(now: nat, run_duration: Option<Duration>) -> Option<u128> {
    match run_duration {
        Some(d) => Some((now + d@) as u128),
        None => None,
    }
}

impl RunContext {
    /// The context of the run `run_id` that starts at the instant `now`.
    /// With a total run duration the deadline is that long after `now`;
    /// without one there is no deadline.
    pub fn with_run_id(run_id: String, now: &Duration, run_duration: &Option<Duration>) -> (r:
        RunContext)
        ensures
            r.run_id == run_id,
            r.deadline == deadline_for(now@, *run_duration),
            run_duration matches Some(d) ==> r.deadline == Some((now@ + d@) as u128) && now@ + d@
                <= u128::MAX,
    {
        let deadline = match run_duration {
            Some(d) => Some(now.as_nanos() + d.as_nanos()),
            None => None,
        };
        RunContext { run_id, deadline }
    }

    /// The context of a new run that starts at the instant `now`, under an
    /// identifier of its own.
    pub fn new(now: &Duration, run_duration: &Option<Duration>) -> (r: RunContext)
        ensures
            r.run_id@.len() == 36,
            r.deadline == deadline_for(now@, *run_duration),
    {
        RunContext::with_run_id(new_run_id(), now, run_duration)
    }

    /// Whether the deadline lies before the instant `now`.
    pub fn deadline_passed(&self, now: &Duration) -> (r: bool)
        ensures
            r == crate::worker::deadline_passed(self.deadline, now@),
    {
        match self.deadline {
            Some(t) => now.as_nanos() > t,
            None => false,
        }
    }
}

/// The workers that one configured plugin gets.
#[derive(Clone, Copy, Debug, PartialEq, Eq)]
pub struct PluginPlan {
    /// A worker that runs the plugin.
    pub run: bool,
    /// A worker that reads the plugin's status.
    pub status: bool,
}

/// Decides which workers a plugin gets. A plugin that was resolved gets its
/// run worker, and a status worker too when both the run and the plugin are
/// configured for monitoring. A plugin that was not resolved gets none: it
/// is passed over, and the other plugins are not touched by that.
pub fn plan_plugin(
    config: &PluginConfig,
    monitoring: &Option<GlobalMonitoringOptions>,
    resolved: bool,
) -> (r: PluginPlan)
    ensures
        r.run == resolved,
        r.status == (resolved && monitoring is Some && config.monitoring is Some),
{
    PluginPlan {
        run: resolved,
        status: resolved && monitoring.is_some() && config.monitoring.is_some(),
    }
}

/// The worker of the run loop of a plugin, with the first thing to do.
pub fn start_execution_loop(config: &PluginConfig, context: &RunContext) -> (r: (
    Worker,
    LoopAction,
))
    requires
        config.valid(),
    ensures
        r.0.frequency() == config.frequency,
        r.0.deadline() == context.deadline,
        first_step(startup_mode_of(config.startup), config.frequency, r.0.state(), r.1),
{
    Worker::start(StartupMode::from(config.startup), config.frequency, context.deadline)
}

/// The worker of the status loop of a plugin, with the first thing to do,
/// for a plugin that is configured for monitoring. The loop starts as the
/// run loop does and then follows the monitoring frequency.
pub fn start_status_loop(config: &PluginConfig, context: &RunContext) -> (r: Option<
    (Worker, LoopAction),
>)
    requires
        config.valid(),
    ensures
        match config.monitoring {
            Some(monitoring) => {
                &&& r matches Some(started)
                &&& started.0.frequency() == monitoring.frequency
                &&& started.0.deadline() == context.deadline
                &&& first_step(
                    startup_mode_of(config.startup),
                    monitoring.frequency,
                    started.0.state(),
                    started.1,
                )
            },
            None => r is None,
        },
{
    match &config.monitoring {
        Some(monitoring) => Some(
            Worker::start(
                StartupMode::from(config.startup),
                monitoring.frequency,
                context.deadline,
            ),
        ),
        None => None,
    }
}

/// The tags that every point of plugin `name` in run `run_id` has.
pub open spec fn own_tags(name: Seq<char>, run_id: Seq<char>) -> Map<Seq<char>, Seq<char>> {
    Map::<Seq<char>, Seq<char>>::empty().insert("name"@, name).insert("run_id"@, run_id)
}

/// The tags held in `tags`, or none.
pub open spec fn tags_of(tags: Option<Dict<String>>) -> Map<Seq<char>, Seq<char>> {
    match tags {
        Some(tags) => texts(tags),
        None => Map::empty(),
    }
}

/// A dictionary of strings as a mapping between sequences of characters.
pub open spec fn texts(tags: Dict<String>) -> Map<Seq<char>, Seq<char>> {
    tags@.map_values(|v: String| v@)
}

/// The tags of a point: the plugin's name and the run's identifier, then
/// the tags of the run, then the tags of the plugin. Where two of them
/// have a tag of the same name, the later one counts.
pub open spec fn merged_tags(
    name: Seq<char>,
    run_id: Seq<char>,
    global: Map<Seq<char>, Seq<char>>,
    extra: Map<Seq<char>, Seq<char>>,
) -> Map<Seq<char>, Seq<char>> {
    own_tags(name, run_id).union_prefer_right(global).union_prefer_right(extra)
}

/// Adds the tags of `more`, if there are any, to `tags`.
fn add_tags(tags: &mut Dict<String>, more: &Option<Dict<String>>)
    ensures
        texts(*final(tags)) == texts(*old(tags)).union_prefer_right(tags_of(*more)),
{
    match more {
        Some(more) => {
            tags.extend(more);
            assert(texts(*tags) =~= texts(*old(tags)).union_prefer_right(texts(*more)));
        },
        None => {
            assert(texts(*tags) =~= texts(*old(tags)).union_prefer_right(Map::empty()));
        },
    }
}

/// The tags of a point of plugin `name` in the run `context`.
pub fn status_tags(
    name: &str,
    context: &RunContext,
    global_tags: &Option<Dict<String>>,
    extra_tags: &Option<Dict<String>>,
) -> (r: Dict<String>)
    ensures
        texts(r) == merged_tags(
            name@,
            context.run_id@,
            tags_of(*global_tags),
            tags_of(*extra_tags),
        ),
{
    let mut tags: Dict<String> = Dict::new();
    tags.insert("name".to_owned(), name.to_owned());
    tags.insert("run_id".to_owned(), context.run_id.clone());
    assert(texts(tags) =~= own_tags(name@, context.run_id@));
    add_tags(&mut tags, global_tags);
    add_tags(&mut tags, extra_tags);
    tags
}

/// The readings of the fields of a point.
pub open spec fn field_readings(fields: Dict<StatusValue>) -> Map<Seq<char>, StatusReading> {
    fields@.map_values(|v: StatusValue| v@)
}

/// The fields of a point for a status snapshot: the same names with the
/// same values.
pub fn status_fields(status: &Dict<PluginStatusValue>) -> (r: Dict<StatusValue>)
    ensures
        field_readings(r) == readings(*status),
{
    let n = status.len();
    let mut fields: Dict<StatusValue> = Dict::new();
    let mut i: usize = 0;
    let ghost source = status.pairs();
    assert(source.take(0) =~= Seq::<(Seq<char>, PluginStatusValue)>::empty());
    assert(field_readings(fields) =~= crate::dict::map_of(source.take(0)).map_values(
        |v: PluginStatusValue| v@,
    ));
    while i < n
        invariant
            n == status.pairs().len(),
            source == status.pairs(),
            i <= n,
            field_readings(fields) == crate::dict::map_of(source.take(i as int)).map_values(
                |v: PluginStatusValue| v@,
            ),
        decreases n - i,
    {
        let key = status.key_at(i).clone();
        let value = StatusValue::from(status.value_at(i));
        proof {
            let head = source.take(i as int);
            let next = source.take(i + 1);
            assert(next.drop_last() =~= head);
            assert(next.last() == source[i as int]);
            assert(crate::dict::map_of(next).map_values(|v: PluginStatusValue| v@)
                =~= crate::dict::map_of(head).map_values(|v: PluginStatusValue| v@).insert(
                key@,
                value@,
            ));
        }
        let ghost before = field_readings(fields);
        fields.insert(key, value);
        assert(field_readings(fields) =~= before.insert(key@, value@));
        i = i + 1;
    }
    assert(source.take(n as int) =~= source);
    fields
}

/// The point that one turn of the status loop hands to the sink: the
/// plugin's tags merged with those of the run and of the plugin's
/// monitoring settings, and the snapshot as fields.
pub fn status_point(
    name: &str,
    context: &RunContext,
    global_tags: &Option<Dict<String>>,
    extra_tags: &Option<Dict<String>>,
    status: &Dict<PluginStatusValue>,
) -> (r: MetricPoint)
    ensures
        r.measurement@ == crate::monitoring::measurement_name(),
        texts(r.tags) == merged_tags(
            name@,
            context.run_id@,
            tags_of(*global_tags),
            tags_of(*extra_tags),
        ),
        field_readings(r.fields) == readings(*status),
        r.timestamp is None,
{
    MetricPoint::new(status_tags(name, context, global_tags, extra_tags), status_fields(status))
}

/// What one turn of the status loop gave: the snapshot that the plugin
/// reported, and the line to log where the delivery to the sink failed.
#[derive(Debug)]
pub struct StatusTurn {
    pub status: Dict<PluginStatusValue>,
    pub notice: Option<String>,
}

/// One turn of the status loop of plugin `name`. The plugin is asked for
/// its status with `options`. A failure of the plugin ends the turn with the
/// text with which the runner gives up, and the sink is not touched.
/// Otherwise the sink is handed, once, the tags of the plugin merged with
/// those of the run and of the plugin's monitoring settings, and the
/// snapshot as fields; a failed delivery leaves a line to log and is no
/// error of the turn.
pub fn status_turn<P: PluginInterface, S: MetricSender>(
    name: &str,
    plugin: &P,
    options: &Dict<String>,
    context: &RunContext,
    global_tags: &Option<Dict<String>>,
    extra_tags: &Option<Dict<String>>,
    sink: &mut S,
) -> (r: Result<StatusTurn, String>)
    ensures
        match r {
            Ok(turn) => exists|
                handed: &mut S,
                tags: Dict<String>,
                fields: Dict<StatusValue>,
                delivered: Result<(), String>,
            |
                {
                    &&& call_ensures(
                        P::status,
                        (plugin, options),
                        Ok::<Dict<PluginStatusValue>, RuntimeError>(turn.status),
                    )
                    &&& #[trigger] call_ensures(S::send_metric, (handed, tags, fields), delivered)
                    &&& mut_ref_current(handed) == *old(sink)
                    &&& mut_ref_future(handed) == *final(sink)
                    &&& texts(tags) == merged_tags(
                        name@,
                        context.run_id@,
                        tags_of(*global_tags),
                        tags_of(*extra_tags),
                    )
                    &&& field_readings(fields) == readings(turn.status)
                    &&& is_delivery_report(delivered, turn.notice)
                },
            Err(text) => {
                &&& *final(sink) == *old(sink)
                &&& exists|error: RuntimeError|
                    {
                        &&& #[trigger] call_ensures(
                            P::status,
                            (plugin, options),
                            Err::<Dict<PluginStatusValue>, RuntimeError>(error),
                        )
                        &&& text@ == failure_text(name@, error.message_text())
                    }
            },
        },
{
    match get_status(name, plugin, options) {
        Ok(status) => {
            let point = status_point(name, context, global_tags, extra_tags, &status);
            let notice = send_to(sink, point.tags, point.fields);
            Ok(StatusTurn { status, notice })
        },
        Err(text) => Err(text),
    }
}

/// Tags of the plugin's monitoring settings override tags of the run with
/// the same name, and both override the plugin's name and the run's
/// identifier; a tag that only one of them has is kept.
pub proof fn lemma_later_tags_win(
    name: Seq<char>,
    run_id: Seq<char>,
    global: Map<Seq<char>, Seq<char>>,
    extra: Map<Seq<char>, Seq<char>>,
    tag: Seq<char>,
)
    ensures
        extra.contains_key(tag) ==> merged_tags(name, run_id, global, extra)[tag] == extra[tag],
        !extra.contains_key(tag) && global.contains_key(tag) ==> merged_tags(
            name,
            run_id,
            global,
            extra,
        )[tag] == global[tag],
        !extra.contains_key(tag) && !global.contains_key(tag) && tag == "name"@ ==> merged_tags(
            name,
            run_id,
            global,
            extra,
        )[tag] == name,
        !extra.contains_key(tag) && !global.contains_key(tag) && tag == "run_id"@ ==> merged_tags(
            name,
            run_id,
            global,
            extra,
        )[tag] == run_id,
        merged_tags(name, run_id, global, extra).contains_key(tag) <==> extra.contains_key(tag)
            || global.contains_key(tag) || tag == "name"@ || tag == "run_id"@,
{
    reveal_strlit("name");
    reveal_strlit("run_id");
    assert("name"@ != "run_id"@) by {
        assert("name"@.len() == 4);
        assert("run_id"@.len() == 6);
    }
}

} // verus!
