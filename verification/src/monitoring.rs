//! The metrics side of the status loop: the values a sink accepts, the point
//! that is handed to it, and what becomes of a failed delivery.

use vstd::prelude::*;
use crate::dict::Dict;

verus! {

/// A status value with its texts as sequences of characters.
pub enum StatusReading {
    Int(i64),
    Float(Seq<char>),
    Text(Seq<char>),
}

/// One field value of a metric point. A floating-point value is kept as the
/// text that wrote it.
#[derive(Clone, Debug, PartialEq, Eq)]
pub enum StatusValue {
    Int(i64),
    Float(String),
    String(String),
}

impl View for StatusValue {
    type V = StatusReading;

    open spec fn view(&self) -> StatusReading {
        match *self {
            StatusValue::Int(n) => StatusReading::Int(n),
            StatusValue::Float(text) => StatusReading::Float(text@),
            StatusValue::String(text) => StatusReading::Text(text@),
        }
    }
}

/// The kinds of sink that metrics can be sent to.
#[derive(Clone, Copy, Debug, PartialEq, Eq)]
pub enum MonitoringBackend {
    Telegraf,
}

/// A sink for metrics. A sink takes the tags and fields of one point and
/// reports whether it delivered them.
pub trait MetricSender {
    fn send_metric(&mut self, tags: Dict<String>, fields: Dict<StatusValue>) -> Result<(), String>;
}

/// The measurement name of every point.
pub open spec fn measurement_name() -> Seq<char> {
    "kittypaws"@
}

/// One metric point: a measurement name, tags with unique names, fields, and
/// a time where one is given.
#[derive(Clone, Debug)]
pub struct MetricPoint {
    pub measurement: String,
    pub tags: Dict<String>,
    pub fields: Dict<StatusValue>,
    pub timestamp: Option<u64>,
}

impl MetricPoint {
    /// The point for the given tags and fields, under the fixed measurement
    /// name and without a time.
    pub fn new(tags: Dict<String>, fields: Dict<StatusValue>) -> (r: MetricPoint)
        ensures
            r.measurement@ == measurement_name(),
            r.tags == tags,
            r.fields == fields,
            r.timestamp is None,
    {
        MetricPoint { measurement: "kittypaws".to_owned(), tags, fields, timestamp: None }
    }
}

/// The line logged for a delivery that failed with `reason`.
pub open spec fn delivery_failure_text(reason: Seq<char>) -> Seq<char> {
    "Can't send metric: "@ + reason
}

/// Whether `report` is what the status loop logs after a delivery that came
/// to `outcome`: nothing after a success, the reason after a failure.
pub open spec fn is_delivery_report(outcome: Result<(), String>, report: Option<String>) -> bool {
    match outcome {
        Ok(()) => report is None,
        Err(reason) => report matches Some(line) && line@ == delivery_failure_text(reason@),
    }
}

/// What the status loop logs after a delivery: nothing after a success, the
/// reason after a failure. Either way the loop goes on.
pub fn delivery_report(outcome: &Result<(), String>) -> (r: Option<String>)
    ensures
        is_delivery_report(*outcome, r),
{
    match outcome {
        Ok(()) => None,
        Err(reason) => Some("Can't send metric: ".to_owned().concat(reason.as_str())),
    }
}

/// Hands the tags and fields of one point to `sink`: `send_metric` of the
/// sink is called with them once, the sink is left as that call leaves it,
/// and what comes back says what to log for what the delivery came to,
/// nothing after a success and after a failure the notice of a failed
/// delivery with the sink's reason. A failed delivery is never an error of
/// the loop.
pub fn send_to<S: MetricSender>(sink: &mut S, tags: Dict<String>, fields: Dict<StatusValue>) -> (r:
    Option<String>)
    ensures
        exists|handed: &mut S, outcome: Result<(), String>|
            {
                &&& #[trigger] call_ensures(S::send_metric, (handed, tags, fields), outcome)
                &&& mut_ref_current(handed) == *old(sink)
                &&& mut_ref_future(handed) == *final(sink)
                &&& is_delivery_report(outcome, r)
            },
        r matches Some(line) ==> exists|reason: Seq<char>| line@ == delivery_failure_text(reason),
{
    let outcome = sink.send_metric(tags, fields);
    delivery_report(&outcome)
}

} // verus!
