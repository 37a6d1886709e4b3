//! Structured log events: trace ids and the event recorded for an input.
use vstd::prelude::*;
use crate::models::{TelemetryEvent, TelemetryEventInput};
use crate::text::{decimal, owned, push_decimal, push_str};

verus! {

/// `SystemTime::now()` since the Unix epoch in microseconds (0 for a clock
/// set before the epoch).
#[verifier::external_body]
fn unix_micros_now() -> (r: u128) {
    std::time::SystemTime::now().duration_since(std::time::UNIX_EPOCH).map(|d| d.as_micros()).unwrap_or_default()
}

/// The trace id of a stage at a moment: the prefix, `-`, and the microseconds.
pub open spec fn spec_trace_id(prefix: Seq<char>, micros: nat) -> Seq<char> {
    prefix + "-"@ + decimal(micros)
}

/// The trace id of a stage at a given moment in microseconds.
pub fn trace_id_at(prefix: &str, micros: u128) -> (r: String)
    ensures
        r@ == spec_trace_id(prefix@, micros as nat),
{
    let mut out = owned(prefix);
    push_str(&mut out, "-");
    push_decimal(&mut out, micros);
    out
}

/// A trace id for a stage, taken now.
pub fn new_trace_id(prefix: &str) -> (r: String)
    ensures
        exists|micros: nat| r@ == #[trigger] spec_trace_id(prefix@, micros),
{
    let micros = unix_micros_now();
    trace_id_at(prefix, micros)
}

/// The event recorded for an input at a timestamp under a trace id.
pub fn build_event(input: TelemetryEventInput, timestamp: String, trace_id: String) -> (r: TelemetryEvent)
    ensures
        r.timestamp == timestamp,
        r.trace_id == trace_id,
        r.stage == input.stage,
        r.input_summary == input.input_summary,
        r.output_summary == input.output_summary,
        r.duration_ms == input.duration_ms,
        r.level == input.level,
        r.error_code == input.error_code,
        r.message == input.message,
{
    TelemetryEvent {
        timestamp: timestamp,
        trace_id: trace_id,
        stage: input.stage,
        input_summary: input.input_summary,
        output_summary: input.output_summary,
        duration_ms: input.duration_ms,
        level: input.level,
        error_code: input.error_code,
        message: input.message,
    }
}

} // verus!
