//! What the application commands compute: a screenshot as a data URL, an
//! offline state-machine evaluation, and the inputs of the OCR commands.
use vstd::prelude::*;
use crate::state_machine::{
    events_view, initial_state, spec_apply, AssistantState, AssistantStateMachine, StateMachineInput,
    StateTransitionEvent,
};
use crate::text::{owned, push_str};

verus! {

#[derive(Debug, Clone, PartialEq, Eq)]
pub struct PngDataUrlResult {
    pub path: String,
    pub data_url: String,
    pub bytes: usize,
}

#[derive(Debug, Clone, PartialEq, Eq)]
pub struct CalibratedNameOcrCommandInput {
    pub screenshot_path: Option<String>,
    pub preferred_monitor_id: Option<u32>,
}

#[derive(Debug, Clone, PartialEq, Eq)]
pub struct StateMachineCommandResult {
    pub state: AssistantState,
    pub events: Vec<StateTransitionEvent>,
}

/// The standard padded base64 text of `data`, as the `base64` crate encodes it.
pub uninterp spec fn base64_standard(data: Seq<u8>) -> Seq<char>;

/// `base64::engine::general_purpose::STANDARD.encode`: padded standard
/// base64, four characters for every started group of three bytes.
#[verifier::external_body]
fn base64_encode(data: &[u8]) -> (r: String)
    requires
        4 * ((data@.len() + 2) / 3) <= usize::MAX,
    ensures
        r@ == base64_standard(data@),
        r@.len() == 4 * ((data@.len() + 2) / 3),
{
    <base64::engine::GeneralPurpose as base64::Engine>::encode(&base64::engine::general_purpose::STANDARD, data)
}

/// A PNG file's bytes as a data URL, with the file's path and size.
pub fn png_data_url(path: String, bytes: &Vec<u8>) -> (r: PngDataUrlResult)
    requires
        4 * ((bytes@.len() + 2) / 3) <= usize::MAX,
    ensures
        r.path == path,
        r.data_url@ == "data:image/png;base64,"@ + base64_standard(bytes@),
        r.bytes == bytes@.len(),
{
    let encoded = base64_encode(bytes.as_slice());
    let mut data_url = owned("data:image/png;base64,");
    push_str(&mut data_url, encoded.as_str());
    PngDataUrlResult { path: path, data_url: data_url, bytes: bytes.len() }
}

/// A fresh state machine fed one input: the state it ends in and its transitions.
pub fn evaluate_state_machine(input: StateMachineInput) -> (r: Result<StateMachineCommandResult, String>)
    ensures
        r matches Ok(res) && res.state@ == spec_apply(initial_state(), input@).0 && events_view(res.events@)
            == spec_apply(initial_state(), input@).1,
{
    let mut machine = AssistantStateMachine::new();
    let events = machine.apply(input);
    Ok(StateMachineCommandResult { state: machine.state_copy(), events: events })
}

} // verus!
