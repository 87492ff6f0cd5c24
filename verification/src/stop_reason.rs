//! Why an agent ended a prompt turn, and the text the UI is told.
use vstd::prelude::*;

use agent_client_protocol::v1::schema::StopReason as AcpStopReason;

verus! {

/// Why an agent stopped processing a prompt turn: the reasons of the agent
/// client protocol, version 1.
#[derive(Clone, Copy, Debug, PartialEq, Eq, Structural)]
pub enum StopReason {
    EndTurn,
    MaxTokens,
    MaxTurnRequests,
    Refusal,
    Cancelled,
}

/// The protocol's wire name of a stop reason.
pub open spec fn stop_reason_name(reason: StopReason) -> Seq<char> {
    match reason {
        StopReason::EndTurn => "end_turn"@,
        StopReason::MaxTokens => "max_tokens"@,
        StopReason::MaxTurnRequests => "max_turn_requests"@,
        StopReason::Refusal => "refusal"@,
        StopReason::Cancelled => "cancelled"@,
    }
}

/// A stop reason serialized to JSON: a JSON string, or the text of any other
/// JSON value.
pub enum SerializedJson {
    Text(String),
    Other(String),
}

/// Wraps `serde_json::to_value` on the protocol's `StopReason`. The protocol
/// crate derives `Serialize` for that enum of unit variants with
/// `rename_all = "snake_case"`, so each reason serializes to the JSON string
/// of its snake-case name.
#[verifier::external_body]
fn serialize_stop_reason(reason: StopReason) -> (r: Result<SerializedJson, String>)
    ensures
        match r {
            Ok(SerializedJson::Text(s)) => s@ == stop_reason_name(reason),
            _ => false,
        },
{
    let wire = match reason {
        StopReason::EndTurn => AcpStopReason::EndTurn,
        StopReason::MaxTokens => AcpStopReason::MaxTokens,
        StopReason::MaxTurnRequests => AcpStopReason::MaxTurnRequests,
        StopReason::Refusal => AcpStopReason::Refusal,
        StopReason::Cancelled => AcpStopReason::Cancelled,
    };
    match serde_json::to_value(wire) {
        Ok(serde_json::Value::String(s)) => Ok(SerializedJson::Text(s)),
        Ok(other) => Ok(SerializedJson::Other(other.to_string())),
        Err(e) => Err(e.to_string()),
    }
}

/// The text the UI is told for a serialized stop reason: a JSON string as it
/// stands, any other JSON value as its JSON text, and a failed serialization
/// as `<unserializable: ...>` around the error.
pub fn stop_reason_text(serialized: Result<SerializedJson, String>) -> (s: String)
    ensures
        match serialized {
            Ok(SerializedJson::Text(t)) => s@ == t@,
            Ok(SerializedJson::Other(t)) => s@ == t@,
            Err(e) => s@ == "<unserializable: "@ + e@ + ">"@,
        },
{
    match serialized {
        Ok(SerializedJson::Text(t)) => t,
        Ok(SerializedJson::Other(t)) => t,
        Err(e) => String::from_str("<unserializable: ").concat(e.as_str()).concat(">"),
    }
}

/// The text the UI is told for a stop reason: its wire name.
pub fn stop_reason_string(reason: &StopReason) -> (s: String)
    ensures
        s@ == stop_reason_name(*reason),
{
    stop_reason_text(serialize_stop_reason(*reason))
}

/// Distinct stop reasons have distinct wire names.
pub proof fn lemma_stop_reason_names_distinct(r1: StopReason, r2: StopReason)
    requires
        r1 != r2,
    ensures
        stop_reason_name(r1) != stop_reason_name(r2),
{
    reveal_strlit("end_turn");
    reveal_strlit("max_tokens");
    reveal_strlit("max_turn_requests");
    reveal_strlit("refusal");
    reveal_strlit("cancelled");
    let n1 = stop_reason_name(r1);
    let n2 = stop_reason_name(r2);
    if n1 == n2 {
        assert(n1.len() == n2.len());
        assert(n1[0] == n2[0]);
        assert(n1[1] == n2[1]);
        assert(n1[4] == n2[4]);
    }
}

} // verus!
