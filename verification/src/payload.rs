//! The byte strings that cross the suspend/resume boundary.
//!
//! A task is suspended with a JSON object of two members, the proposal id
//! and the task configuration, and resumed with the aggregated result as a
//! JSON string.

use vstd::prelude::*;
use vstd::string::StringSliceAdditionalSpecFns;

verus! {

/// The JSON text of a string value, quotes and escapes included, as
/// `serde_json` writes it.
pub uninterp spec fn json_string(text: Seq<char>) -> Seq<u8>;

/// Calls `serde_json::to_vec` on a string slice. Trusted: the bytes are the
/// compact JSON text of that string, a function of its characters alone.
/// The call can fail only where a value refuses to be serialized or the
/// writer fails; a string slice does not refuse and a vector takes every
/// byte, so the result is always there.
#[verifier::external_body]
fn json_encode_text(text: &str) -> (out: Vec<u8>)
    ensures
        out@ == json_string(text@),
{
    serde_json::to_vec(text).unwrap()
}

/// The decimal digits of `n` in ASCII, without leading zeros.
pub open spec fn decimal(n: nat) -> Seq<u8>
    decreases n,
{
    if n < 10 {
        seq![(48 + n) as u8]
    } else {
        decimal(n / 10).push((48 + n % 10) as u8)
    }
}

/// A JSON object of two members: the proposal id as a number, and the task
/// configuration in the JSON text `config_json`.
pub open spec fn framed_yield_payload(proposal_id: u64, config_json: Seq<u8>) -> Seq<u8> {
    "{\"proposal_id\":".spec_bytes() + decimal(proposal_id as nat) + ",\"task_config\":".spec_bytes()
        + config_json + "}".spec_bytes()
}

/// What a task is suspended with:
/// `{"proposal_id":<id>,"task_config":<config as a JSON string>}`.
pub open spec fn yield_payload(proposal_id: u64, task_config: Seq<char>) -> Seq<u8> {
    framed_yield_payload(proposal_id, json_string(task_config))
}

/// What a task is resumed with: the aggregated result as a JSON string.
pub open spec fn resume_payload(aggregated_result: Seq<char>) -> Seq<u8> {
    json_string(aggregated_result)
}

fn push_all(out: &mut Vec<u8>, bytes: &[u8])
    ensures
        final(out)@ == old(out)@ + bytes@,
{
    let mut i: usize = 0;
    while i < bytes.len()
        invariant
            i <= bytes.len(),
            out@ == old(out)@ + bytes@.take(i as int),
        decreases bytes.len() - i,
    {
        out.push(bytes[i]);
        assert(bytes@.take(i + 1) =~= bytes@.take(i as int).push(bytes@[i as int]));
        i += 1;
    }
    assert(bytes@.take(i as int) =~= bytes@);
}

fn push_decimal(out: &mut Vec<u8>, n: u64)
    ensures
        final(out)@ == old(out)@ + decimal(n as nat),
    decreases n,
{
    if n >= 10 {
        push_decimal(out, n / 10);
    }
    let digit: u8 = (n % 10) as u8;
    out.push(48 + digit);
    assert(out@ =~= old(out)@ + decimal(n as nat));
}

/// Writes `n` in decimal.
pub fn decimal_bytes(n: u64) -> (out: Vec<u8>)
    ensures
        out@ == decimal(n as nat),
{
    let mut out: Vec<u8> = Vec::new();
    push_decimal(&mut out, n);
    assert(out@ =~= decimal(n as nat));
    out
}

/// Puts the proposal id and the task configuration, already in JSON, into
/// one JSON object.
pub fn frame_yield_payload(proposal_id: u64, config_json: &[u8]) -> (out: Vec<u8>)
    ensures
        out@ == framed_yield_payload(proposal_id, config_json@),
{
    let mut out: Vec<u8> = Vec::new();
    push_all(&mut out, "{\"proposal_id\":".as_bytes());
    push_decimal(&mut out, proposal_id);
    push_all(&mut out, ",\"task_config\":".as_bytes());
    push_all(&mut out, config_json);
    push_all(&mut out, "}".as_bytes());
    assert(out@ =~= framed_yield_payload(proposal_id, config_json@));
    out
}

/// Builds what the task of `proposal_id` is suspended with.
pub fn encode_yield_payload(proposal_id: u64, task_config: &str) -> (out: Vec<u8>)
    ensures
        out@ == yield_payload(proposal_id, task_config@),
{
    let config = json_encode_text(task_config);
    frame_yield_payload(proposal_id, config.as_slice())
}

/// Builds what a task is resumed with.
pub fn encode_resume_payload(aggregated_result: &str) -> (out: Vec<u8>)
    ensures
        out@ == resume_payload(aggregated_result@),
{
    json_encode_text(aggregated_result)
}

} // verus!
