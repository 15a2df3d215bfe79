//! Trusted readers for the JSON replies the relay hardware sends.
//!
//! The replies are JSON documents; the logic only ever reads three
//! things out of them: the relay state of a single-outlet device, the
//! child list of a multi-outlet host, and whether a mutation was
//! acknowledged.  Each reader hands those out as plain values; what a
//! given byte string parses to is named by an uninterpreted function,
//! since it is a function of the bytes alone.

use vstd::prelude::*;

verus! {

/// The `relay_state` field of `system.get_sysinfo` in a decoded
/// single-outlet status reply, if the reply parses and has it.
pub uninterp spec fn plug_state_of(payload: Seq<u8>) -> Option<i64>;

/// The `(id, state)` pairs of `system.get_sysinfo.children` in a
/// decoded multi-outlet status reply, in the host's reported order, if
/// the reply parses and has them.
pub uninterp spec fn child_states_of(payload: Seq<u8>) -> Option<Seq<(Seq<char>, i64)>>;

/// Whether a decoded reply acknowledges a `set_relay_state` command.
pub uninterp spec fn mutate_ack_of(payload: Seq<u8>) -> bool;

/// Relies on serde_json::from_slice and serde_json::Value navigation:
/// reads `system.get_sysinfo.relay_state` from a decoded status reply.
/// The result depends on the payload bytes alone.
#[verifier::external_body]
pub(crate) fn parse_plug_state(payload: &Vec<u8>) -> (r: Option<i64>)
    ensures
        r == plug_state_of(payload@),
{
    let v: serde_json::Value = match serde_json::from_slice(payload.as_slice()) {
        Ok(v) => v,
        Err(_) => return None,
    };
    v.get("system")?.get("get_sysinfo")?.get("relay_state")?.as_i64()
}

/// Relies on serde_json::from_slice and serde_json::Value navigation:
/// reads the `id` and `state` of each entry of
/// `system.get_sysinfo.children` from a decoded status reply, in the
/// host's reported order.  The result depends on the payload bytes
/// alone.
#[verifier::external_body]
pub(crate) fn parse_children(payload: &Vec<u8>) -> (r: Option<Vec<(String, i64)>>)
    ensures
        r is Some <==> child_states_of(payload@) is Some,
        r is Some ==> r.unwrap().deep_view() == child_states_of(payload@).unwrap(),
{
    let v: serde_json::Value = match serde_json::from_slice(payload.as_slice()) {
        Ok(v) => v,
        Err(_) => return None,
    };
    let children = v.get("system")?.get("get_sysinfo")?.get("children")?.as_array()?;
    let mut out: Vec<(String, i64)> = Vec::new();
    for child in children {
        out.push((child.get("id")?.as_str()?.to_string(), child.get("state")?.as_i64()?));
    }
    Some(out)
}

/// Relies on serde_json::from_slice and serde_json::Value navigation:
/// checks that a decoded reply carries a
/// `system.set_relay_state.err_code` acknowledgement.  The result
/// depends on the payload bytes alone.
#[verifier::external_body]
pub(crate) fn parse_mutate_ack(payload: &Vec<u8>) -> (r: bool)
    ensures
        r == mutate_ack_of(payload@),
{
    let v: serde_json::Value = match serde_json::from_slice(payload.as_slice()) {
        Ok(v) => v,
        Err(_) => return false,
    };
    match v.get("system").and_then(|s| s.get("set_relay_state")).and_then(|s| s.get("err_code")) {
        Some(code) => code.is_i64(),
        None => false,
    }
}

} // verus!
