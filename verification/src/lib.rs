//! Device-control core for a gateway that drives networked smart power
//! relays over a proprietary framed, whitened TCP protocol.
//!
//! The crate holds the verified logic: the wire codec, the device model,
//! the registry of devices and presets, and the single-consumer command
//! dispatch state machine.  Network and file I/O live outside, in the
//! surrounding application, which drives the state machine with events.

pub mod codec;
pub mod config;
pub mod dispatch;
pub mod errors;
pub mod laws;
pub mod parse;
pub mod presets;
pub mod relays;
pub mod text;

use vstd::prelude::*;
use vstd::string::StringExecFns;

verus! {

/// The body of the external health route: fixed text, no state read.
pub fn external_route() -> (r: String)
    ensures
        r@ == "External Route"@,
{
    String::from_str("External Route")
}

} // verus!
