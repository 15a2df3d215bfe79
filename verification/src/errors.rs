//! Error taxonomy of the device-control core: transport failures,
//! malformed protocol replies, and missing named targets.

use vstd::prelude::*;
use vstd::string::StringExecFns;

verus! {

/// What went wrong while driving one device operation.
#[derive(Clone, Copy, Debug, PartialEq, Eq, Structural)]
pub enum DeviceError {
    /// The connection could not be established or timed out.
    Unreachable,
    /// The framing or the decoded reply did not parse.
    Malformed,
    /// The reply parsed, but the addressed child outlet is missing.
    NotFound,
}

impl DeviceError {
    /// The message reported to callers for this failure.
    pub open spec fn spec_message(self) -> Seq<char> {
        match self {
            DeviceError::Unreachable => "Can't Connect To Plug"@,
            DeviceError::Malformed => "Can't Connect To Plug"@,
            DeviceError::NotFound => "Can't Connect to To Plug"@,
        }
    }

    /// Renders the failure as the message sent back on the response
    /// channel.
    pub fn message(&self) -> (r: String)
        ensures
            r@ == self.spec_message(),
    {
        match self {
            DeviceError::Unreachable => String::from_str("Can't Connect To Plug"),
            DeviceError::Malformed => String::from_str("Can't Connect To Plug"),
            DeviceError::NotFound => String::from_str("Can't Connect to To Plug"),
        }
    }
}

} // verus!
