//! Per-connection protocol engine of a TCP gateway: the framing/encryption
//! codec, the per-client control protocol (open/close/kick/disconnect) and
//! the read-loop state machine that guards inbound traffic.

pub mod client;
pub mod codec;
pub mod config;
pub mod session;

use vstd::prelude::*;

verus! {

/// Human-readable name and version of the gateway service.
pub fn version() -> (v: &'static str)
    ensures
        v@ == "tcp gateway service 0.1.0"@,
{
    "tcp gateway service 0.1.0"
}

} // verus!
