//! Messages from the mirror to the proxy over the tunnel.

use vstd::prelude::*;

verus! {

/// Asks the proxy to download one package version for a session.
#[derive(Debug, Clone)]
pub struct Request {
    pub session_id: u32,
    pub package: String,
    pub version: String,
}

} // verus!
