//! The client environment that rules are evaluated against.

use vstd::prelude::*;

verus! {

/// The family of operating system a client runs on.
#[derive(Clone, Copy, Debug, PartialEq, Eq, Structural, Hash)]
pub enum OsType {
    Windows,
    MacOs,
    Linux,
}

/// What a client reports of its machine. It is only ever read.
#[derive(Clone, Copy, Debug, PartialEq, Eq, Structural, Hash)]
pub struct ClientInfo {
    pub os_type: OsType,
}

impl ClientInfo {
    /// The description of a client on this operating system.
    pub fn new(os_type: OsType) -> (r: ClientInfo)
        ensures
            r.os_type == os_type,
    {
        ClientInfo { os_type }
    }
}

} // verus!
