//! Settings for separate prefill and decode instances.

use vstd::prelude::*;

verus! {

/// The role of an instance.
#[derive(Debug, Clone, Copy, PartialEq, Eq, Structural)]
pub enum PdRole {
    /// Decodes, and hands prefills out.
    Client,
    /// Executes prefills.
    Server,
}

impl PdRole {
    /// The number of the role.
    pub fn number(self) -> (r: u8)
        ensures
            r == match self {
                PdRole::Client => 1u8,
                PdRole::Server => 2u8,
            },
    {
        match self {
            PdRole::Client => 1,
            PdRole::Server => 2,
        }
    }
}

/// How caches are transferred.
#[derive(Debug, Clone, Copy, PartialEq, Eq, Structural)]
pub enum PdMethod {
    /// Between cards of one machine.
    LocalIpc,
    /// Between machines.
    RemoteTcp,
}

impl PdMethod {
    /// The number of the method.
    pub fn number(self) -> (r: u8)
        ensures
            r == match self {
                PdMethod::LocalIpc => 1u8,
                PdMethod::RemoteTcp => 2u8,
            },
    {
        match self {
            PdMethod::LocalIpc => 1,
            PdMethod::RemoteTcp => 2,
        }
    }
}

/// The settings of an instance.
#[derive(Debug)]
pub struct PdConfig {
    pub role: PdRole,
    pub method: PdMethod,
    /// The address to listen on or to connect to.
    pub url: Option<String>,
}

} // verus!
