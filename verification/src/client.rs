//! The combined classification result: one device, one operating system
//! and one user agent, each matched independently. No cross-family
//! consistency is enforced: inconsistent combinations are accepted.
use vstd::prelude::*;

use crate::device::Device;
use crate::device::DeviceV;
use crate::os::OSV;
use crate::os::OS;
use crate::user_agent::UserAgent;
use crate::user_agent::UserAgentV;

verus! {

/// The combined result of classifying one user-agent string.
#[derive(Clone, Debug, PartialEq, Eq)]
pub struct Client {
    pub device: Device,
    pub os: OS,
    pub user_agent: UserAgent,
}

/// The abstract value of a `Client`.
#[verifier::ext_equal]
pub ghost struct ClientV {
    pub device: DeviceV,
    pub os: OSV,
    pub user_agent: UserAgentV,
}

impl View for Client {
    type V = ClientV;

    open spec fn view(&self) -> ClientV {
        ClientV { device: self.device@, os: self.os@, user_agent: self.user_agent@ }
    }
}

} // verus!
