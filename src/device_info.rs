use vstd::prelude::*;

verus! {

/// What a device reports of its host.
pub struct HostInfo {
    pub os_name: String,
    pub os_version: String,
    pub host_cpid: String,
}

/// A device contacting the account manager.
pub struct DeviceInfo {
    pub host_info: HostInfo,
}

} // verus!
