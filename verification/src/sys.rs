//! Lookups that depend on the machine and the moment: the device's name,
//! its local network address, the clock. Each result depends on the
//! environment, so nothing is promised of the values; callers state what
//! holds whatever comes back.

use vstd::prelude::*;

verus! {

/// Relies on whoami::devicename: the machine's display name, where the
/// platform yields one. The result depends on the machine; nothing is
/// promised of it.
#[verifier::external_body]
pub fn device_name_bytes() -> (r: Option<Vec<u8>>) {
    whoami::devicename().ok().map(String::into_bytes)
}

/// Relies on local_ip_address::local_ip: the machine's local address, in
/// its textual form. The result depends on the machine; nothing is
/// promised of it.
#[verifier::external_body]
pub fn local_ip_text() -> (r: Option<Vec<u8>>) {
    local_ip_address::local_ip().ok().map(|a| a.to_string().into_bytes())
}

/// Relies on chrono::Utc::now and chrono::DateTime::timestamp: the clock's
/// seconds since the Unix epoch. The result depends on the moment of the
/// call; nothing is promised of it.
#[verifier::external_body]
pub fn unix_time_seconds() -> (r: u64) {
    chrono::Utc::now().timestamp() as u64
}

} // verus!
