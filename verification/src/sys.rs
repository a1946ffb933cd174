//! Trusted wrappers around the host-information crates. Each reads a fact
//! about the running machine; nothing can be promised about the values, so
//! the probes state what holds of every outcome.

use vstd::prelude::*;

verus! {

/// Relies on sysinfo's `System::long_os_version`: the pretty OS name, when
/// the platform reports one.
#[verifier::external_body]
pub fn sysinfo_long_os_version() -> (r: Option<String>) {
    sysinfo::System::long_os_version()
}

/// Relies on sysinfo's `System::name`: the OS name, when known.
#[verifier::external_body]
pub fn sysinfo_os_name() -> (r: Option<String>) {
    sysinfo::System::name()
}

/// Relies on sysinfo's `System::os_version`: the OS version, when known.
#[verifier::external_body]
pub fn sysinfo_os_version() -> (r: Option<String>) {
    sysinfo::System::os_version()
}

/// Relies on sysinfo's `System::cpu_arch`: the CPU architecture name.
#[verifier::external_body]
pub fn sysinfo_cpu_arch() -> (r: String) {
    sysinfo::System::cpu_arch()
}

/// Relies on sysinfo's `System::kernel_long_version`: the kernel version
/// string.
#[verifier::external_body]
pub fn sysinfo_kernel_long_version() -> (r: String) {
    sysinfo::System::kernel_long_version()
}

/// Relies on sysinfo's `System::uptime`: seconds since boot.
#[verifier::external_body]
pub fn sysinfo_uptime() -> (r: u64) {
    sysinfo::System::uptime()
}

/// Relies on sysinfo's `System::distribution_id`: the distribution
/// identifier (e.g. `arch`, `ubuntu`).
#[verifier::external_body]
pub fn sysinfo_distribution_id() -> (r: String) {
    sysinfo::System::distribution_id()
}

/// Relies on whoami's `username`: the login name of the calling user, when
/// the platform reports one.
#[verifier::external_body]
pub fn whoami_username() -> (r: Option<String>) {
    whoami::username().ok()
}

/// Relies on whoami's `hostname`: the machine's hostname, when the platform
/// reports one.
#[verifier::external_body]
pub fn whoami_hostname() -> (r: Option<String>) {
    whoami::hostname().ok()
}

} // verus!
