//! The configuration of a server, as read once at startup.

use vstd::prelude::*;

verus! {

/// What a server is set up with. Addresses are 32-bit numbers, the first
/// byte of the dotted form being the most significant.
#[derive(Clone, Debug, PartialEq, Eq)]
pub struct Config {
    /// The name of the interface that is served.
    pub intf: String,
    /// The address the server itself listens on.
    pub listen_addr: u32,
    /// The first address of the pool.
    pub start: u32,
    /// The address after the last one of the pool.
    pub end: u32,
    pub netmask: u32,
    pub broadcast: u32,
    pub gateway: u32,
    pub dns_servers: Vec<u32>,
    /// The path of the file of static assignments.
    pub lease_static: String,
    /// The path of the file the lease table is saved to.
    pub lease_file: String,
    /// How long a lease lasts, as a text such as `24h`.
    pub lease_time: String,
}

} // verus!
