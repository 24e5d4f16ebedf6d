//! Leases: the binding of one IPv4 address to one hardware address until an
//! expiry instant.

use vstd::prelude::*;

verus! {

/// How long a static assignment lasts, in milliseconds.
pub const INFINITE_LEASE: u128 = 315_360_000_000;

/// The holder of an address and the instant, in milliseconds since the epoch,
/// after which the address may be given to somebody else.
#[derive(Clone, Copy, Debug, PartialEq, Eq)]
pub struct Lease {
    pub mac: [u8; 6],
    pub expiry: u128,
}

impl Lease {
    /// The lease that binds an address to `mac` until `expiry`.
    pub fn new(mac: [u8; 6], expiry: u128) -> (lease: Lease)
        ensures
            lease.mac == mac,
            lease.expiry == expiry,
    {
        Lease { mac, expiry }
    }
}

/// A permanent reservation: `ip` belongs to `mac`.
#[derive(Clone, Copy, Debug, PartialEq, Eq)]
pub struct StaticAssignment {
    pub mac: [u8; 6],
    pub ip: u32,
}

} // verus!
