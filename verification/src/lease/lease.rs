//! A lease and its stored form.

use vstd::prelude::*;

verus! {

/// In-memory representation of a lease.
#[derive(Debug, Clone, Copy, PartialEq, Eq, Structural)]
pub struct Lease {
    pub id: i64,
    pub ttl: i64,
    pub granted_ttl: i64,
    pub expiry_time: i64,
}

/// Persistent lease information.
#[derive(Debug, Clone, Copy, PartialEq, Eq, Structural)]
pub struct LeaseInfo {
    pub id: i64,
    pub ttl: i64,
    pub granted_ttl: i64,
    pub expiry_time: i64,
}

impl View for Lease {
    type V = Lease;

    open spec fn view(&self) -> Lease {
        *self
    }
}

impl Lease {
    /// A lease that was granted with the given time to live.
    pub fn new(id: i64, ttl: i64, expiry_time: i64) -> (r: Self)
        ensures
            r == (Lease { id, ttl, granted_ttl: ttl, expiry_time }),
    {
        Lease { id, ttl, granted_ttl: ttl, expiry_time }
    }

    /// The stored form of the lease.
    pub fn to_info(&self) -> (r: LeaseInfo)
        ensures
            r == self.info(),
    {
        LeaseInfo {
            id: self.id,
            ttl: self.ttl,
            granted_ttl: self.granted_ttl,
            expiry_time: self.expiry_time,
        }
    }

    /// The same fields as stored.
    pub open spec fn info(self) -> LeaseInfo {
        LeaseInfo {
            id: self.id,
            ttl: self.ttl,
            granted_ttl: self.granted_ttl,
            expiry_time: self.expiry_time,
        }
    }
}

impl LeaseInfo {
    /// The lease that was stored.
    pub fn to_lease(&self) -> (r: Lease)
        ensures
            r == self.lease(),
    {
        Lease {
            id: self.id,
            ttl: self.ttl,
            granted_ttl: self.granted_ttl,
            expiry_time: self.expiry_time,
        }
    }

    /// The same fields in memory.
    pub open spec fn lease(self) -> Lease {
        Lease {
            id: self.id,
            ttl: self.ttl,
            granted_ttl: self.granted_ttl,
            expiry_time: self.expiry_time,
        }
    }
}

/// A lease survives being stored, and stored information survives being loaded.
pub proof fn lease_round_trip(lease: Lease, info: LeaseInfo)
    ensures
        lease.info().lease() == lease,
        info.lease().info() == info,
{
}

/// Storing and reading a lease keep each field under its own name.
pub proof fn fields_keep_their_names(lease: Lease, info: LeaseInfo)
    ensures
        lease.info().id == lease.id,
        lease.info().ttl == lease.ttl,
        lease.info().granted_ttl == lease.granted_ttl,
        lease.info().expiry_time == lease.expiry_time,
        info.lease().id == info.id,
        info.lease().ttl == info.ttl,
        info.lease().granted_ttl == info.granted_ttl,
        info.lease().expiry_time == info.expiry_time,
{
}

} // verus!
