use vstd::prelude::*;
use crate::capability::{Capability, CapabilityView};
use crate::subsystem::SubsystemId;

verus! {

/// Who a capability was granted to. A plugin grant is scoped by plugin id
/// so revoking one plugin's access can never revoke another's.
#[derive(Debug, PartialEq, Eq, Hash)]
pub enum Grantee {
    Subsystem(SubsystemId),
    Plugin(String),
}

/// The mathematical value of a `Grantee`.
pub enum GranteeView {
    Subsystem(SubsystemId),
    Plugin(Seq<char>),
}

impl View for Grantee {
    type V = GranteeView;

    open spec fn view(&self) -> GranteeView {
        match self {
            Grantee::Subsystem(id) => GranteeView::Subsystem(*id),
            Grantee::Plugin(name) => GranteeView::Plugin(name@),
        }
    }
}

impl Clone for Grantee {
    fn clone(&self) -> (r: Self)
        ensures
            r == *self,
    {
        match self {
            Grantee::Subsystem(id) => Grantee::Subsystem(*id),
            Grantee::Plugin(name) => Grantee::Plugin(name.clone()),
        }
    }
}

impl Grantee {
    /// Are the two grantees the same value?
    pub fn same_as(&self, other: &Grantee) -> (r: bool)
        ensures
            r == (self@ == other@),
    {
        match self {
            Grantee::Subsystem(a) => match other {
                Grantee::Subsystem(b) => *a == *b,
                Grantee::Plugin(_) => false,
            },
            Grantee::Plugin(a) => match other {
                Grantee::Subsystem(_) => false,
                Grantee::Plugin(b) => a.eq(b),
            },
        }
    }
}

/// A live permission grant. Grants are explicit and revocable.
#[derive(Debug)]
pub struct Grant {
    pub grantee: Grantee,
    pub capability: Capability,
    pub granted_at_unix: u64,
    /// `None`: does not expire until explicitly revoked.
    pub expires_at_unix: Option<u64>,
}

/// The mathematical value of a `Grant`.
pub struct GrantView {
    pub grantee: GranteeView,
    pub capability: CapabilityView,
    pub granted_at_unix: u64,
    pub expires_at_unix: Option<u64>,
}

impl View for Grant {
    type V = GrantView;

    open spec fn view(&self) -> GrantView {
        GrantView {
            grantee: self.grantee@,
            capability: self.capability@,
            granted_at_unix: self.granted_at_unix,
            expires_at_unix: self.expires_at_unix,
        }
    }
}

impl Clone for Grant {
    fn clone(&self) -> (r: Self)
        ensures
            r == *self,
    {
        Grant {
            grantee: self.grantee.clone(),
            capability: self.capability.clone(),
            granted_at_unix: self.granted_at_unix,
            expires_at_unix: self.expires_at_unix,
        }
    }
}

/// The expiry of a grant made at `now` with time-to-live `ttl_secs`.
pub open spec fn expiry_after(now: u64, ttl_secs: Option<u64>) -> Option<u64> {
    match ttl_secs {
        Some(ttl) => Some((now + ttl) as u64),
        None => None,
    }
}

/// A time-to-live can be added to `now` without leaving the range of `u64`.
pub open spec fn ttl_fits(now: u64, ttl_secs: Option<u64>) -> bool {
    match ttl_secs {
        Some(ttl) => now + ttl <= u64::MAX,
        None => true,
    }
}

/// Has a grant with this expiry expired at `now`? A grant expires at the
/// first second equal to its expiry.
pub open spec fn expired_at(expires_at_unix: Option<u64>, now: u64) -> bool {
    match expires_at_unix {
        Some(exp) => now >= exp,
        None => false,
    }
}

/// The grant made at `now` of `capability` to `grantee` for `ttl_secs`.
pub open spec fn grant_made_at(
    grantee: GranteeView,
    capability: CapabilityView,
    ttl_secs: Option<u64>,
    now: u64,
) -> GrantView {
    GrantView {
        grantee,
        capability,
        granted_at_unix: now,
        expires_at_unix: expiry_after(now, ttl_secs),
    }
}

impl Grant {
    /// A grant made at the given time `now_unix` (seconds since the epoch).
    pub fn new_at(grantee: Grantee, capability: Capability, ttl_secs: Option<u64>, now_unix: u64) -> (g: Grant)
        requires
            ttl_fits(now_unix, ttl_secs),
        ensures
            g@ == grant_made_at(grantee@, capability@, ttl_secs, now_unix),
    {
        let expires_at_unix = match ttl_secs {
            Some(ttl) => Some(now_unix + ttl),
            None => None,
        };
        Grant { grantee, capability, granted_at_unix: now_unix, expires_at_unix }
    }

    /// A grant made now, by the system clock. `None` when the clock reads
    /// before the Unix epoch or when the time-to-live reaches past the
    /// largest representable second.
    pub fn new(grantee: Grantee, capability: Capability, ttl_secs: Option<u64>) -> (g: Option<Grant>)
        ensures
            g matches Some(g) ==> {
                &&& ttl_fits(g.granted_at_unix, ttl_secs)
                &&& g@ == grant_made_at(grantee@, capability@, ttl_secs, g.granted_at_unix)
                &&& crate::clock::clock_reading(g.granted_at_unix)
            },
    {
        match crate::clock::now_unix() {
            Some(now) => Self::new_at_checked(grantee, capability, ttl_secs, now),
            None => None,
        }
    }

    /// The grant made at `now_unix`, or `None` when the time-to-live does
    /// not fit after `now_unix`.
    pub fn new_at_checked(grantee: Grantee, capability: Capability, ttl_secs: Option<u64>, now_unix: u64) -> (g: Option<Grant>)
        ensures
            g is Some <==> ttl_fits(now_unix, ttl_secs),
            g matches Some(g) ==> g@ == grant_made_at(grantee@, capability@, ttl_secs, now_unix),
    {
        let fits = match ttl_secs {
            Some(ttl) => ttl <= u64::MAX - now_unix,
            None => true,
        };
        if fits {
            Some(Self::new_at(grantee, capability, ttl_secs, now_unix))
        } else {
            None
        }
    }

    /// Has this grant expired at `now_unix`?
    pub fn is_expired(&self, now_unix: u64) -> (r: bool)
        ensures
            r == expired_at(self.expires_at_unix, now_unix),
    {
        match self.expires_at_unix {
            Some(exp) => now_unix >= exp,
            None => false,
        }
    }
}

/// The outcome of one permission check.
#[derive(Debug, Clone, Copy, PartialEq, Eq, Structural)]
pub enum AuditDecision {
    Allowed,
    DeniedNoGrant,
    DeniedExpired,
}

/// One entry of the append-only audit trail: every permission check,
/// allowed or denied, is recorded.
#[derive(Debug)]
pub struct AuditEntry {
    pub timestamp_unix: u64,
    pub grantee: Grantee,
    pub capability: Capability,
    pub decision: AuditDecision,
}

/// The mathematical value of an `AuditEntry`.
pub struct AuditEntryView {
    pub timestamp_unix: u64,
    pub grantee: GranteeView,
    pub capability: CapabilityView,
    pub decision: AuditDecision,
}

impl View for AuditEntry {
    type V = AuditEntryView;

    open spec fn view(&self) -> AuditEntryView {
        AuditEntryView {
            timestamp_unix: self.timestamp_unix,
            grantee: self.grantee@,
            capability: self.capability@,
            decision: self.decision,
        }
    }
}

impl Clone for AuditEntry {
    fn clone(&self) -> (r: Self)
        ensures
            r == *self,
    {
        AuditEntry {
            timestamp_unix: self.timestamp_unix,
            grantee: self.grantee.clone(),
            capability: self.capability.clone(),
            decision: self.decision,
        }
    }
}

/// Once expired, a grant stays expired at every later moment.
pub proof fn lemma_expiry_is_permanent(expires_at_unix: Option<u64>, now: u64, later: u64)
    requires
        expired_at(expires_at_unix, now),
        now <= later,
    ensures
        expired_at(expires_at_unix, later),
{
}

/// A grant without a time-to-live never expires; one with a time-to-live
/// of zero is expired from the moment it is made.
pub proof fn lemma_ttl_bounds(grantee: GranteeView, capability: CapabilityView, ttl_secs: Option<u64>, now: u64, t: u64)
    requires
        ttl_fits(now, ttl_secs),
    ensures
        ttl_secs is None ==> !expired_at(grant_made_at(grantee, capability, ttl_secs, now).expires_at_unix, t),
        ttl_secs == Some(0u64) ==> expired_at(grant_made_at(grantee, capability, ttl_secs, now).expires_at_unix, now),
        ttl_secs matches Some(ttl) ==> (expired_at(grant_made_at(grantee, capability, ttl_secs, now).expires_at_unix, t) <==> t >= now + ttl),
{
}

} // verus!
