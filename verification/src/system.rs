use vstd::prelude::*;
use crate::capability::{capability_text, permits_spec, Capability, CapabilityView};
use crate::clock::clock_reading;
use crate::error::{BellaError, BellaResult};
use crate::grant::{
    expired_at, grant_made_at, ttl_fits, AuditDecision, AuditEntry, AuditEntryView, Grant, GrantView,
    Grantee, GranteeView,
};

verus! {

/// The abstract state of the permission system: every live grant in the
/// order it was made, and the audit trail of every check ever made.
pub struct PermissionView {
    pub grants: Seq<GrantView>,
    pub audit: Seq<AuditEntryView>,
}

/// The permission system: the single enforcement point every privileged
/// action passes through. Every grant is explicit, every check (allowed or
/// denied) is appended to the audit trail, and nothing is ever removed from
/// that trail.
pub struct PermissionSystem {
    grants: Vec<Grant>,
    audit_log: Vec<AuditEntry>,
}

/// The views of a sequence of grants.
pub open spec fn grant_views(gs: Seq<Grant>) -> Seq<GrantView> {
    gs.map_values(|g: Grant| g@)
}

/// The views of a sequence of audit entries.
pub open spec fn audit_views(es: Seq<AuditEntry>) -> Seq<AuditEntryView> {
    es.map_values(|e: AuditEntry| e@)
}

/// Grant `g` belongs to `who` and its capability satisfies `requested`.
pub open spec fn covers(g: GrantView, who: GranteeView, requested: CapabilityView) -> bool {
    g.grantee == who && permits_spec(g.capability, requested)
}

/// Some grant in `grants` belongs to `who`, satisfies `requested`, and has
/// not expired at `now`.
pub open spec fn has_live_cover(grants: Seq<GrantView>, who: GranteeView, requested: CapabilityView, now: u64) -> bool {
    exists|i: int|
        0 <= i < grants.len() && #[trigger] covers(grants[i], who, requested) && !expired_at(
            grants[i].expires_at_unix,
            now,
        )
}

/// Some grant in `grants` belongs to `who`, satisfies `requested`, and has
/// expired at `now`.
pub open spec fn has_expired_cover(grants: Seq<GrantView>, who: GranteeView, requested: CapabilityView, now: u64) -> bool {
    exists|i: int|
        0 <= i < grants.len() && #[trigger] covers(grants[i], who, requested) && expired_at(
            grants[i].expires_at_unix,
            now,
        )
}

/// The decision of a check of `requested` for `who` at `now`: allowed when
/// a live grant covers it; denied as expired when only expired grants cover
/// it; denied for want of a grant otherwise.
pub open spec fn decide(grants: Seq<GrantView>, who: GranteeView, requested: CapabilityView, now: u64) -> AuditDecision {
    if has_live_cover(grants, who, requested, now) {
        AuditDecision::Allowed
    } else if has_expired_cover(grants, who, requested, now) {
        AuditDecision::DeniedExpired
    } else {
        AuditDecision::DeniedNoGrant
    }
}

/// The grant is kept by a revocation of `capability` from `who`.
pub open spec fn kept_by_revoke(who: GranteeView, capability: CapabilityView) -> spec_fn(GrantView) -> bool {
    |g: GrantView| !(g.grantee == who && g.capability == capability)
}

/// The grant is kept by a revocation of everything granted to `who`.
pub open spec fn kept_by_revoke_all(who: GranteeView) -> spec_fn(GrantView) -> bool {
    |g: GrantView| g.grantee != who
}

/// The audit entry a check of `requested` by `who` at `now` appends.
pub open spec fn audit_entry_for(grants: Seq<GrantView>, who: GranteeView, requested: CapabilityView, now: u64) -> AuditEntryView {
    AuditEntryView {
        timestamp_unix: now,
        grantee: who,
        capability: requested,
        decision: decide(grants, who, requested, now),
    }
}

impl View for PermissionSystem {
    type V = PermissionView;

    closed spec fn view(&self) -> PermissionView {
        PermissionView { grants: grant_views(self.grants@), audit: audit_views(self.audit_log@) }
    }
}

impl PermissionSystem {
    /// An empty permission system: no grants, an empty audit trail.
    pub fn new() -> (s: Self)
        ensures
            s@.grants == Seq::<GrantView>::empty(),
            s@.audit == Seq::<AuditEntryView>::empty(),
    {
        let s = PermissionSystem { grants: Vec::new(), audit_log: Vec::new() };
        assert(s@.grants =~= Seq::<GrantView>::empty());
        assert(s@.audit =~= Seq::<AuditEntryView>::empty());
        s
    }

    /// Record `grant` as given. Nothing else changes.
    pub fn add_grant(&mut self, grant: Grant)
        ensures
            final(self)@.grants == old(self)@.grants.push(grant@),
            final(self)@.audit == old(self)@.audit,
    {
        let ghost g = grant@;
        self.grants.push(grant);
        assert(grant_views(self.grants@) =~= grant_views(old(self).grants@).push(g));
    }

    /// Grant `capability` to `grantee` at the given time `now_unix`, for
    /// `ttl_secs` seconds or (with `None`) until revoked.
    pub fn grant_at(&mut self, grantee: Grantee, capability: Capability, ttl_secs: Option<u64>, now_unix: u64)
        requires
            ttl_fits(now_unix, ttl_secs),
        ensures
            final(self)@.grants == old(self)@.grants.push(
                grant_made_at(grantee@, capability@, ttl_secs, now_unix),
            ),
            final(self)@.audit == old(self)@.audit,
    {
        let g = Grant::new_at(grantee, capability, ttl_secs, now_unix);
        self.add_grant(g);
    }

    /// Explicitly grant a capability, now by the system clock. There is no
    /// implicit or default grant path: every capability anyone holds came
    /// through here (or `grant_at`). Fails, changing nothing, when the clock
    /// reads before the epoch or the time-to-live reaches past the largest
    /// representable second.
    pub fn grant(&mut self, grantee: Grantee, capability: Capability, ttl_secs: Option<u64>) -> (r: BellaResult<()>)
        ensures
            final(self)@.audit == old(self)@.audit,
            r is Ok ==> {
                let g = final(self)@.grants.last();
                &&& final(self)@.grants == old(self)@.grants.push(g)
                &&& ttl_fits(g.granted_at_unix, ttl_secs)
                &&& g == grant_made_at(grantee@, capability@, ttl_secs, g.granted_at_unix)
                &&& clock_reading(g.granted_at_unix)
            },
            r is Err ==> final(self)@ == old(self)@,
            r matches Err(e) ==> e is Internal,
    {
        match Grant::new(grantee, capability, ttl_secs) {
            Some(g) => {
                self.add_grant(g);
                Ok(())
            },
            None => Err(BellaError::Internal(String::from_str("grant could not be timed: the clock reads before the epoch or the expiry overflows"))),
        }
    }

    /// Revoke every grant of exactly this capability held by `grantee`;
    /// returns how many grants were removed.
    pub fn revoke(&mut self, grantee: &Grantee, capability: &Capability) -> (removed: usize)
        ensures
            final(self)@.grants == old(self)@.grants.filter(kept_by_revoke(grantee@, capability@)),
            removed == old(self)@.grants.len() - final(self)@.grants.len(),
            removed == old(self)@.grants.filter(|g: GrantView| g.grantee == grantee@ && g.capability == capability@).len(),
            forall|i: int| 0 <= i < old(self)@.grants.len() && (old(self)@.grants[i].grantee != grantee@ || old(self)@.grants[i].capability != capability@)
                ==> final(self)@.grants.contains(#[trigger] old(self)@.grants[i]),
            forall|i: int| 0 <= i < final(self)@.grants.len() ==> !(#[trigger] final(self)@.grants[i].grantee == grantee@
                && final(self)@.grants[i].capability == capability@),
            final(self)@.audit == old(self)@.audit,
    {
        let ghost pred = kept_by_revoke(grantee@, capability@);
        let ghost old_views = grant_views(self.grants@);
        let n = self.grants.len();
        let mut kept: Vec<Grant> = Vec::new();
        let mut i: usize = 0;
        while i < n
            invariant
                n == self.grants@.len(),
                i <= n,
                old_views == grant_views(self.grants@),
                self.grants@ == old(self).grants@,
                self.audit_log@ == old(self).audit_log@,
                pred == kept_by_revoke(grantee@, capability@),
                grant_views(kept@) == old_views.take(i as int).filter(pred),
            decreases n - i,
        {
            let g = &self.grants[i];
            let drop = g.grantee.same_as(grantee) && g.capability.same_as(capability);
            proof {
                reveal(Seq::filter);
                assert(old_views.take(i + 1).drop_last() =~= old_views.take(i as int));
            }
            if !drop {
                kept.push(g.clone());
                assert(grant_views(kept@) =~= old_views.take(i as int).filter(pred).push(old_views[i as int]));
            }
            i += 1;
        }
        assert(old_views.take(n as int) =~= old_views);
        proof {
            old_views.lemma_filter_len(pred);
        }
        let removed = n - kept.len();
        self.grants = kept;
        proof {
            crate::permission_laws::law_revoke_removes_exactly_the_matches(old_views, grantee@, capability@);
        }
        removed
    }

    /// Revoke every grant held by `grantee`, e.g. when a plugin is unloaded.
    pub fn revoke_all(&mut self, grantee: &Grantee)
        ensures
            final(self)@.grants == old(self)@.grants.filter(kept_by_revoke_all(grantee@)),
            final(self)@.audit == old(self)@.audit,
    {
        let ghost pred = kept_by_revoke_all(grantee@);
        let ghost old_views = grant_views(self.grants@);
        let n = self.grants.len();
        let mut kept: Vec<Grant> = Vec::new();
        let mut i: usize = 0;
        while i < n
            invariant
                n == self.grants@.len(),
                i <= n,
                old_views == grant_views(self.grants@),
                self.grants@ == old(self).grants@,
                self.audit_log@ == old(self).audit_log@,
                pred == kept_by_revoke_all(grantee@),
                grant_views(kept@) == old_views.take(i as int).filter(pred),
            decreases n - i,
        {
            let g = &self.grants[i];
            let drop = g.grantee.same_as(grantee);
            proof {
                reveal(Seq::filter);
                assert(old_views.take(i + 1).drop_last() =~= old_views.take(i as int));
            }
            if !drop {
                kept.push(g.clone());
                assert(grant_views(kept@) =~= old_views.take(i as int).filter(pred).push(old_views[i as int]));
            }
            i += 1;
        }
        assert(old_views.take(n as int) =~= old_views);
        self.grants = kept;
    }

    /// The decision a check of `requested` by `grantee` at `now_unix` would
    /// record, without recording it.
    pub fn decision_at(&self, grantee: &Grantee, requested: &Capability, now_unix: u64) -> (d: AuditDecision)
        ensures
            d == decide(self@.grants, grantee@, requested@, now_unix),
    {
        let ghost gs = self@.grants;
        let n = self.grants.len();
        let mut saw_expired_match = false;
        let mut i: usize = 0;
        while i < n
            invariant
                n == self.grants@.len(),
                gs == grant_views(self.grants@),
                i <= n,
                forall|j: int| 0 <= j < i ==> !(#[trigger] covers(gs[j], grantee@, requested@) && !expired_at(gs[j].expires_at_unix, now_unix)),
                saw_expired_match <==> exists|j: int| 0 <= j < i && #[trigger] covers(gs[j], grantee@, requested@) && expired_at(gs[j].expires_at_unix, now_unix),
            decreases n - i,
        {
            let g = &self.grants[i];
            assert(gs[i as int] == g@);
            if g.grantee.same_as(grantee) && g.capability.permits(requested) {
                assert(covers(gs[i as int], grantee@, requested@));
                if g.is_expired(now_unix) {
                    saw_expired_match = true;
                } else {
                    return AuditDecision::Allowed;
                }
            }
            i += 1;
        }
        if saw_expired_match {
            AuditDecision::DeniedExpired
        } else {
            AuditDecision::DeniedNoGrant
        }
    }

    /// The enforcement point, at the given time `now_unix`: `Ok` exactly
    /// when `grantee` holds a live grant that permits `requested`. Every
    /// call, allowed or denied, appends one entry to the audit trail, and
    /// changes nothing else.
    pub fn check_at(&mut self, grantee: &Grantee, requested: &Capability, now_unix: u64) -> (r: BellaResult<()>)
        ensures
            final(self)@.grants == old(self)@.grants,
            final(self)@.audit == old(self)@.audit.push(
                audit_entry_for(old(self)@.grants, grantee@, requested@, now_unix),
            ),
            r is Ok <==> decide(old(self)@.grants, grantee@, requested@, now_unix) == AuditDecision::Allowed,
            r matches Err(e) ==> e matches BellaError::PermissionDenied(text) && text@ == capability_text(requested@),
    {
        let decision = self.decision_at(grantee, requested, now_unix);
        let entry = AuditEntry {
            timestamp_unix: now_unix,
            grantee: grantee.clone(),
            capability: requested.clone(),
            decision,
        };
        let ghost e = entry@;
        self.audit_log.push(entry);
        assert(audit_views(self.audit_log@) =~= audit_views(old(self).audit_log@).push(e));
        match decision {
            AuditDecision::Allowed => Ok(()),
            _ => Err(BellaError::PermissionDenied(requested.to_text())),
        }
    }

    /// The enforcement point, now by the system clock: as `check_at` at the
    /// moment the clock reads, which the appended audit entry records. When
    /// the clock reads before the epoch nothing is recorded and the result
    /// is an `Internal` error.
    pub fn check(&mut self, grantee: &Grantee, requested: &Capability) -> (r: BellaResult<()>)
        ensures
            final(self)@.grants == old(self)@.grants,
            r matches Err(BellaError::Internal(_)) ==> final(self)@ == old(self)@,
            !(r matches Err(BellaError::Internal(_))) ==> {
                let now = final(self)@.audit.last().timestamp_unix;
                &&& clock_reading(now)
                &&& final(self)@.audit == old(self)@.audit.push(
                    audit_entry_for(old(self)@.grants, grantee@, requested@, now),
                )
                &&& (r is Ok <==> decide(old(self)@.grants, grantee@, requested@, now) == AuditDecision::Allowed)
                &&& r matches Err(e) ==> e matches BellaError::PermissionDenied(text) && text@ == capability_text(requested@)
            },
    {
        match crate::clock::now_unix() {
            Some(now) => self.check_at(grantee, requested, now),
            None => Err(BellaError::Internal(String::from_str("system clock before unix epoch"))),
        }
    }

    /// A snapshot of the audit trail, oldest entry first.
    pub fn audit_log(&self) -> (log: Vec<AuditEntry>)
        ensures
            audit_views(log@) == self@.audit,
    {
        let n = self.audit_log.len();
        let mut out: Vec<AuditEntry> = Vec::new();
        let mut i: usize = 0;
        while i < n
            invariant
                n == self.audit_log@.len(),
                i <= n,
                forall|j: int| 0 <= j < i ==> out@[j] == self.audit_log@[j],
                out@.len() == i,
            decreases n - i,
        {
            out.push(self.audit_log[i].clone());
            i += 1;
        }
        assert(audit_views(out@) =~= audit_views(self.audit_log@));
        out
    }

    /// The number of entries in the audit trail.
    pub fn audit_len(&self) -> (n: usize)
        ensures
            n == self@.audit.len(),
    {
        self.audit_log.len()
    }
}

impl Default for PermissionSystem {
    fn default() -> (s: Self)
        ensures
            s@.grants == Seq::<GrantView>::empty(),
            s@.audit == Seq::<AuditEntryView>::empty(),
    {
        Self::new()
    }
}

} // verus!
