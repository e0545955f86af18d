//! Laws of the permission system, stated over the decision function that
//! `PermissionSystem::check_at` records and returns, and over the grant
//! sequences that `grant_at`, `revoke` and `revoke_all` produce.
use vstd::prelude::*;
use crate::capability::{lemma_permits_reflexive, permits_spec, CapabilityView};
use crate::grant::{expired_at, grant_made_at, ttl_fits, AuditDecision, GrantView, GranteeView};
use crate::text::path_covers;
use crate::clock::clock_reading;
use crate::system::{covers, decide, has_expired_cover, has_live_cover, kept_by_revoke, kept_by_revoke_all};

verus! {

broadcast use {vstd::seq_lib::group_filter_ensures, vstd::seq::Seq::lemma_filter_contains_rev};

/// Two grant sequences that hold the same grants of `who` lead to the same
/// decision for every request of `who` at every moment.
proof fn lemma_decide_depends_only_on_own_grants(
    gs1: Seq<GrantView>,
    gs2: Seq<GrantView>,
    who: GranteeView,
    requested: CapabilityView,
    now: u64,
)
    requires
        forall|g: GrantView| g.grantee == who ==> (gs1.contains(g) <==> gs2.contains(g)),
    ensures
        decide(gs1, who, requested, now) == decide(gs2, who, requested, now),
{
    assert(has_live_cover(gs1, who, requested, now) ==> has_live_cover(gs2, who, requested, now)) by {
        if has_live_cover(gs1, who, requested, now) {
            let i = choose|i: int| 0 <= i < gs1.len() && #[trigger] covers(gs1[i], who, requested) && !expired_at(gs1[i].expires_at_unix, now);
            assert(gs1.contains(gs1[i]));
            let j = choose|j: int| 0 <= j < gs2.len() && gs2[j] == gs1[i];
            assert(covers(gs2[j], who, requested));
        }
    }
    assert(has_live_cover(gs2, who, requested, now) ==> has_live_cover(gs1, who, requested, now)) by {
        if has_live_cover(gs2, who, requested, now) {
            let i = choose|i: int| 0 <= i < gs2.len() && #[trigger] covers(gs2[i], who, requested) && !expired_at(gs2[i].expires_at_unix, now);
            assert(gs2.contains(gs2[i]));
            let j = choose|j: int| 0 <= j < gs1.len() && gs1[j] == gs2[i];
            assert(covers(gs1[j], who, requested));
        }
    }
    assert(has_expired_cover(gs1, who, requested, now) ==> has_expired_cover(gs2, who, requested, now)) by {
        if has_expired_cover(gs1, who, requested, now) {
            let i = choose|i: int| 0 <= i < gs1.len() && #[trigger] covers(gs1[i], who, requested) && expired_at(gs1[i].expires_at_unix, now);
            assert(gs1.contains(gs1[i]));
            let j = choose|j: int| 0 <= j < gs2.len() && gs2[j] == gs1[i];
            assert(covers(gs2[j], who, requested));
        }
    }
    assert(has_expired_cover(gs2, who, requested, now) ==> has_expired_cover(gs1, who, requested, now)) by {
        if has_expired_cover(gs2, who, requested, now) {
            let i = choose|i: int| 0 <= i < gs2.len() && #[trigger] covers(gs2[i], who, requested) && expired_at(gs2[i].expires_at_unix, now);
            assert(gs2.contains(gs2[i]));
            let j = choose|j: int| 0 <= j < gs1.len() && gs1[j] == gs2[i];
            assert(covers(gs1[j], who, requested));
        }
    }
}

/// A capability just granted (and not yet expired) is allowed: after
/// `grant_at(who, c, ttl, now)`, a check by `who` at any moment `t` before
/// the grant's expiry of any request that `c` permits is allowed.
pub proof fn law_granted_capability_is_allowed(
    grants: Seq<GrantView>,
    who: GranteeView,
    c: CapabilityView,
    requested: CapabilityView,
    ttl_secs: Option<u64>,
    now: u64,
    t: u64,
)
    requires
        ttl_fits(now, ttl_secs),
        permits_spec(c, requested),
        !expired_at(grant_made_at(who, c, ttl_secs, now).expires_at_unix, t),
    ensures
        decide(grants.push(grant_made_at(who, c, ttl_secs, now)), who, requested, t)
            == AuditDecision::Allowed,
{
    let gs = grants.push(grant_made_at(who, c, ttl_secs, now));
    assert(covers(gs[grants.len() as int], who, requested));
}

/// In particular, a capability granted without a time-to-live is allowed
/// when exactly that capability is requested, at any moment.
pub proof fn law_unexpiring_grant_allows_itself(grants: Seq<GrantView>, who: GranteeView, c: CapabilityView, now: u64, t: u64)
    ensures
        decide(grants.push(grant_made_at(who, c, None, now)), who, c, t) == AuditDecision::Allowed,
{
    lemma_permits_reflexive(c);
    law_granted_capability_is_allowed(grants, who, c, c, None, now, t);
}

/// No ambient authority: with no grant of `who` that permits the request,
/// the check is denied for want of a grant.
pub proof fn law_no_grant_means_denied(grants: Seq<GrantView>, who: GranteeView, requested: CapabilityView, t: u64)
    requires
        forall|i: int| 0 <= i < grants.len() ==> !#[trigger] covers(grants[i], who, requested),
    ensures
        decide(grants, who, requested, t) == AuditDecision::DeniedNoGrant,
{
}

/// A grant that has expired never allows anything: when every grant of
/// `who` that permits the request has expired at `t`, and there is one, the
/// check is denied as expired.
pub proof fn law_expired_grant_is_denied(grants: Seq<GrantView>, who: GranteeView, requested: CapabilityView, t: u64, k: int)
    requires
        0 <= k < grants.len(),
        covers(grants[k], who, requested),
        forall|i: int| 0 <= i < grants.len() && #[trigger] covers(grants[i], who, requested) ==> expired_at(grants[i].expires_at_unix, t),
    ensures
        decide(grants, who, requested, t) == AuditDecision::DeniedExpired,
{
}

/// Grants are isolated by grantee: granting anything to `a` changes no
/// decision for any other grantee `b`.
pub proof fn law_grant_is_isolated(grants: Seq<GrantView>, g: GrantView, b: GranteeView, requested: CapabilityView, t: u64)
    requires
        g.grantee != b,
    ensures
        decide(grants.push(g), b, requested, t) == decide(grants, b, requested, t),
{
    assert forall|x: GrantView| x.grantee == b implies (grants.push(g).contains(x) <==> grants.contains(x)) by {
        if grants.push(g).contains(x) {
            let j = choose|j: int| 0 <= j < grants.push(g).len() && grants.push(g)[j] == x;
            if j < grants.len() {
                assert(grants[j] == x);
            }
        }
        if grants.contains(x) {
            let j = choose|j: int| 0 <= j < grants.len() && grants[j] == x;
            assert(grants.push(g)[j] == x);
        }
    }
    lemma_decide_depends_only_on_own_grants(grants.push(g), grants, b, requested, t);
}

/// Revoking a capability from `a` changes no decision for any other
/// grantee `b`.
pub proof fn law_revoke_is_isolated(grants: Seq<GrantView>, a: GranteeView, c: CapabilityView, b: GranteeView, requested: CapabilityView, t: u64)
    requires
        a != b,
    ensures
        decide(grants.filter(kept_by_revoke(a, c)), b, requested, t) == decide(grants, b, requested, t),
{
    let kept = grants.filter(kept_by_revoke(a, c));
    assert forall|x: GrantView| x.grantee == b implies (kept.contains(x) <==> grants.contains(x)) by {
        if grants.contains(x) {
            let j = choose|j: int| 0 <= j < grants.len() && grants[j] == x;
            assert(kept_by_revoke(a, c)(grants[j]));
        }
    }
    lemma_decide_depends_only_on_own_grants(kept, grants, b, requested, t);
}

/// Revoking everything held by `a` changes no decision for any other
/// grantee `b`.
pub proof fn law_revoke_all_is_isolated(grants: Seq<GrantView>, a: GranteeView, b: GranteeView, requested: CapabilityView, t: u64)
    requires
        a != b,
    ensures
        decide(grants.filter(kept_by_revoke_all(a)), b, requested, t) == decide(grants, b, requested, t),
{
    let kept = grants.filter(kept_by_revoke_all(a));
    assert forall|x: GrantView| x.grantee == b implies (kept.contains(x) <==> grants.contains(x)) by {
        if grants.contains(x) {
            let j = choose|j: int| 0 <= j < grants.len() && grants[j] == x;
            assert(kept_by_revoke_all(a)(grants[j]));
        }
    }
    lemma_decide_depends_only_on_own_grants(kept, grants, b, requested, t);
}

/// After `revoke_all(a)`, every check by `a` is denied for want of a grant.
pub proof fn law_revoke_all_denies_everything(grants: Seq<GrantView>, a: GranteeView, requested: CapabilityView, t: u64)
    ensures
        decide(grants.filter(kept_by_revoke_all(a)), a, requested, t) == AuditDecision::DeniedNoGrant,
{
    let kept = grants.filter(kept_by_revoke_all(a));
    assert forall|i: int| 0 <= i < kept.len() implies !#[trigger] covers(kept[i], a, requested) by {
        assert(kept_by_revoke_all(a)(kept[i]));
    }
}

/// After `revoke(a, c)`, no grant of exactly `c` to `a` remains, so a
/// second identical revocation removes nothing.
pub proof fn law_revoke_removes_every_exact_grant(grants: Seq<GrantView>, a: GranteeView, c: CapabilityView)
    ensures
        forall|i: int| 0 <= i < grants.filter(kept_by_revoke(a, c)).len() ==> !(
            #[trigger] grants.filter(kept_by_revoke(a, c))[i].grantee == a
            && grants.filter(kept_by_revoke(a, c))[i].capability == c),
        grants.filter(kept_by_revoke(a, c)).filter(kept_by_revoke(a, c)).len()
            == grants.filter(kept_by_revoke(a, c)).len(),
{
    let kept = grants.filter(kept_by_revoke(a, c));
    assert forall|i: int| 0 <= i < kept.len() implies kept_by_revoke(a, c)(#[trigger] kept[i]) by {}
    lemma_filter_keeps_all(kept, kept_by_revoke(a, c));
}

/// Filtering by a predicate every element already satisfies changes
/// nothing.
proof fn lemma_filter_keeps_all(s: Seq<GrantView>, p: spec_fn(GrantView) -> bool)
    requires
        forall|i: int| 0 <= i < s.len() ==> p(#[trigger] s[i]),
    ensures
        s.filter(p) == s,
    decreases s.len(),
{
    reveal(Seq::filter);
    if s.len() > 0 {
        lemma_filter_keeps_all(s.drop_last(), p);
        assert(s.drop_last().push(s.last()) =~= s);
    }
}

/// A request of the granted path or of a path below it is allowed; any
/// other path (a sibling sharing leading characters included) is not
/// covered by that grant.
pub proof fn law_filesystem_grant_scope(grants: Seq<GrantView>, who: GranteeView, prefix: Seq<char>, path: Seq<char>, now: u64, t: u64)
    requires
        grants.len() == 0,
    ensures
        decide(grants.push(grant_made_at(who, CapabilityView::FilesystemWrite { path_prefix: prefix }, None, now)), who, CapabilityView::FilesystemWrite { path_prefix: path }, t)
            == (if path_covers(prefix, path) { AuditDecision::Allowed } else { AuditDecision::DeniedNoGrant }),
{
    let gs = grants.push(grant_made_at(who, CapabilityView::FilesystemWrite { path_prefix: prefix }, None, now));
    if path_covers(prefix, path) {
        assert(covers(gs[0], who, CapabilityView::FilesystemWrite { path_prefix: path }));
    } else {
        assert forall|i: int| 0 <= i < gs.len() implies !#[trigger] covers(gs[i], who, CapabilityView::FilesystemWrite { path_prefix: path }) by {}
    }
}

/// A time-bounded grant lives exactly its time-to-live, measured in the
/// clock's seconds: a grant of `c` made at clock reading `g` for `ttl`
/// seconds (say, the microphone for the next 600) allows `c` at every later
/// clock reading `t` less than `ttl` seconds on; and, alone, it is denied
/// as expired from `ttl` seconds on.
pub proof fn law_timed_grant_lives_its_ttl(grants: Seq<GrantView>, who: GranteeView, c: CapabilityView, ttl: u64, g: u64, t: u64)
    requires
        clock_reading(g),
        clock_reading(t),
        g + ttl <= u64::MAX,
        g <= t,
    ensures
        t < g + ttl ==> decide(grants.push(grant_made_at(who, c, Some(ttl), g)), who, c, t) == AuditDecision::Allowed,
        t >= g + ttl ==> decide(seq![grant_made_at(who, c, Some(ttl), g)], who, c, t) == AuditDecision::DeniedExpired,
{
    lemma_permits_reflexive(c);
    if t < g + ttl {
        law_granted_capability_is_allowed(grants, who, c, c, Some(ttl), g, t);
    } else {
        let gs = seq![grant_made_at(who, c, Some(ttl), g)];
        assert(covers(gs[0], who, c));
        assert(has_expired_cover(gs, who, c, t));
    }
}

/// The number of grants of `who` of exactly capability `c`.
pub open spec fn exact_grants(grants: Seq<GrantView>, who: GranteeView, c: CapabilityView) -> Seq<GrantView> {
    grants.filter(|g: GrantView| g.grantee == who && g.capability == c)
}

/// Revocation removes exactly the grants of that grantee of exactly that
/// capability: every other grant (another grantee's, or another capability
/// of the same grantee, a filesystem grant of another path included) stays;
/// nothing of that grantee and capability remains; nothing new appears; and
/// the count returned is the number of grants of that grantee and
/// capability.
pub proof fn law_revoke_removes_exactly_the_matches(grants: Seq<GrantView>, who: GranteeView, c: CapabilityView)
    ensures
        forall|i: int| 0 <= i < grants.len() && (grants[i].grantee != who || grants[i].capability != c)
            ==> grants.filter(kept_by_revoke(who, c)).contains(#[trigger] grants[i]),
        forall|i: int| 0 <= i < grants.filter(kept_by_revoke(who, c)).len() ==> {
            let g = #[trigger] grants.filter(kept_by_revoke(who, c))[i];
            &&& grants.contains(g)
            &&& !(g.grantee == who && g.capability == c)
        },
        grants.len() - grants.filter(kept_by_revoke(who, c)).len() == exact_grants(grants, who, c).len(),
{
    let kept = grants.filter(kept_by_revoke(who, c));
    assert forall|i: int| 0 <= i < grants.len() && (grants[i].grantee != who || grants[i].capability != c)
        implies kept.contains(#[trigger] grants[i]) by {
        assert(kept_by_revoke(who, c)(grants[i]));
    }
    assert forall|i: int| 0 <= i < kept.len() implies {
        let g = #[trigger] kept[i];
        &&& grants.contains(g)
        &&& !(g.grantee == who && g.capability == c)
    } by {
        assert(kept_by_revoke(who, c)(kept[i]));
        assert(kept.contains(kept[i]));
    }
    lemma_filter_split(grants, who, c);
}

/// Every grant is either kept by a revocation or one of the exact matches.
proof fn lemma_filter_split(s: Seq<GrantView>, who: GranteeView, c: CapabilityView)
    ensures
        s.filter(kept_by_revoke(who, c)).len() + exact_grants(s, who, c).len() == s.len(),
    decreases s.len(),
{
    reveal(Seq::filter);
    if s.len() > 0 {
        lemma_filter_split(s.drop_last(), who, c);
    }
}

} // verus!
