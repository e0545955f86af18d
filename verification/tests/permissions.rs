use bella::capability::Capability;
use bella::error::BellaError;
use bella::grant::{AuditDecision, Grant, Grantee};
use bella::subsystem::SubsystemId;
use bella::system::PermissionSystem;

#[test]
fn ungranted_capability_is_denied_and_audited() {
    let mut perms = PermissionSystem::new();
    let grantee = Grantee::Subsystem(SubsystemId::Voice);
    let result = perms.check(&grantee, &Capability::Microphone);
    assert!(matches!(result, Err(BellaError::PermissionDenied(_))));

    let log = perms.audit_log();
    assert_eq!(log.len(), 1);
    assert_eq!(log[0].decision, AuditDecision::DeniedNoGrant);
}

#[test]
fn granted_capability_is_allowed() {
    let mut perms = PermissionSystem::new();
    let grantee = Grantee::Subsystem(SubsystemId::Voice);
    perms.grant(grantee.clone(), Capability::Microphone, None).unwrap();

    let result = perms.check(&grantee, &Capability::Microphone);
    assert!(result.is_ok());
}

#[test]
fn revoke_removes_access() {
    let mut perms = PermissionSystem::new();
    let grantee = Grantee::Subsystem(SubsystemId::Device);
    perms.grant(grantee.clone(), Capability::ShellExec, None).unwrap();
    assert!(perms.check(&grantee, &Capability::ShellExec).is_ok());

    let removed = perms.revoke(&grantee, &Capability::ShellExec);
    assert_eq!(removed, 1);
    assert!(perms.check(&grantee, &Capability::ShellExec).is_err());
}

#[test]
fn expired_grant_is_denied() {
    let mut perms = PermissionSystem::new();
    let grantee = Grantee::Plugin("weather-plugin".into());
    // TTL of 0 seconds: expires immediately.
    perms.grant(grantee.clone(), Capability::Network, Some(0)).unwrap();

    let result = perms.check(&grantee, &Capability::Network);
    assert!(result.is_err());
    let log = perms.audit_log();
    assert_eq!(log.last().unwrap().decision, AuditDecision::DeniedExpired);
}

#[test]
fn filesystem_prefix_grant_covers_subpaths_only() {
    let mut perms = PermissionSystem::new();
    let grantee = Grantee::Plugin("notes-plugin".into());
    perms
        .grant(
            grantee.clone(),
            Capability::FilesystemWrite { path_prefix: "/home/notcandy/notes".into() },
            None,
        )
        .unwrap();

    let inside = Capability::FilesystemWrite { path_prefix: "/home/notcandy/notes/today.md".into() };
    let outside = Capability::FilesystemWrite { path_prefix: "/home/notcandy/.ssh/id_rsa".into() };

    assert!(perms.check(&grantee, &inside).is_ok());
    assert!(perms.check(&grantee, &outside).is_err());
}

#[test]
fn plugin_grants_are_isolated_by_plugin_id() {
    let mut perms = PermissionSystem::new();
    let plugin_a = Grantee::Plugin("plugin-a".into());
    let plugin_b = Grantee::Plugin("plugin-b".into());
    perms.grant(plugin_a.clone(), Capability::Network, None).unwrap();

    assert!(perms.check(&plugin_a, &Capability::Network).is_ok());
    assert!(perms.check(&plugin_b, &Capability::Network).is_err());
}

#[test]
fn revoke_all_clears_every_grant_for_grantee() {
    let mut perms = PermissionSystem::new();
    let grantee = Grantee::Plugin("temp-plugin".into());
    perms.grant(grantee.clone(), Capability::Network, None).unwrap();
    perms.grant(grantee.clone(), Capability::Clipboard, None).unwrap();

    perms.revoke_all(&grantee);

    assert!(perms.check(&grantee, &Capability::Network).is_err());
    assert!(perms.check(&grantee, &Capability::Clipboard).is_err());
}

#[test]
fn check_at_uses_the_given_time_for_expiry() {
    let mut perms = PermissionSystem::new();
    let g = Grantee::Subsystem(SubsystemId::Voice);
    perms.grant_at(g.clone(), Capability::Camera, Some(10), 1000);
    assert!(perms.check_at(&g, &Capability::Camera, 1009).is_ok());
    assert!(perms.check_at(&g, &Capability::Camera, 1010).is_err());
    let log = perms.audit_log();
    assert_eq!(log.len(), 2);
    assert_eq!(log[0].decision, AuditDecision::Allowed);
    assert_eq!(log[0].timestamp_unix, 1009);
    assert_eq!(log[1].decision, AuditDecision::DeniedExpired);
    assert_eq!(log[1].timestamp_unix, 1010);
    assert_eq!(log[1].grantee, g);
    assert_eq!(log[1].capability, Capability::Camera);
}

#[test]
fn live_grant_wins_over_expired_one() {
    let mut perms = PermissionSystem::new();
    let g = Grantee::Plugin("p".into());
    perms.grant_at(g.clone(), Capability::Network, Some(1), 100);
    perms.grant_at(g.clone(), Capability::Network, None, 100);
    assert!(perms.check_at(&g, &Capability::Network, 500).is_ok());
    assert_eq!(perms.audit_log()[0].decision, AuditDecision::Allowed);
}

#[test]
fn denial_names_the_requested_capability() {
    let mut perms = PermissionSystem::new();
    let g = Grantee::Plugin("p".into());
    let req = Capability::FilesystemRead { path_prefix: "/etc/passwd".into() };
    match perms.check_at(&g, &req, 5) {
        Err(BellaError::PermissionDenied(text)) => assert_eq!(text, "filesystem:read:/etc/passwd"),
        other => panic!("expected PermissionDenied, got {:?}", other),
    }
}

#[test]
fn audit_log_is_append_only_across_operations() {
    let mut perms = PermissionSystem::new();
    let g = Grantee::Subsystem(SubsystemId::Device);
    let _ = perms.check_at(&g, &Capability::ShellExec, 1);
    perms.grant_at(g.clone(), Capability::ShellExec, None, 2);
    let _ = perms.check_at(&g, &Capability::ShellExec, 3);
    perms.revoke_all(&g);
    let _ = perms.check_at(&g, &Capability::ShellExec, 4);
    let log = perms.audit_log();
    let decisions: Vec<AuditDecision> = log.iter().map(|e| e.decision).collect();
    assert_eq!(
        decisions,
        vec![AuditDecision::DeniedNoGrant, AuditDecision::Allowed, AuditDecision::DeniedNoGrant]
    );
    assert_eq!(perms.audit_len(), 3);
}

#[test]
fn revoke_counts_only_exact_matches_and_is_idempotent() {
    let mut perms = PermissionSystem::new();
    let g = Grantee::Plugin("p".into());
    let other = Grantee::Plugin("q".into());
    perms.grant_at(g.clone(), Capability::Network, None, 0);
    perms.grant_at(g.clone(), Capability::Network, Some(5), 0);
    perms.grant_at(g.clone(), Capability::Clipboard, None, 0);
    perms.grant_at(other.clone(), Capability::Network, None, 0);
    assert_eq!(perms.revoke(&g, &Capability::Network), 2);
    assert_eq!(perms.revoke(&g, &Capability::Network), 0);
    assert!(perms.check_at(&g, &Capability::Clipboard, 1).is_ok());
    assert!(perms.check_at(&other, &Capability::Network, 1).is_ok());
    assert_eq!(perms.revoke(&Grantee::Plugin("nobody".into()), &Capability::Network), 0);
}

#[test]
fn capability_permits_and_text() {
    let read_home = Capability::FilesystemRead { path_prefix: "/home".into() };
    let read_file = Capability::FilesystemRead { path_prefix: "/home/a.txt".into() };
    let write_file = Capability::FilesystemWrite { path_prefix: "/home/a.txt".into() };
    assert!(read_home.permits(&read_file));
    assert!(!read_file.permits(&read_home));
    assert!(!read_home.permits(&write_file));
    assert!(Capability::Microphone.permits(&Capability::Microphone));
    assert!(!Capability::Microphone.permits(&Capability::Camera));
    let pa = Capability::Plugin { plugin_id: "a".into(), capability: "net".into() };
    let pb = Capability::Plugin { plugin_id: "b".into(), capability: "net".into() };
    assert!(pa.permits(&pa.clone()));
    assert!(!pa.permits(&pb));
    assert_eq!(pa.to_text(), "plugin:a:net");
    assert_eq!(write_file.to_text(), "filesystem:write:/home/a.txt");
    assert_eq!(Capability::ScreenCapture.to_text(), "screen_capture");
    assert_eq!(Capability::InputSimulation.to_text(), "input_simulation");
}

#[test]
fn grant_expiry_and_overflow() {
    let g = Grant::new_at(Grantee::Plugin("x".into()), Capability::Network, Some(60), 1000);
    assert_eq!(g.granted_at_unix, 1000);
    assert_eq!(g.expires_at_unix, Some(1060));
    assert!(!g.is_expired(1059));
    assert!(g.is_expired(1060));
    let forever = Grant::new_at(Grantee::Plugin("x".into()), Capability::Network, None, 1000);
    assert!(!forever.is_expired(u64::MAX));
    assert!(Grant::new_at_checked(Grantee::Plugin("x".into()), Capability::Network, Some(u64::MAX), 1).is_none());
    assert!(Grant::new_at_checked(Grantee::Plugin("x".into()), Capability::Network, Some(u64::MAX - 1), 1).is_some());
    let now = Grant::new(Grantee::Plugin("x".into()), Capability::Network, Some(5)).unwrap();
    assert_eq!(now.expires_at_unix, Some(now.granted_at_unix + 5));
}

#[test]
fn grant_with_overflowing_ttl_is_refused() {
    let mut perms = PermissionSystem::new();
    let g = Grantee::Plugin("x".into());
    assert!(matches!(perms.grant(g.clone(), Capability::Network, Some(u64::MAX)), Err(BellaError::Internal(_))));
    assert!(perms.check(&g, &Capability::Network).is_err());
    assert_eq!(perms.audit_log()[0].decision, AuditDecision::DeniedNoGrant);
}

#[test]
fn now_unix_reads_the_clock() {
    let t = bella::clock::now_unix().unwrap();
    assert!(t > 1_600_000_000);
}

#[test]
fn prefix_scoping_composes_and_expiry_is_permanent() {
    let a = Capability::FilesystemRead { path_prefix: "/a".into() };
    let ab = Capability::FilesystemRead { path_prefix: "/a/b".into() };
    let abc = Capability::FilesystemRead { path_prefix: "/a/b/c".into() };
    assert!(a.permits(&ab) && ab.permits(&abc) && a.permits(&abc));
    let g = Grant::new_at(Grantee::Plugin("x".into()), a, Some(0), 50);
    assert!(g.is_expired(50));
    assert!(g.is_expired(51));
    assert!(g.is_expired(u64::MAX));
    assert!(!g.is_expired(49));
}

#[test]
fn filesystem_grant_does_not_cover_sibling_paths() {
    let mut perms = PermissionSystem::new();
    let grantee = Grantee::Plugin("notes-plugin".into());
    perms
        .grant(grantee.clone(), Capability::FilesystemWrite { path_prefix: "/home/notcandy/notes".into() }, None)
        .unwrap();
    let sibling = Capability::FilesystemWrite { path_prefix: "/home/notcandy/notes-private/key".into() };
    let itself = Capability::FilesystemWrite { path_prefix: "/home/notcandy/notes".into() };
    assert!(perms.check(&grantee, &sibling).is_err());
    assert!(perms.check(&grantee, &itself).is_ok());
    let dir = Capability::FilesystemRead { path_prefix: "/srv/".into() };
    assert!(dir.permits(&Capability::FilesystemRead { path_prefix: "/srv/data".into() }));
    assert!(!dir.permits(&Capability::FilesystemRead { path_prefix: "/srvx".into() }));
    assert!(bella::text::covers_path("/a", "/a/b"));
    assert!(!bella::text::covers_path("/a", "/ab"));
    assert!(bella::text::covers_path("/a", "/a"));
    assert!(!bella::text::covers_path("/a/b", "/a"));
}
