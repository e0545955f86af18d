use bella::demo::{utterance_context_json, ContextStep, DemoContextSubsystem, DemoVoiceSubsystem, VoiceStep, RECALL_LIMIT};
use bella::capability::Capability;
use bella::grant::{AuditDecision, Grantee};
use bella::message::{Envelope, LifecycleEvent, Payload};
use bella::subsystem::SubsystemId;
use bella::supervisor::{Directive, RestartPolicy, RunOutcome, MAX_RESTARTS, RESTART_BACKOFF_MS};
use bella::system::PermissionSystem;

#[test]
fn failing_subsystem_is_restarted_five_times_then_given_up() {
    let mut p = RestartPolicy::new();
    let mut restarts = 0;
    loop {
        match p.after_exit(RunOutcome::Panicked, false) {
            Directive::Restart => restarts += 1,
            Directive::Stop => break,
        }
    }
    assert_eq!(restarts, 5);
    assert_eq!(MAX_RESTARTS, 5);
    assert_eq!(RESTART_BACKOFF_MS, 500);
    assert_eq!(p.restart_count(), 6);
    assert_eq!(p.after_exit(RunOutcome::Failed, false), Directive::Stop);
}

#[test]
fn clean_exit_and_shutdown_stop_supervision() {
    let mut p = RestartPolicy::new();
    assert_eq!(p.after_exit(RunOutcome::Failed, false), Directive::Restart);
    assert_eq!(p.after_exit(RunOutcome::Clean, false), Directive::Stop);
    assert_eq!(p.after_exit(RunOutcome::Failed, true), Directive::Stop);
    assert_eq!(p.restart_count(), 1);
    assert!(RestartPolicy::may_start(false));
    assert!(!RestartPolicy::may_start(true));
}

#[test]
fn voice_forwards_only_with_microphone_permission() {
    let voice = DemoVoiceSubsystem::new(SubsystemId::Context);
    assert_eq!(voice.id(), SubsystemId::Voice);
    let mut perms = PermissionSystem::new();
    let utter = Envelope::new_root(SubsystemId::Core, SubsystemId::Voice, Payload::UserUtterance { text: "hi \"there\"".into() }).unwrap();
    let corr = utter.correlation_id;
    match voice.handle(utter.clone(), &mut perms) {
        VoiceStep::Denied(_) => {}
        _ => panic!("expected a denial without a grant"),
    }
    perms.grant(Grantee::Subsystem(SubsystemId::Voice), Capability::Microphone, None).unwrap();
    match voice.handle(utter, &mut perms) {
        VoiceStep::Forward(out) => {
            assert_eq!(out.source, SubsystemId::Voice);
            assert_eq!(out.destination, SubsystemId::Context);
            assert_eq!(out.correlation_id, corr);
            match out.payload {
                Payload::AssembledContext { context_json } => {
                    assert_eq!(context_json, "{\"utterance\":\"hi \\\"there\\\"\"}")
                }
                _ => panic!("wrong payload"),
            }
        }
        _ => panic!("expected forwarding"),
    }
    let log = perms.audit_log();
    assert_eq!(log.len(), 2);
    assert_eq!(log[0].decision, AuditDecision::DeniedNoGrant);
    assert_eq!(log[1].decision, AuditDecision::Allowed);
    let stop = Envelope::new_root(SubsystemId::Core, SubsystemId::Voice, Payload::Lifecycle(LifecycleEvent::ShuttingDown)).unwrap();
    assert!(matches!(voice.handle(stop, &mut perms), VoiceStep::Shutdown));
    let other = Envelope::new_root(SubsystemId::Core, SubsystemId::Voice, Payload::SpeakText { text: "x".into() }).unwrap();
    assert!(matches!(voice.handle(other, &mut perms), VoiceStep::Ignored));
    assert_eq!(perms.audit_log().len(), 2);
}

#[test]
fn utterance_context_is_debug_quoted_json() {
    assert_eq!(utterance_context_json("what's on my calendar today"), "{\"utterance\":\"what's on my calendar today\"}");
    assert_eq!(utterance_context_json("a\nb"), "{\"utterance\":\"a\\nb\"}");
}

#[test]
fn context_records_assembled_context() {
    let ctx = DemoContextSubsystem::new();
    assert_eq!(ctx.id(), SubsystemId::Context);
    assert_eq!(RECALL_LIMIT, 3);
    let e = Envelope::new_root(SubsystemId::Voice, SubsystemId::Context, Payload::AssembledContext { context_json: "{}".into() }).unwrap();
    let corr = e.correlation_id;
    match ctx.handle(e) {
        ContextStep::Record(new) => {
            assert_eq!(new.correlation_id, corr);
            assert_eq!(new.content, "{}");
            assert_eq!(new.kind, "assembled_context");
        }
        _ => panic!("expected a record"),
    }
    let stop = Envelope::new_root(SubsystemId::Core, SubsystemId::Context, Payload::Lifecycle(LifecycleEvent::ShuttingDown)).unwrap();
    assert!(matches!(ctx.handle(stop), ContextStep::Shutdown));
    let other = Envelope::new_root(SubsystemId::Core, SubsystemId::Context, Payload::UserUtterance { text: "x".into() }).unwrap();
    assert!(matches!(ctx.handle(other), ContextStep::Ignored));
}

#[test]
fn voice_handle_at_is_exact_about_the_check() {
    let voice = DemoVoiceSubsystem::new(SubsystemId::Context);
    let mut perms = PermissionSystem::new();
    let utter = Envelope::with_ids(1, SubsystemId::Core, SubsystemId::Voice, 7, Payload::UserUtterance { text: "hi".into() });
    match voice.handle_at(utter.clone(), &mut perms, 100, 42) {
        VoiceStep::Denied(bella::error::BellaError::PermissionDenied(t)) => assert_eq!(t, "microphone"),
        _ => panic!("expected a permission denial"),
    }
    perms.grant_at(Grantee::Subsystem(SubsystemId::Voice), Capability::Microphone, Some(10), 100);
    match voice.handle_at(utter.clone(), &mut perms, 105, 42) {
        VoiceStep::Forward(out) => {
            assert_eq!(out.id, 42);
            assert_eq!(out.correlation_id, 7);
            assert!(matches!(out.payload, Payload::AssembledContext { ref context_json } if context_json == "{\"utterance\":\"hi\"}"));
        }
        _ => panic!("expected forwarding"),
    }
    assert!(matches!(voice.handle_at(utter, &mut perms, 110, 42), VoiceStep::Denied(_)));
    let log = perms.audit_log();
    let got: Vec<(u64, AuditDecision)> = log.iter().map(|e| (e.timestamp_unix, e.decision)).collect();
    assert_eq!(got, vec![(100, AuditDecision::DeniedNoGrant), (105, AuditDecision::Allowed), (110, AuditDecision::DeniedExpired)]);
    assert!(log.iter().all(|e| e.grantee == Grantee::Subsystem(SubsystemId::Voice) && e.capability == Capability::Microphone));
}

#[test]
fn shutdown_request_stops_everything() {
    let mut p = RestartPolicy::new();
    assert_eq!(p.after_exit(RunOutcome::Panicked, true), Directive::Stop);
    assert_eq!(p.after_exit(RunOutcome::Failed, true), Directive::Stop);
    assert_eq!(p.restart_count(), 0);
}
