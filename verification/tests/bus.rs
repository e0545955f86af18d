use bella::bus::{MessageBus, INBOX_CAPACITY};
use bella::error::BellaError;
use bella::message::{Envelope, LifecycleEvent, Payload};
use bella::subsystem::SubsystemId;

#[test]
fn send_delivers_to_registered_subsystem() {
    let mut bus = MessageBus::new();
    let mut rx = bus.register(SubsystemId::Voice);

    let envelope = Envelope::new_root(
        SubsystemId::Core,
        SubsystemId::Voice,
        Payload::UserUtterance { text: "hello".into() },
    ).unwrap();
    bus.send(envelope).expect("send should succeed");

    let received = rx.try_recv().expect("should receive message");
    match received.payload {
        Payload::UserUtterance { text } => assert_eq!(text, "hello"),
        _ => panic!("wrong payload variant"),
    }
}

#[test]
fn send_to_unregistered_subsystem_errors() {
    let bus = MessageBus::new();
    let envelope = Envelope::new_root(
        SubsystemId::Core,
        SubsystemId::Vision,
        Payload::Lifecycle(LifecycleEvent::Started),
    ).unwrap();
    let result = bus.send(envelope);
    assert!(matches!(result, Err(BellaError::SubsystemNotFound(_))));
}

#[test]
fn full_inbox_returns_backpressure_error_not_deadlock() {
    let mut bus = MessageBus::new();
    let _rx = bus.register(SubsystemId::Memory); // never drained

    let mut last_result = Ok(());
    for _ in 0..(INBOX_CAPACITY + 10) {
        let envelope = Envelope::new_root(
            SubsystemId::Core,
            SubsystemId::Memory,
            Payload::Lifecycle(LifecycleEvent::Ready),
        ).unwrap();
        last_result = bus.send(envelope);
    }
    assert!(matches!(last_result, Err(BellaError::ChannelFull(_))));
}

#[test]
fn correlation_id_propagates_across_a_chain() {
    let root = Envelope::new_root(
        SubsystemId::Voice,
        SubsystemId::Context,
        Payload::UserUtterance { text: "hi".into() },
    ).unwrap();
    let corr = root.correlation_id;
    let next = Envelope::new(
        SubsystemId::Context,
        SubsystemId::Reasoning,
        corr,
        Payload::AssembledContext { context_json: "{}".into() },
    ).unwrap();
    assert_eq!(root.correlation_id, next.correlation_id);
    assert_ne!(root.id, next.id);
    let _ = uuid::Uuid::new_v4();
}

#[test]
fn with_ids_keeps_every_field() {
    let e = Envelope::with_ids(11, SubsystemId::Voice, SubsystemId::Context, 7, Payload::SpeakText { text: "s".into() });
    assert_eq!(e.id, 11);
    assert_eq!(e.correlation_id, 7);
    assert_eq!(e.source, SubsystemId::Voice);
    assert_eq!(e.destination, SubsystemId::Context);
}

#[test]
fn fresh_ids_carry_version_and_variant() {
    let id = bella::ids::new_id().unwrap();
    let u = uuid::Uuid::from_u128(id);
    assert_eq!(u.get_version_num(), 4);
    assert_eq!(u.get_variant(), uuid::Variant::RFC4122);
    assert_ne!(bella::ids::new_id().unwrap(), id);
}

#[test]
fn full_inbox_error_names_the_destination() {
    let mut bus = MessageBus::new();
    let _rx = bus.register(SubsystemId::Memory);
    for i in 0..(INBOX_CAPACITY + 1) {
        let envelope = Envelope::new_root(
            SubsystemId::Core,
            SubsystemId::Memory,
            Payload::Lifecycle(LifecycleEvent::Ready),
        ).unwrap();
        let r = bus.send(envelope);
        if i < INBOX_CAPACITY {
            assert!(r.is_ok());
        } else {
            match r {
                Err(BellaError::ChannelFull(name)) => assert_eq!(name, "memory"),
                other => panic!("expected ChannelFull, got {:?}", other),
            }
        }
    }
}

#[test]
fn dropped_receiver_reports_closed_channel() {
    let mut bus = MessageBus::new();
    let rx = bus.register(SubsystemId::Device);
    drop(rx);
    let envelope = Envelope::new_root(
        SubsystemId::Core,
        SubsystemId::Device,
        Payload::SpeakText { text: "x".into() },
    ).unwrap();
    match bus.send(envelope) {
        Err(BellaError::ChannelClosed(name)) => assert_eq!(name, "device"),
        other => panic!("expected ChannelClosed, got {:?}", other),
    }
}

#[test]
fn unregistered_error_names_the_destination() {
    let bus = MessageBus::new();
    let envelope = Envelope::new_root(
        SubsystemId::Core,
        SubsystemId::PluginRuntime,
        Payload::Lifecycle(LifecycleEvent::Started),
    ).unwrap();
    match bus.send(envelope) {
        Err(BellaError::SubsystemNotFound(name)) => assert_eq!(name, "plugin_runtime"),
        other => panic!("expected SubsystemNotFound, got {:?}", other),
    }
}

#[test]
fn register_deregister_and_is_registered() {
    let mut bus = MessageBus::new();
    assert!(!bus.is_registered(SubsystemId::Voice));
    let _a = bus.register(SubsystemId::Voice);
    let _b = bus.register(SubsystemId::Context);
    assert!(bus.is_registered(SubsystemId::Voice));
    assert!(bus.is_registered(SubsystemId::Context));
    bus.deregister(SubsystemId::Voice);
    assert!(!bus.is_registered(SubsystemId::Voice));
    assert!(bus.is_registered(SubsystemId::Context));
    let envelope = Envelope::new_root(SubsystemId::Core, SubsystemId::Voice, Payload::SpeakText { text: "x".into() }).unwrap();
    assert!(matches!(bus.send(envelope), Err(BellaError::SubsystemNotFound(_))));
}

#[test]
fn reregistering_replaces_the_inbox() {
    let mut bus = MessageBus::new();
    let mut old_rx = bus.register(SubsystemId::Voice);
    let mut new_rx = bus.register(SubsystemId::Voice);
    let envelope = Envelope::new_root(SubsystemId::Core, SubsystemId::Voice, Payload::SpeakText { text: "y".into() }).unwrap();
    bus.send(envelope).unwrap();
    assert!(new_rx.try_recv().is_ok());
    assert!(old_rx.try_recv().is_err());
    assert_eq!(bus.broadcast_targets(SubsystemId::Core), vec![SubsystemId::Voice]);
}

#[test]
fn broadcast_reaches_everyone_but_the_sender() {
    let mut bus = MessageBus::new();
    let mut voice = bus.register(SubsystemId::Voice);
    let mut context = bus.register(SubsystemId::Context);
    let mut core = bus.register(SubsystemId::Core);
    assert_eq!(
        bus.broadcast_targets(SubsystemId::Core),
        vec![SubsystemId::Voice, SubsystemId::Context]
    );
    let offered = bus.broadcast_except(SubsystemId::Core, |id| {
        Envelope::new_root(SubsystemId::Core, id, Payload::Lifecycle(LifecycleEvent::ShuttingDown)).unwrap()
    });
    assert_eq!(offered, vec![SubsystemId::Voice, SubsystemId::Context]);
    let v = voice.try_recv().unwrap();
    assert_eq!(v.destination, SubsystemId::Voice);
    assert!(matches!(v.payload, Payload::Lifecycle(LifecycleEvent::ShuttingDown)));
    assert_eq!(context.try_recv().unwrap().destination, SubsystemId::Context);
    assert!(core.try_recv().is_err());
}

#[test]
fn subsystem_names() {
    assert_eq!(SubsystemId::Core.to_text(), "core");
    assert_eq!(SubsystemId::ActionRouter.to_text(), "action_router");
    assert_eq!(SubsystemId::PluginRuntime.to_text(), "plugin_runtime");
    assert_eq!(SubsystemId::Voice.to_text(), "voice");
}

#[test]
fn fresh_ids_are_version_four() {
    let e = Envelope::new_root(SubsystemId::Core, SubsystemId::Voice, Payload::SpeakText { text: "z".into() }).unwrap();
    assert_eq!((e.id >> 76) & 0xf, 4);
    assert_eq!((e.correlation_id >> 76) & 0xf, 4);
    assert_eq!(uuid::Uuid::from_u128(e.id).get_version_num(), 4);
}
