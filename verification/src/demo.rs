//! The reference Voice and Context subsystems' decisions: what each does
//! with an incoming envelope. Their tasks (receiving, sending, touching
//! persistent memory, logging) run around these decisions.
use vstd::prelude::*;
use crate::capability::{Capability, CapabilityView};
use crate::error::BellaError;
use crate::grant::{AuditDecision, Grantee, GranteeView};
use crate::message::{Envelope, LifecycleEvent, Payload};
use crate::system::{audit_entry_for, decide, PermissionSystem};
use crate::clock::now_unix;
use crate::ids::{is_random_uuid, new_id};
use crate::subsystem::SubsystemId;
use crate::types::NewEpisode;

verus! {

/// The text `format!("{:?}", s)` gives for a string `s`: Rust's debug
/// quoting (surrounding double quotes, with escapes).
pub uninterp spec fn debug_quoted(s: Seq<char>) -> Seq<char>;

/// Calls std's `Debug` formatting of a string (`format!("{:?}", s)`); the
/// result, a function of `s` alone, is named `debug_quoted`.
#[verifier::external_body]
fn debug_quote(s: &str) -> (r: String)
    ensures
        r@ == debug_quoted(s@),
{
    format!("{:?}", s)
}

/// The context the Voice subsystem forwards for an utterance:
/// `{"utterance":<the utterance, debug-quoted>}`.
pub open spec fn utterance_context(text: Seq<char>) -> Seq<char> {
    "{\"utterance\":"@ + debug_quoted(text) + "}"@
}

/// The context text forwarded for an utterance.
pub fn utterance_context_json(text: &str) -> (json: String)
    ensures
        json@ == utterance_context(text@),
{
    let quoted = debug_quote(text);
    String::from_str("{\"utterance\":").concat(quoted.as_str()).concat("}")
}

/// What the Voice subsystem does with one envelope.
pub enum VoiceStep {
    /// Send this envelope on.
    Forward(Envelope),
    /// The utterance is dropped: the microphone check failed with this error.
    Denied(BellaError),
    /// A shutdown was requested: leave the run loop cleanly.
    Shutdown,
    /// Nothing to do for this payload.
    Ignored,
}

/// Reference Voice subsystem: on an utterance it checks (through the
/// permission system) that Voice may use the microphone, then forwards the
/// utterance as assembled context to `forward_to`.
pub struct DemoVoiceSubsystem {
    pub forward_to: SubsystemId,
}

impl DemoVoiceSubsystem {
    /// A Voice subsystem that forwards to `forward_to`.
    pub fn new(forward_to: SubsystemId) -> (s: Self)
        ensures
            s.forward_to == forward_to,
    {
        DemoVoiceSubsystem { forward_to }
    }

    /// Its bus address: `Voice`.
    pub fn id(&self) -> (id: SubsystemId)
        ensures
            id == SubsystemId::Voice,
    {
        SubsystemId::Voice
    }

    /// Handle one envelope at the given second `now_unix`, naming a
    /// forwarded envelope `out_id`. An utterance is checked: Voice's use of
    /// the microphone is decided and audited like every other check; the
    /// utterance is forwarded (as assembled context, within the same
    /// interaction) exactly when that check is allowed, and dropped with the
    /// check's `PermissionDenied` error otherwise. A shutdown request ends
    /// the run loop; anything else is ignored. Only an utterance touches the
    /// permission system.
    pub fn handle_at(&self, envelope: Envelope, permissions: &mut PermissionSystem, now_unix: u64, out_id: u128) -> (step: VoiceStep)
        ensures
            final(permissions)@.grants == old(permissions)@.grants,
            envelope.payload matches Payload::UserUtterance { text } ==> {
                let d = decide(old(permissions)@.grants, GranteeView::Subsystem(SubsystemId::Voice), CapabilityView::Microphone, now_unix);
                &&& final(permissions)@.audit == old(permissions)@.audit.push(
                    audit_entry_for(old(permissions)@.grants, GranteeView::Subsystem(SubsystemId::Voice), CapabilityView::Microphone, now_unix),
                )
                &&& (step is Forward <==> d == AuditDecision::Allowed)
                &&& step matches VoiceStep::Forward(out) ==> forwards_utterance(out, out_id, self.forward_to, envelope.correlation_id, text@)
                &&& d != AuditDecision::Allowed ==> (step matches VoiceStep::Denied(BellaError::PermissionDenied(t)) && t@ == "microphone"@)
            },
            envelope.payload matches Payload::Lifecycle(LifecycleEvent::ShuttingDown) ==> step is Shutdown
                && final(permissions)@ == old(permissions)@,
            !(envelope.payload is UserUtterance) && !(envelope.payload matches Payload::Lifecycle(LifecycleEvent::ShuttingDown))
                ==> step is Ignored && final(permissions)@ == old(permissions)@,
    {
        match envelope.payload {
            Payload::UserUtterance { text } => {
                let grantee = Grantee::Subsystem(SubsystemId::Voice);
                let mic = Capability::Microphone;
                proof { reveal_strlit("microphone"); }
                match permissions.check_at(&grantee, &mic, now_unix) {
                    Ok(()) => {
                        let out = Envelope::with_ids(
                            out_id,
                            SubsystemId::Voice,
                            self.forward_to,
                            envelope.correlation_id,
                            Payload::AssembledContext { context_json: utterance_context_json(text.as_str()) },
                        );
                        VoiceStep::Forward(out)
                    },
                    Err(e) => VoiceStep::Denied(e),
                }
            },
            Payload::Lifecycle(LifecycleEvent::ShuttingDown) => VoiceStep::Shutdown,
            _ => VoiceStep::Ignored,
        }
    }

    /// Handle one envelope now: an utterance is handled as by `handle_at` at
    /// the second the clock reads, under a fresh random envelope id (that
    /// second is the one the appended audit entry records). When the clock
    /// reads before the epoch or the random source fails, the utterance is
    /// dropped with an `Internal` error and nothing is checked or audited.
    pub fn handle(&self, envelope: Envelope, permissions: &mut PermissionSystem) -> (step: VoiceStep)
        ensures
            final(permissions)@.grants == old(permissions)@.grants,
            envelope.payload matches Payload::UserUtterance { text } ==> {
                &&& step matches VoiceStep::Denied(BellaError::Internal(_)) ==> final(permissions)@ == old(permissions)@
                &&& !(step matches VoiceStep::Denied(BellaError::Internal(_))) ==> {
                    let t = final(permissions)@.audit.last().timestamp_unix;
                    let d = decide(old(permissions)@.grants, GranteeView::Subsystem(SubsystemId::Voice), CapabilityView::Microphone, t);
                    &&& crate::clock::clock_reading(t)
                    &&& final(permissions)@.audit == old(permissions)@.audit.push(
                        audit_entry_for(old(permissions)@.grants, GranteeView::Subsystem(SubsystemId::Voice), CapabilityView::Microphone, t),
                    )
                    &&& (step is Forward <==> d == AuditDecision::Allowed)
                    &&& step matches VoiceStep::Forward(out) ==> is_random_uuid(out.id)
                        && forwards_utterance(out, out.id, self.forward_to, envelope.correlation_id, text@)
                    &&& d != AuditDecision::Allowed ==> (step matches VoiceStep::Denied(BellaError::PermissionDenied(m)) && m@ == "microphone"@)
                }
            },
            envelope.payload matches Payload::Lifecycle(LifecycleEvent::ShuttingDown) ==> step is Shutdown
                && final(permissions)@ == old(permissions)@,
            !(envelope.payload is UserUtterance) && !(envelope.payload matches Payload::Lifecycle(LifecycleEvent::ShuttingDown))
                ==> step is Ignored && final(permissions)@ == old(permissions)@,
    {
        if let Payload::UserUtterance { .. } = &envelope.payload {
            let now = match now_unix() {
                Some(now) => now,
                None => {
                    return VoiceStep::Denied(BellaError::Internal(String::from_str("system clock before unix epoch")));
                },
            };
            let id = match new_id() {
                Some(id) => id,
                None => {
                    return VoiceStep::Denied(BellaError::Internal(String::from_str("system random source unavailable")));
                },
            };
            self.handle_at(envelope, permissions, now, id)
        } else {
            self.handle_at(envelope, permissions, 0, 0)
        }
    }
}

/// `out` forwards the utterance `text` of interaction `correlation_id` from
/// Voice to `forward_to` under the id `id`, as assembled context.
pub open spec fn forwards_utterance(out: Envelope, id: u128, forward_to: SubsystemId, correlation_id: u128, text: Seq<char>) -> bool {
    &&& out.id == id
    &&& out.source == SubsystemId::Voice
    &&& out.destination == forward_to
    &&& out.correlation_id == correlation_id
    &&& out.payload matches Payload::AssembledContext { context_json } && context_json@ == utterance_context(text)
}

/// How many recent episodes the Context subsystem recalls after recording
/// one.
pub const RECALL_LIMIT: u32 = 3;

/// The kind tag of the episodes the Context subsystem records.
pub open spec fn assembled_context_kind() -> Seq<char> {
    "assembled_context"@
}

/// What the Context subsystem does with one envelope.
pub enum ContextStep {
    /// Record this episode, then recall the `RECALL_LIMIT` most recent ones.
    Record(NewEpisode),
    /// A shutdown was requested: leave the run loop cleanly.
    Shutdown,
    /// Nothing to do for this payload.
    Ignored,
}

/// Reference Context subsystem: it records each assembled context it
/// receives as an episode of the interaction it belongs to, then recalls
/// recent episodes.
pub struct DemoContextSubsystem;

impl DemoContextSubsystem {
    /// The Context subsystem.
    pub fn new() -> (s: Self) {
        DemoContextSubsystem
    }

    /// Its bus address: `Context`.
    pub fn id(&self) -> (id: SubsystemId)
        ensures
            id == SubsystemId::Context,
    {
        SubsystemId::Context
    }

    /// Handle one envelope: assembled context becomes an episode of kind
    /// `assembled_context` in the envelope's interaction; a shutdown request
    /// ends the run loop; anything else is ignored.
    pub fn handle(&self, envelope: Envelope) -> (step: ContextStep)
        ensures
            envelope.payload matches Payload::AssembledContext { context_json } ==> step matches ContextStep::Record(new) && {
                &&& new.correlation_id == envelope.correlation_id
                &&& new.content == context_json
                &&& new.kind@ == assembled_context_kind()
            },
            envelope.payload matches Payload::Lifecycle(LifecycleEvent::ShuttingDown) ==> step is Shutdown,
            !(envelope.payload is AssembledContext) && !(envelope.payload matches Payload::Lifecycle(LifecycleEvent::ShuttingDown))
                ==> step is Ignored,
    {
        match envelope.payload {
            Payload::AssembledContext { context_json } => ContextStep::Record(NewEpisode {
                correlation_id: envelope.correlation_id,
                content: context_json,
                kind: String::from_str("assembled_context"),
            }),
            Payload::Lifecycle(LifecycleEvent::ShuttingDown) => ContextStep::Shutdown,
            _ => ContextStep::Ignored,
        }
    }
}

} // verus!
