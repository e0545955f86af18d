use vstd::prelude::*;
use crate::ids::{is_random_uuid, new_id};
use crate::error::{BellaError, BellaResult};
use crate::subsystem::SubsystemId;

verus! {

/// Generic health/lifecycle signal used by the supervisor.
#[derive(Debug)]
pub enum LifecycleEvent {
    Started,
    Ready,
    ShuttingDown,
    /// A subsystem reports its own failure before the supervisor restarts
    /// it.
    Failed { reason: String },
}

/// The set of message payloads subsystems can exchange: a subsystem is
/// defined by which of these it accepts and emits.
#[derive(Debug)]
pub enum Payload {
    /// Raw transcribed user utterance from the Voice subsystem.
    UserUtterance { text: String },
    /// Assembled prompt context, ready for the Reasoning Engine.
    AssembledContext { context_json: String },
    /// A proposed action coming back from the Reasoning Engine.
    ProposedAction { action_kind: String, action_args_json: String },
    /// Action Router's verdict after a permission check.
    ActionApproved { action_kind: String },
    ActionDenied { action_kind: String, reason: String },
    /// Text ready to be spoken back to the user.
    SpeakText { text: String },
    /// Generic health/lifecycle signal used by the supervisor.
    Lifecycle(LifecycleEvent),
}

impl Clone for LifecycleEvent {
    fn clone(&self) -> (r: Self)
        ensures
            r == *self,
    {
        match self {
            LifecycleEvent::Started => LifecycleEvent::Started,
            LifecycleEvent::Ready => LifecycleEvent::Ready,
            LifecycleEvent::ShuttingDown => LifecycleEvent::ShuttingDown,
            LifecycleEvent::Failed { reason } => LifecycleEvent::Failed { reason: reason.clone() },
        }
    }
}

impl Clone for Payload {
    fn clone(&self) -> (r: Self)
        ensures
            r == *self,
    {
        match self {
            Payload::UserUtterance { text } => Payload::UserUtterance { text: text.clone() },
            Payload::AssembledContext { context_json } => Payload::AssembledContext {
                context_json: context_json.clone(),
            },
            Payload::ProposedAction { action_kind, action_args_json } => Payload::ProposedAction {
                action_kind: action_kind.clone(),
                action_args_json: action_args_json.clone(),
            },
            Payload::ActionApproved { action_kind } => Payload::ActionApproved {
                action_kind: action_kind.clone(),
            },
            Payload::ActionDenied { action_kind, reason } => Payload::ActionDenied {
                action_kind: action_kind.clone(),
                reason: reason.clone(),
            },
            Payload::SpeakText { text } => Payload::SpeakText { text: text.clone() },
            Payload::Lifecycle(e) => Payload::Lifecycle(e.clone()),
        }
    }
}

/// Every message on the bus is wrapped in an envelope carrying routing and
/// tracing metadata: who sent what to whom, within which interaction.
#[derive(Debug)]
pub struct Envelope {
    /// Unique id of this message.
    pub id: u128,
    /// Correlates a chain of messages belonging to one user interaction.
    pub correlation_id: u128,
    pub source: SubsystemId,
    pub destination: SubsystemId,
    pub payload: Payload,
}

impl Clone for Envelope {
    fn clone(&self) -> (r: Self)
        ensures
            r == *self,
    {
        Envelope {
            id: self.id,
            correlation_id: self.correlation_id,
            source: self.source,
            destination: self.destination,
            payload: self.payload.clone(),
        }
    }
}

/// The text of the error a failed random source is reported with.
pub open spec fn random_source_error_text() -> Seq<char> {
    "system random source unavailable"@
}

impl Envelope {
    /// The message with the given id, within interaction `correlation_id`.
    pub fn with_ids(id: u128, source: SubsystemId, destination: SubsystemId, correlation_id: u128, payload: Payload) -> (e: Envelope)
        ensures
            e.id == id,
            e.source == source,
            e.destination == destination,
            e.correlation_id == correlation_id,
            e.payload == payload,
    {
        Envelope { id, correlation_id, source, destination, payload }
    }

    /// A message within the interaction `correlation_id`, under a fresh
    /// random id. Fails with an `Internal` error when the system's random
    /// source fails.
    pub fn new(source: SubsystemId, destination: SubsystemId, correlation_id: u128, payload: Payload) -> (r: BellaResult<Envelope>)
        ensures
            r matches Ok(e) ==> {
                &&& e.source == source
                &&& e.destination == destination
                &&& e.correlation_id == correlation_id
                &&& e.payload == payload
                &&& is_random_uuid(e.id)
            },
            r matches Err(err) ==> err matches BellaError::Internal(t) && t@ == random_source_error_text(),
    {
        match new_id() {
            Some(id) => Ok(Self::with_ids(id, source, destination, correlation_id, payload)),
            None => Err(BellaError::Internal(String::from_str("system random source unavailable"))),
        }
    }

    /// The first message of a new interaction chain: a fresh random
    /// correlation id. Fails with an `Internal` error when the system's
    /// random source fails.
    pub fn new_root(source: SubsystemId, destination: SubsystemId, payload: Payload) -> (r: BellaResult<Envelope>)
        ensures
            r matches Ok(e) ==> {
                &&& e.source == source
                &&& e.destination == destination
                &&& e.payload == payload
                &&& is_random_uuid(e.id)
                &&& is_random_uuid(e.correlation_id)
            },
            r matches Err(err) ==> err matches BellaError::Internal(t) && t@ == random_source_error_text(),
    {
        match new_id() {
            Some(correlation_id) => Self::new(source, destination, correlation_id, payload),
            None => Err(BellaError::Internal(String::from_str("system random source unavailable"))),
        }
    }
}

} // verus!
