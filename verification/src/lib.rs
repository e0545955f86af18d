//! Bella: the verified core of a local-first assistant daemon — subsystem
//! addressing and the message contract, the message bus's routing rules,
//! the permission system with its append-only audit trail, the episodic
//! memory store, the supervisor's restart policy, and the reference Voice
//! and Context subsystems' decisions.

pub mod text;
pub mod clock;
pub mod ids;
pub mod error;
pub mod subsystem;
pub mod message;
pub mod bus;
pub mod capability;
pub mod grant;
pub mod system;
pub mod permission_laws;
pub mod types;
pub mod store;
pub mod memory_laws;
pub mod supervisor;
pub mod demo;

pub use bus::MessageBus;
pub use capability::Capability;
pub use error::{BellaError, BellaResult};
pub use grant::{AuditDecision, AuditEntry, Grant, Grantee};
pub use message::{Envelope, LifecycleEvent, Payload};
pub use store::MemoryStore;
pub use subsystem::SubsystemId;
pub use system::PermissionSystem;
pub use types::{Episode, NewEpisode};
