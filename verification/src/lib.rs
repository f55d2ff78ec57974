//! A bilateral freight-shipment agreement settled through an escrowed
//! payment, recorded on a shared append-only ledger.
//!
//! The core is the contract state machine: the allowed status transitions,
//! the authorization rule attached to each transition, the telemetry
//! accumulated during transit, and the deadline-based settlement
//! computation. Storage, caller-signature verification, the ledger clock
//! and event transport are external collaborators: the host shell feeds
//! this core authenticated caller identities and ledger timestamps as
//! plain values and persists what the core hands back.

pub mod types;
pub mod transition;
pub mod ledger;
pub mod laws;

pub use types::Error;
pub use types::Status;
pub use types::Identity;
pub use types::FreightContract;
pub use ledger::Event;
pub use ledger::RoadFreight;
