//! Dispute-enforced two-party computation.
//!
//! A contributor and an evaluator jointly evaluate a boolean circuit with a
//! garbled-circuit protocol, one gate per exchange of messages. The hash
//! commitments to the wire labels are then laid out as script fragments, so
//! that a party who reveals a label that was never committed can be punished.
//!
//! The circuit, the two parties and a whole session on one machine:
//! [`circuit`], [`states`], [`simulate`], with the protocol as mathematics in
//! [`protocol`] and the proof that a session computes the circuit in
//! [`session`]. The scripts: [`script`], with their meaning in
//! [`script_model`] and what each demands in [`fragment_laws`].

pub mod chains;
pub mod circuit;
pub mod error;
pub mod fragment_laws;
pub mod garble;
pub mod hashing;
pub mod keys;
pub mod protocol;
pub mod random;
pub mod script;
pub mod script_builder;
pub mod script_model;
pub mod session;
pub mod simulate;
pub mod states;
pub mod wire_format;

pub use circuit::{Circuit, CircuitView, Gate, ValidationError};
pub use error::{Error, ProtocolError};
pub use keys::{PublicKey, ScriptBuildError};
pub use protocol::Phase;
pub use simulate::{simulate, simulate_traced};
