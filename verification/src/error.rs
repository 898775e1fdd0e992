//! The errors of a session.

use crate::circuit::ValidationError;
use vstd::prelude::*;

verus! {

/// Why a party refused a message. Each of these ends the session: a step is
/// never retried.
#[derive(Clone, Copy, Debug, PartialEq, Eq, Structural)]
pub enum ProtocolError {
    /// The party has taken all its steps already.
    StepMismatch,
    /// The message is not the one that the party's next step expects.
    MalformedMessage,
    /// The output was asked for before the last step.
    IncompleteCircuit,
}

/// Why a session could not be set up or did not finish.
#[derive(Clone, Copy, Debug, PartialEq, Eq, Structural)]
pub enum Error {
    /// The circuit is not well formed.
    Validation(ValidationError),
    /// The circuit has more gates than a session can number.
    CircuitTooLarge,
    /// The number of input bits is not the number of the party's input gates.
    InputCount,
    /// The label or nonce material has not the length that the circuit needs.
    MaterialLength,
    /// A party refused a message.
    Protocol(ProtocolError),
}

} // verus!
