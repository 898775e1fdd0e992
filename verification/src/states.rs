//! The two parties of a session, each a state that one message moves on.

use crate::circuit::{bound_bits, Circuit, Gate};
use crate::error::Error;
use crate::protocol::{setup_refusal, MAX_GATES};
use vstd::prelude::*;

pub mod contributor;
pub mod evaluator;

pub use contributor::Contributor;
pub use evaluator::Evaluator;

verus! {

/// Checks that a party can take part in a session on `circuit`, and binds
/// its input bits to its input gates, which are those of the given kind.
pub fn check_setup(circuit: &Circuit, kind: Gate, inputs: &[bool]) -> (result: Result<
    Vec<bool>,
    Error,
>)
    ensures
        match setup_refusal(circuit@, kind, inputs@.len()) {
            Some(refusal) => result == Err::<Vec<bool>, Error>(refusal),
            None => result matches Ok(bits) && bits@ == bound_bits(circuit@.gates, kind, inputs@),
        },
{
    match circuit.validate() {
        Err(fault) => {
            return Err(Error::Validation(fault));
        },
        Ok(_) => {},
    }
    if circuit.gates().len() > MAX_GATES {
        return Err(Error::CircuitTooLarge);
    }
    match circuit.bind_inputs(kind, inputs) {
        Some(bits) => Ok(bits),
        None => Err(Error::InputCount),
    }
}

} // verus!
