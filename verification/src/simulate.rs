//! A whole session on one machine: the two parties take their steps in turn
//! and hand each other's messages over unchanged, as an ideal channel would.

use crate::circuit::{Circuit, CircuitView, Gate};
use crate::error::Error;
use crate::protocol::setup_refusal;
use crate::random::chacha20_stream;
use crate::session::{
    in_step, lemma_advance, lemma_opening, lemma_output, opening, transcript, Session,
};
use crate::states::{Contributor, Evaluator};
use vstd::prelude::*;

verus! {

/// Why no session can be set up on `circuit` with that many input bits of
/// the contributor and of the evaluator; `None` where one can. The evaluator
/// is set up first.
pub open spec fn session_refusal(circuit: CircuitView, contributed: nat, evaluated: nat) -> Option<
    Error,
> {
    match setup_refusal(circuit, Gate::EvaluatorInput, evaluated) {
        Some(refusal) => Some(refusal),
        None => setup_refusal(circuit, Gate::ContributorInput, contributed),
    }
}

/// All messages of the session that the two seeds give: the contributor's
/// labels and the evaluator's nonces are the ChaCha20 streams of the seeds.
pub open spec fn seeded_transcript(
    circuit: CircuitView,
    a: Seq<bool>,
    b: Seq<bool>,
    seed_contributor: Seq<u8>,
    seed_evaluator: Seq<u8>,
) -> Seq<Seq<u8>> {
    transcript(
        circuit,
        a,
        b,
        chacha20_stream(seed_contributor, 64 * circuit.gates.len()),
        chacha20_stream(seed_evaluator, 16 * circuit.gates.len()),
    )
}

/// Two sessions on one circuit with the same inputs and the same seeds
/// exchange the same messages, byte for byte.
pub proof fn law_determinism(
    circuit: CircuitView,
    a: Seq<bool>,
    b: Seq<bool>,
    seed_contributor: Seq<u8>,
    seed_evaluator: Seq<u8>,
    other_circuit: CircuitView,
    other_a: Seq<bool>,
    other_b: Seq<bool>,
    other_seed_contributor: Seq<u8>,
    other_seed_evaluator: Seq<u8>,
)
    requires
        circuit.gates =~= other_circuit.gates,
        circuit.outputs =~= other_circuit.outputs,
        a =~= other_a,
        b =~= other_b,
        seed_contributor =~= other_seed_contributor,
        seed_evaluator =~= other_seed_evaluator,
    ensures
        seeded_transcript(circuit, a, b, seed_contributor, seed_evaluator) == seeded_transcript(
            other_circuit,
            other_a,
            other_b,
            other_seed_contributor,
            other_seed_evaluator,
        ),
        circuit.output_values(a, b) == other_circuit.output_values(other_a, other_b),
{
}

/// The byte strings of a list of messages.
pub open spec fn message_views(messages: Seq<Vec<u8>>) -> Seq<Seq<u8>> {
    Seq::new(messages.len(), |i: int| messages[i]@)
}

/// Runs a session and keeps every message: the opening message, then for
/// each step the evaluator's reply and the contributor's next message.
/// Returns the messages and the output bits. Both depend on the arguments
/// alone.
pub fn simulate_traced(
    circuit: &Circuit,
    input_contributor: &[bool],
    input_evaluator: &[bool],
    seed_contributor: [u8; 32],
    seed_evaluator: [u8; 32],
) -> (result: Result<(Vec<Vec<u8>>, Vec<bool>), Error>)
    ensures
        match session_refusal(circuit@, input_contributor@.len(), input_evaluator@.len()) {
            Some(refusal) => result matches Err(error) && error == refusal,
            None => result matches Ok((messages, outputs)) && outputs@
                == circuit@.output_values(input_contributor@, input_evaluator@) && message_views(
                messages@,
            ) == seeded_transcript(
                circuit@,
                input_contributor@,
                input_evaluator@,
                seed_contributor@,
                seed_evaluator@,
            ),
        },
{
    let ghost a = input_contributor@;
    let ghost b = input_evaluator@;
    let mut evaluator = match Evaluator::new(circuit.clone(), input_evaluator, seed_evaluator) {
        Ok(state) => state,
        Err(refusal) => {
            return Err(refusal);
        },
    };
    let (mut contributor, mut msg_for_evaluator) = match Contributor::new(
        circuit,
        input_contributor,
        seed_contributor,
    ) {
        Ok(opened) => opened,
        Err(refusal) => {
            return Err(refusal);
        },
    };
    let ghost start = opening(circuit@, a, b, contributor@.stream, evaluator@.nonces);
    proof {
        lemma_opening(circuit@, a, b, contributor@.stream, evaluator@.nonces);
    }
    let steps = evaluator.steps();
    assert(contributor@.steps() == steps);
    let mut messages: Vec<Vec<u8>> = Vec::new();
    assert(message_views(messages@) =~= start.read);
    let mut step: u32 = 0;
    while step < steps
        invariant
            step <= steps,
            steps == circuit@.gates.len(),
            in_step(contributor@, evaluator@, a, b, msg_for_evaluator@),
            evaluator@.step == step,
            evaluator@.circuit == circuit@,
            contributor@.circuit == circuit@,
            (Session {
                contributor: contributor@,
                evaluator: evaluator@,
                pending: msg_for_evaluator@,
                read: message_views(messages@),
            }) == start.after(step as nat),
        decreases steps - step,
    {
        let ghost now = start.after(step as nat);
        proof {
            lemma_advance(now, a, b);
        }
        let (next_state, msg_for_contributor) = match evaluator.run(msg_for_evaluator.as_slice()) {
            Ok(moved) => moved,
            Err(refusal) => {
                return Err(Error::Protocol(refusal));
            },
        };
        evaluator = next_state;
        let (next_state, reply) = match contributor.run(msg_for_contributor.as_slice()) {
            Ok(moved) => moved,
            Err(refusal) => {
                return Err(Error::Protocol(refusal));
            },
        };
        contributor = next_state;
        proof {
            let read = message_views(messages@);
            assert(message_views(messages@.push(msg_for_evaluator).push(msg_for_contributor)) =~= read.push(
                msg_for_evaluator@,
            ).push(msg_for_contributor@));
        }
        messages.push(msg_for_evaluator);
        messages.push(msg_for_contributor);
        msg_for_evaluator = reply;
        step += 1;
    }
    proof {
        lemma_output(contributor@, evaluator@, a, b, msg_for_evaluator@);
    }
    match evaluator.output(msg_for_evaluator.as_slice()) {
        Ok(outputs) => {
            proof {
                assert(message_views(messages@.push(msg_for_evaluator)) =~= message_views(
                    messages@,
                ).push(msg_for_evaluator@));
            }
            messages.push(msg_for_evaluator);
            Ok((messages, outputs))
        },
        Err(refusal) => Err(Error::Protocol(refusal)),
    }
}

/// Simulates the two-party computation of `circuit` on one machine, under
/// an ideal channel: the evaluator and the contributor take their steps in
/// turn until the circuit is done, and the evaluator reads the outputs.
/// A session between the two parties never fails: the result is the bits
/// that the circuit computes, whatever the seeds.
pub fn simulate(
    circuit: &Circuit,
    input_contributor: &[bool],
    input_evaluator: &[bool],
    seed_contributor: [u8; 32],
    seed_evaluator: [u8; 32],
) -> (result: Result<Vec<bool>, Error>)
    ensures
        match session_refusal(circuit@, input_contributor@.len(), input_evaluator@.len()) {
            Some(refusal) => result matches Err(error) && error == refusal,
            None => result matches Ok(outputs) && outputs@ == circuit@.output_values(
                input_contributor@,
                input_evaluator@,
            ),
        },
{
    match simulate_traced(
        circuit,
        input_contributor,
        input_evaluator,
        seed_contributor,
        seed_evaluator,
    ) {
        Ok((_, outputs)) => Ok(outputs),
        Err(refusal) => Err(refusal),
    }
}

} // verus!
