//! Chains of gates: one contributor bit that runs through a row of AND or
//! NAND gates, each fed by one evaluator bit. What they compute is proved
//! here, and three sessions on them can be run.

use crate::circuit::{inputs_before, operands_precede, wire_value, Circuit, CircuitView, Gate};
use crate::error::Error;
use crate::protocol::MAX_GATES;
use crate::simulate::simulate;
use vstd::prelude::*;

verus! {

/// The gates of a chain of `n` links: a contributor input, then for each
/// link an evaluator input and a gate that joins it to the wire before.
pub open spec fn chain_gates(n: nat, negate: bool) -> Seq<Gate> {
    Seq::new(
        2 * n + 1,
        |i: int|
            if i == 0 {
                Gate::ContributorInput
            } else if i % 2 == 1 {
                Gate::EvaluatorInput
            } else if negate {
                Gate::Nand((i - 2) as u32, (i - 1) as u32)
            } else {
                Gate::And((i - 2) as u32, (i - 1) as u32)
            },
    )
}

/// The chain of `n` links, whose one output is its last wire.
pub open spec fn chain(n: nat, negate: bool) -> CircuitView {
    CircuitView { gates: chain_gates(n, negate), outputs: seq![(2 * n) as u32] }
}

/// Whether the first `k` bits of `b` are all set.
pub open spec fn all_set(b: Seq<bool>, k: int) -> bool {
    forall|i: int| 0 <= i < k ==> b[i]
}

/// A chain is well formed, and needs one bit of the contributor and one bit
/// of the evaluator for each link.
pub proof fn lemma_chain_shape(n: nat, negate: bool)
    requires
        2 * n <= u32::MAX,
    ensures
        chain(n, negate).valid(),
        chain(n, negate).contributor_inputs() == 1,
        chain(n, negate).evaluator_inputs() == n,
{
    let gates = chain_gates(n, negate);
    assert forall|i: int| 0 <= i < gates.len() implies operands_precede(gates, i) by {}
    lemma_chain_inputs(n, negate, 2 * n as int + 1);
}

/// The input gates of a chain before position `w`: the contributor's one,
/// and every second gate for the evaluator.
pub proof fn lemma_chain_inputs(n: nat, negate: bool, w: int)
    requires
        0 <= w <= 2 * n + 1,
    ensures
        inputs_before(chain_gates(n, negate), Gate::ContributorInput, w) == if w >= 1 {
            1nat
        } else {
            0nat
        },
        inputs_before(chain_gates(n, negate), Gate::EvaluatorInput, w) == w / 2,
    decreases w,
{
    if w > 0 {
        lemma_chain_inputs(n, negate, w - 1);
    }
}

/// The wire after `k` links of an AND chain carries the contributor's bit
/// and the first `k` bits of the evaluator, all joined.
pub proof fn lemma_and_chain_wire(n: nat, a: bool, b: Seq<bool>, k: int)
    requires
        2 * n <= u32::MAX,
        0 <= k <= n,
    ensures
        wire_value(chain_gates(n, false), seq![a], b, 2 * k) == (a && all_set(b, k)),
    decreases k,
{
    let gates = chain_gates(n, false);
    if k == 0 {
        lemma_chain_inputs(n, false, 0);
    } else {
        lemma_and_chain_wire(n, a, b, k - 1);
        lemma_chain_inputs(n, false, 2 * k - 1);
        assert(gates[2 * k] == Gate::And((2 * k - 2) as u32, (2 * k - 1) as u32));
        assert(wire_value(gates, seq![a], b, 2 * k - 1) == b[k - 1]);
        assert(all_set(b, k) == (all_set(b, k - 1) && b[k - 1]));
    }
}

/// The wire after `k` links of a NAND chain whose inputs are all set is set
/// where `k` is even.
pub proof fn lemma_nand_chain_wire(n: nat, b: Seq<bool>, k: int)
    requires
        2 * n <= u32::MAX,
        0 <= k <= n,
        all_set(b, n as int),
    ensures
        wire_value(chain_gates(n, true), seq![true], b, 2 * k) == (k % 2 == 0),
    decreases k,
{
    let gates = chain_gates(n, true);
    if k == 0 {
        lemma_chain_inputs(n, true, 0);
    } else {
        lemma_nand_chain_wire(n, b, k - 1);
        lemma_chain_inputs(n, true, 2 * k - 1);
        assert(gates[2 * k] == Gate::Nand((2 * k - 2) as u32, (2 * k - 1) as u32));
        assert(wire_value(gates, seq![true], b, 2 * k - 1) == b[k - 1]);
    }
}

/// An AND chain computes the conjunction of the contributor's bit and all
/// bits of the evaluator.
pub proof fn law_and_chain(n: nat, a: bool, b: Seq<bool>)
    requires
        2 * n <= u32::MAX,
    ensures
        chain(n, false).output_values(seq![a], b) == seq![a && all_set(b, n as int)],
{
    lemma_and_chain_wire(n, a, b, n as int);
    assert(chain(n, false).output_values(seq![a], b) =~= seq![a && all_set(b, n as int)]);
}

/// A NAND chain whose inputs are all set gives a set bit for an even number
/// of links and a clear bit for an odd one.
pub proof fn law_nand_chain(n: nat, b: Seq<bool>)
    requires
        2 * n <= u32::MAX,
        all_set(b, n as int),
    ensures
        chain(n, true).output_values(seq![true], b) == seq![n % 2 == 0],
{
    lemma_nand_chain_wire(n, b, n as int);
    assert(chain(n, true).output_values(seq![true], b) =~= seq![n % 2 == 0]);
}

/// Builds the chain of `iterations` links, of NAND gates where `negate` is
/// set and of AND gates where it is not.
pub fn build_chain(iterations: u32, negate: bool) -> (circuit: Circuit)
    requires
        2 * iterations <= u32::MAX,
    ensures
        circuit@ == chain(iterations as nat, negate),
{
    let mut gates: Vec<Gate> = Vec::new();
    gates.push(Gate::ContributorInput);
    let ghost whole = chain_gates(iterations as nat, negate);
    assert(gates@ =~= whole.take(1));
    let mut i: u32 = 0;
    while i < iterations
        invariant
            i <= iterations,
            2 * iterations <= u32::MAX,
            whole == chain_gates(iterations as nat, negate),
            gates@ == whole.take(2 * i + 1),
        decreases iterations - i,
    {
        gates.push(Gate::EvaluatorInput);
        if negate {
            gates.push(Gate::Nand(i * 2, i * 2 + 1));
        } else {
            gates.push(Gate::And(i * 2, i * 2 + 1));
        }
        assert(gates@ =~= whole.take(2 * (i + 1) + 1));
        i += 1;
    }
    assert(whole.take(2 * iterations + 1) =~= whole);
    let mut output_gates: Vec<u32> = Vec::new();
    output_gates.push(iterations * 2);
    assert(output_gates@ =~= seq![(2 * iterations) as u32]);
    Circuit::new(gates, output_gates)
}

/// A list of `n` set bits.
fn set_bits(n: u32) -> (bits: Vec<bool>)
    ensures
        bits@.len() == n,
        all_set(bits@, n as int),
{
    let mut bits: Vec<bool> = Vec::new();
    let mut i: u32 = 0;
    while i < n
        invariant
            i <= n,
            bits@.len() == i,
            all_set(bits@, i as int),
        decreases n - i,
    {
        bits.push(true);
        i += 1;
    }
    bits
}

/// Runs a session on the chain of `iterations` links with all inputs set,
/// and returns what the evaluator reads; a chain too long for a session is
/// refused.
fn run_chain(
    iterations: u32,
    negate: bool,
    seed_contributor: [u8; 32],
    seed_evaluator: [u8; 32],
) -> (result: Result<Vec<bool>, Error>)
    ensures
        match result {
            Ok(outputs) => 2 * iterations + 1 <= MAX_GATES && outputs@ == chain(
                iterations as nat,
                negate,
            ).output_values(seq![true], Seq::new(iterations as nat, |i: int| true)),
            Err(refusal) => 2 * iterations + 1 > MAX_GATES && refusal == Error::CircuitTooLarge,
        },
{
    if iterations > (MAX_GATES as u32 - 1) / 2 {
        return Err(Error::CircuitTooLarge);
    }
    let program = build_chain(iterations, negate);
    let mut input_a: Vec<bool> = Vec::new();
    input_a.push(true);
    let input_b = set_bits(iterations);
    proof {
        lemma_chain_shape(iterations as nat, negate);
        assert(input_a@ =~= seq![true]);
        assert(input_b@ =~= Seq::new(iterations as nat, |i: int| true));
    }
    simulate(&program, input_a.as_slice(), input_b.as_slice(), seed_contributor, seed_evaluator)
}

/// Runs a session on an AND chain of `iterations` links with all inputs
/// set. The evaluator reads a set bit; a chain too long for a session is
/// refused.
pub fn and(iterations: u32, seed_contributor: [u8; 32], seed_evaluator: [u8; 32]) -> (result:
    Result<(), Error>)
    ensures
        result == if 2 * iterations + 1 <= MAX_GATES {
            Ok::<(), Error>(())
        } else {
            Err::<(), Error>(Error::CircuitTooLarge)
        },
{
    match run_chain(iterations, false, seed_contributor, seed_evaluator) {
        Ok(result) => {
            proof {
                law_and_chain(
                    iterations as nat,
                    true,
                    Seq::new(iterations as nat, |i: int| true),
                );
            }
            assert(result@ == seq![true]);
            Ok(())
        },
        Err(refusal) => Err(refusal),
    }
}

/// Runs the session of [`and`] and holds its output against the parity of
/// `iterations`: a set bit for an even number of links. The gates of the
/// chain are AND gates, so only an even number is admitted.
pub fn xor(iterations: u32, seed_contributor: [u8; 32], seed_evaluator: [u8; 32]) -> (result:
    Result<(), Error>)
    requires
        iterations % 2 == 0,
    ensures
        result == if 2 * iterations + 1 <= MAX_GATES {
            Ok::<(), Error>(())
        } else {
            Err::<(), Error>(Error::CircuitTooLarge)
        },
{
    match run_chain(iterations, false, seed_contributor, seed_evaluator) {
        Ok(result) => {
            proof {
                law_and_chain(
                    iterations as nat,
                    true,
                    Seq::new(iterations as nat, |i: int| true),
                );
            }
            assert(result@ == seq![iterations % 2 == 0]);
            Ok(())
        },
        Err(refusal) => Err(refusal),
    }
}

/// Runs a session on a NAND chain of `iterations` links with all inputs
/// set. The evaluator reads a set bit for an even number of links and a
/// clear bit for an odd one; a chain too long for a session is refused.
pub fn nand(iterations: u32, seed_contributor: [u8; 32], seed_evaluator: [u8; 32]) -> (result:
    Result<(), Error>)
    ensures
        result == if 2 * iterations + 1 <= MAX_GATES {
            Ok::<(), Error>(())
        } else {
            Err::<(), Error>(Error::CircuitTooLarge)
        },
{
    match run_chain(iterations, true, seed_contributor, seed_evaluator) {
        Ok(result) => {
            proof {
                law_nand_chain(iterations as nat, Seq::new(iterations as nat, |i: int| true));
            }
            assert(result@ == seq![iterations % 2 == 0]);
            Ok(())
        },
        Err(refusal) => Err(refusal),
    }
}

} // verus!
