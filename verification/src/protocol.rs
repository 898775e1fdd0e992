//! The two-party protocol as mathematics: what each party holds, the message
//! it sends at each step, and the proof that a session of honest parties
//! computes the circuit.
//!
//! A session takes one step per gate. At step `j` the evaluator reads a
//! message of the contributor, gains the label of wire `j` from it (or, at
//! an input gate of its own, asks for the label of its bit), and replies;
//! the contributor reads the reply and sends the message of step `j + 1`.
//! The last message carries what decodes the output labels.
//!
//! The handing over of an evaluator input label is the ideal oblivious
//! transfer: the request names the bit and the answer is its label. A
//! deployment puts a real oblivious transfer in its place.

use crate::circuit::{inputs_before, CircuitView, Gate};
use crate::error::{Error, ProtocolError};
use crate::garble::{garbled_table, select_bit, unmasked, with_low_bit, Pair};
use crate::hashing::sha256_digest;
use crate::wire_format::le_bytes;
use vstd::prelude::*;

verus! {

/// The largest number of gates of a circuit that a session accepts.
pub const MAX_GATES: usize = 0x03ff_ffff;

/// The two labels of wire `w`, cut from the contributor's label material.
/// The label for 0 is taken as it comes; the label for 1 gets the select bit
/// that the label for 0 has not.
pub open spec fn wire_pair(stream: Seq<u8>, w: int) -> Pair {
    let zero = stream.subrange(64 * w, 64 * w + 32);
    let raw = stream.subrange(64 * w + 32, 64 * w + 64);
    Pair { zero, one: raw.update(0, with_low_bit(raw[0], !select_bit(zero))) }
}

/// The labels cut for a wire are well formed.
pub proof fn lemma_wire_pair_wf(stream: Seq<u8>, w: int)
    requires
        0 <= w,
        64 * (w + 1) <= stream.len(),
    ensures
        wire_pair(stream, w).wf(),
{
}

/// The indices of the input wires among the first `w` gates, in order: the
/// wires of both parties' input gates.
pub open spec fn input_wires(gates: Seq<Gate>, w: int) -> Seq<int>
    decreases w,
{
    if w <= 0 {
        Seq::empty()
    } else if gates[w - 1] == Gate::ContributorInput || gates[w - 1] == Gate::EvaluatorInput {
        input_wires(gates, w - 1).push(w - 1)
    } else {
        input_wires(gates, w - 1)
    }
}

/// The nonce that the first message echoes: 16 zero bytes.
pub open spec fn no_nonce() -> Seq<u8> {
    Seq::new(16, |i: int| 0u8)
}

/// The byte that stands for a bit.
pub open spec fn bit_byte(bit: bool) -> u8 {
    if bit {
        1
    } else {
        0
    }
}

/// Why a party cannot take part in a session on `circuit` with `count` input
/// bits, where its input gates are those of the given kind; `None` where it
/// can. The circuit is judged first, then its size, then the number of bits.
pub open spec fn setup_refusal(circuit: CircuitView, kind: Gate, count: nat) -> Option<Error> {
    match circuit.validation() {
        Err(fault) => Some(Error::Validation(fault)),
        Ok(_) => if circuit.gates.len() > MAX_GATES {
            Some(Error::CircuitTooLarge)
        } else if count != inputs_before(circuit.gates, kind, circuit.gates.len() as int) {
            Some(Error::InputCount)
        } else {
            None
        },
    }
}

/// Where a party stands in its session.
#[derive(Clone, Copy, Debug, PartialEq, Eq, Structural)]
pub enum Phase {
    /// No step has been taken.
    Initialized,
    /// This many steps have been taken, and more are to come.
    Running(u32),
    /// All steps have been taken.
    Completed,
}

/// The phase of a party that has taken `step` of `steps` steps.
pub open spec fn phase_at(step: nat, steps: nat) -> Phase {
    if step >= steps {
        Phase::Completed
    } else if step == 0 {
        Phase::Initialized
    } else {
        Phase::Running(step as u32)
    }
}

/// What the contributor holds.
pub ghost struct ContributorView {
    /// The circuit.
    pub circuit: CircuitView,
    /// For each wire, the contributor's input bit bound to it.
    pub bits: Seq<bool>,
    /// The label material: 64 bytes per wire.
    pub stream: Seq<u8>,
    /// The number of replies read so far.
    pub step: nat,
}

/// What the evaluator holds.
pub ghost struct EvaluatorView {
    /// The circuit.
    pub circuit: CircuitView,
    /// For each wire, the evaluator's input bit bound to it.
    pub bits: Seq<bool>,
    /// The nonce material: 16 bytes per step.
    pub nonces: Seq<u8>,
    /// The labels gained so far, by wire.
    pub labels: Seq<Seq<u8>>,
    /// The number of messages read so far.
    pub step: nat,
}

impl ContributorView {
    /// The number of steps of the session.
    pub open spec fn steps(self) -> nat {
        self.circuit.gates.len()
    }

    pub open spec fn wf(self) -> bool {
        &&& self.circuit.valid()
        &&& self.steps() <= MAX_GATES
        &&& self.bits.len() == self.steps()
        &&& self.stream.len() == 64 * self.steps()
        &&& self.step <= self.steps()
    }

    /// The two labels of wire `w`.
    pub open spec fn pair(self, w: int) -> Pair {
        wire_pair(self.stream, w)
    }

    /// The commitments to the labels of the input wires: for each input wire,
    /// in order, the digest of its label for 0 and that of its label for 1.
    pub open spec fn commitments(self) -> Seq<(Seq<u8>, Seq<u8>)> {
        input_wires(self.circuit.gates, self.steps() as int).map(
            |k: int, w: int| (sha256_digest(self.pair(w).zero), sha256_digest(self.pair(w).one)),
        )
    }

    /// Whether step `j` follows an evaluator input, whose label is
    /// handed over at the start of step `j`.
    pub open spec fn hands_over(self, j: int) -> bool {
        j >= 1 && self.circuit.gates[j - 1] == Gate::EvaluatorInput
    }

    /// The label handed over at the start of step `j`, for the bit that the
    /// evaluator asked for.
    pub open spec fn transfer(self, j: int, choice: bool) -> Seq<u8> {
        if self.hands_over(j) {
            self.pair(j - 1).pick(choice)
        } else {
            Seq::empty()
        }
    }

    /// What decodes the outputs: for each output wire, the select bit of its
    /// label for 0.
    pub open spec fn decoding(self) -> Seq<u8> {
        Seq::new(
            self.circuit.outputs.len(),
            |k: int| bit_byte(select_bit(self.pair(self.circuit.outputs[k] as int).zero)),
        )
    }

    /// The body of the message of step `j`: the label of the contributor's
    /// bit at an input gate of its own, nothing at an input gate of the
    /// evaluator, the garbled table at any other gate, and the decoding
    /// after the last gate.
    pub open spec fn body(self, j: int) -> Seq<u8> {
        if j < self.steps() {
            match self.circuit.gates[j] {
                Gate::ContributorInput => self.pair(j).pick(self.bits[j]),
                Gate::EvaluatorInput => Seq::empty(),
                Gate::And(x, y) => garbled_table(
                    self.pair(x as int),
                    self.pair(y as int),
                    self.pair(j),
                    false,
                    j as u32,
                ),
                Gate::Nand(x, y) => garbled_table(
                    self.pair(x as int),
                    self.pair(y as int),
                    self.pair(j),
                    true,
                    j as u32,
                ),
            }
        } else {
            self.decoding()
        }
    }

    /// The message of step `j`: the step, the nonce of the reply it answers,
    /// the label handed over, and the body.
    pub open spec fn message(self, j: int, echo: Seq<u8>, choice: bool) -> Seq<u8> {
        le_bytes(j as u32) + echo + self.transfer(j, choice) + self.body(j)
    }

    /// The message that opens the session.
    pub open spec fn first_message(self) -> Seq<u8> {
        self.message(0, no_nonce(), false)
    }

    /// Whether the current step is at an evaluator input, whose
    /// reply names the bit asked for.
    pub open spec fn awaits_choice(self) -> bool {
        self.circuit.gates[self.step as int] == Gate::EvaluatorInput
    }

    /// Whether `reply` is a reply to the current step: the step, a nonce,
    /// and the bit asked for at an evaluator input.
    pub open spec fn accepts(self, reply: Seq<u8>) -> bool {
        &&& reply.len() == 20 + if self.awaits_choice() { 1int } else { 0int }
        &&& reply.subrange(0, 4) == le_bytes(self.step as u32)
        &&& self.awaits_choice() ==> reply[20] <= 1
    }

    /// The contributor after one more step.
    pub open spec fn advanced(self) -> ContributorView {
        ContributorView { step: self.step + 1, ..self }
    }

    /// One transition: the next state and the message sent, or the refusal.
    pub open spec fn run(self, reply: Seq<u8>) -> Result<(ContributorView, Seq<u8>), ProtocolError> {
        if self.step >= self.steps() {
            Err(ProtocolError::StepMismatch)
        } else if !self.accepts(reply) {
            Err(ProtocolError::MalformedMessage)
        } else {
            Ok(
                (
                    self.advanced(),
                    self.message(
                        self.step as int + 1,
                        reply.subrange(4, 20),
                        self.awaits_choice() && reply[20] == 1,
                    ),
                ),
            )
        }
    }
}

impl EvaluatorView {
    /// The number of steps of the session.
    pub open spec fn steps(self) -> nat {
        self.circuit.gates.len()
    }

    /// Whether the label of the wire before step `j` is still to come: that
    /// wire is an evaluator input, asked for in the reply before.
    pub open spec fn pending(self, j: int) -> bool {
        j >= 1 && self.circuit.gates[j - 1] == Gate::EvaluatorInput
    }

    /// The number of labels held before the message of step `j` is read.
    pub open spec fn held(self, j: int) -> int {
        if self.pending(j) {
            j - 1
        } else {
            j
        }
    }

    pub open spec fn wf(self) -> bool {
        &&& self.circuit.valid()
        &&& self.steps() <= MAX_GATES
        &&& self.bits.len() == self.steps()
        &&& self.nonces.len() == 16 * self.steps()
        &&& self.step <= self.steps()
        &&& self.labels.len() == self.held(self.step as int)
        &&& forall|w: int| 0 <= w < self.labels.len() ==> (#[trigger] self.labels[w]).len() == 32
    }

    /// The nonce sent with the reply of step `j`.
    pub open spec fn nonce(self, j: int) -> Seq<u8> {
        self.nonces.subrange(16 * j, 16 * j + 16)
    }

    /// The nonce that the message of step `j` has to echo.
    pub open spec fn echo(self, j: int) -> Seq<u8> {
        if j == 0 {
            no_nonce()
        } else {
            self.nonce(j - 1)
        }
    }

    /// Where the body of the message of the current step starts.
    pub open spec fn body_at(self) -> int {
        20 + if self.pending(self.step as int) { 32int } else { 0int }
    }

    /// The length of the body of the message of the current step.
    pub open spec fn body_len(self) -> int {
        if self.step < self.steps() {
            match self.circuit.gates[self.step as int] {
                Gate::ContributorInput => 32,
                Gate::EvaluatorInput => 0,
                _ => 128,
            }
        } else {
            self.circuit.outputs.len() as int
        }
    }

    /// Whether `message` is laid out as the message of the current step and
    /// echoes the nonce of the last reply.
    pub open spec fn accepts(self, message: Seq<u8>) -> bool {
        &&& message.len() == self.body_at() + self.body_len()
        &&& message.subrange(0, 4) == le_bytes(self.step as u32)
        &&& message.subrange(4, 20) == self.echo(self.step as int)
    }

    /// The labels of all wires before the current step, once the label
    /// handed over in `message` is taken in.
    pub open spec fn received(self, message: Seq<u8>) -> Seq<Seq<u8>> {
        if self.pending(self.step as int) {
            self.labels.push(message.subrange(20, 52))
        } else {
            self.labels
        }
    }

    /// The labels held after the current step: at an evaluator input nothing
    /// is gained yet, at a contributor input the label sent, at any other
    /// gate the label unmasked from the table.
    pub open spec fn gained(self, message: Seq<u8>) -> Seq<Seq<u8>> {
        let known = self.received(message);
        let at = self.body_at();
        match self.circuit.gates[self.step as int] {
            Gate::ContributorInput => known.push(message.subrange(at, at + 32)),
            Gate::EvaluatorInput => known,
            Gate::And(x, y) | Gate::Nand(x, y) => known.push(
                unmasked(
                    message.subrange(at, at + 128),
                    known[x as int],
                    known[y as int],
                    self.step as u32,
                ),
            ),
        }
    }

    /// The reply of the current step: the step, a fresh nonce, and at an
    /// evaluator input the bit whose label is asked for.
    pub open spec fn reply(self) -> Seq<u8> {
        le_bytes(self.step as u32) + self.nonce(self.step as int) + if self.circuit.gates[self.step as int]
            == Gate::EvaluatorInput {
            seq![bit_byte(self.bits[self.step as int])]
        } else {
            Seq::empty()
        }
    }

    /// The evaluator after the current step.
    pub open spec fn advanced(self, message: Seq<u8>) -> EvaluatorView {
        EvaluatorView { labels: self.gained(message), step: self.step + 1, ..self }
    }

    /// One transition: the next state and the reply sent, or the refusal.
    pub open spec fn run(self, message: Seq<u8>) -> Result<(EvaluatorView, Seq<u8>), ProtocolError> {
        if self.step >= self.steps() {
            Err(ProtocolError::StepMismatch)
        } else if !self.accepts(message) {
            Err(ProtocolError::MalformedMessage)
        } else {
            Ok((self.advanced(message), self.reply()))
        }
    }

    /// Whether each byte of the decoding in the last message is 0 or 1.
    pub open spec fn decodable(self, message: Seq<u8>) -> bool {
        forall|k: int|
            0 <= k < self.circuit.outputs.len() ==> #[trigger] message[self.body_at() + k] <= 1
    }

    /// The output bit of the `k`-th output wire: whether the select bit of
    /// its label differs from the one that the decoding gives for 0.
    pub open spec fn decoded(self, message: Seq<u8>, k: int) -> bool {
        select_bit(self.received(message)[self.circuit.outputs[k] as int]) != (message[self.body_at()
            + k] == 1)
    }

    /// The outputs read from the last message, or the refusal.
    pub open spec fn output(self, message: Seq<u8>) -> Result<Seq<bool>, ProtocolError> {
        if self.step < self.steps() {
            Err(ProtocolError::IncompleteCircuit)
        } else if !self.accepts(message) || !self.decodable(message) {
            Err(ProtocolError::MalformedMessage)
        } else {
            Ok(Seq::new(self.circuit.outputs.len(), |k: int| self.decoded(message, k)))
        }
    }
}

} // verus!
