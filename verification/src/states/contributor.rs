//! The contributor: the party that garbles the circuit.

use crate::circuit::{bound_bits, operands_precede, Circuit, Gate};
use crate::error::{Error, ProtocolError};
use crate::garble::{garble, select, LabelPair};
use crate::hashing::{sha256, sha256_digest};
use crate::protocol::{
    input_wires, phase_at, setup_refusal, ContributorView, Phase, MAX_GATES,
};
use crate::random::{chacha20_stream, keystream};
use crate::script::LabelCommitment;
use crate::states::check_setup;
use crate::wire_format::{bytes_match, le_bytes, put_bytes, put_range, put_u32, take_label};
use vstd::prelude::*;

verus! {

/// The contributor's state between two steps of a session.
pub struct Contributor {
    circuit: Circuit,
    bits: Vec<bool>,
    stream: Vec<u8>,
    step: usize,
}

impl View for Contributor {
    type V = ContributorView;

    closed spec fn view(&self) -> ContributorView {
        ContributorView {
            circuit: self.circuit@,
            bits: self.bits@,
            stream: self.stream@,
            step: self.step as nat,
        }
    }
}

impl Contributor {
    #[verifier::type_invariant]
    spec fn well_formed(self) -> bool {
        self@.wf()
    }

    /// Starts a session on `circuit` with the contributor's input bits. The
    /// wire labels are drawn from the ChaCha20 stream of `seed`. Returns the
    /// state and the message that opens the session.
    pub fn new(circuit: &Circuit, inputs: &[bool], seed: [u8; 32]) -> (result: Result<
        (Contributor, Vec<u8>),
        Error,
    >)
        ensures
            match setup_refusal(circuit@, Gate::ContributorInput, inputs@.len()) {
                Some(refusal) => result matches Err(error) && error == refusal,
                None => result matches Ok((state, message)) && state@ == (ContributorView {
                    circuit: circuit@,
                    bits: bound_bits(circuit@.gates, Gate::ContributorInput, inputs@),
                    stream: chacha20_stream(seed@, 64 * circuit@.gates.len()),
                    step: 0,
                }) && state@.wf() && message@ == state@.first_message(),
            },
    {
        match check_setup(circuit, Gate::ContributorInput, inputs) {
            Err(refusal) => Err(refusal),
            Ok(bits) => {
                let stream = keystream(&seed, 64 * circuit.gates().len());
                Ok(Self::open(circuit.clone(), bits, stream))
            },
        }
    }

    /// Starts a session as [`Contributor::new`] does, on label material
    /// that the caller supplies: 64 bytes for each gate of the circuit.
    pub fn from_labels(circuit: &Circuit, inputs: &[bool], stream: Vec<u8>) -> (result: Result<
        (Contributor, Vec<u8>),
        Error,
    >)
        ensures
            match setup_refusal(circuit@, Gate::ContributorInput, inputs@.len()) {
                Some(refusal) => result matches Err(error) && error == refusal,
                None => if stream@.len() != 64 * circuit@.gates.len() {
                    result matches Err(error) && error == Error::MaterialLength
                } else {
                    result matches Ok((state, message)) && state@ == (ContributorView {
                        circuit: circuit@,
                        bits: bound_bits(circuit@.gates, Gate::ContributorInput, inputs@),
                        stream: stream@,
                        step: 0,
                    }) && state@.wf() && message@ == state@.first_message()
                },
            },
    {
        match check_setup(circuit, Gate::ContributorInput, inputs) {
            Err(refusal) => Err(refusal),
            Ok(bits) => {
                if stream.len() != 64 * circuit.gates().len() {
                    return Err(Error::MaterialLength);
                }
                Ok(Self::open(circuit.clone(), bits, stream))
            },
        }
    }

    fn open(circuit: Circuit, bits: Vec<bool>, stream: Vec<u8>) -> (opened: (Contributor, Vec<u8>))
        requires
            circuit@.valid(),
            circuit@.gates.len() <= MAX_GATES,
            bits@.len() == circuit@.gates.len(),
            stream@.len() == 64 * circuit@.gates.len(),
        ensures
            opened.0@ == (ContributorView {
                circuit: circuit@,
                bits: bits@,
                stream: stream@,
                step: 0,
            }),
            opened.0@.wf(),
            opened.1@ == opened.0@.first_message(),
    {
        let state = Contributor { circuit, bits, stream, step: 0 };
        let mut echo: Vec<u8> = Vec::new();
        let mut i: usize = 0;
        while i < 16
            invariant
                i <= 16,
                echo@ == Seq::new(i as nat, |k: int| 0u8),
            decreases 16 - i,
        {
            echo.push(0);
            assert(echo@ =~= Seq::new((i + 1) as nat, |k: int| 0u8));
            i += 1;
        }
        let message = state.message(0, echo.as_slice(), 0, false);
        (state, message)
    }

    /// Where this party stands in its session.
    pub fn phase(&self) -> (phase: Phase)
        ensures
            phase == phase_at(self@.step, self@.steps()),
    {
        proof {
            use_type_invariant(self);
        }
        if self.step >= self.circuit.gates().len() {
            Phase::Completed
        } else if self.step == 0 {
            Phase::Initialized
        } else {
            Phase::Running(self.step as u32)
        }
    }

    /// The number of steps of the session: one for each gate.
    pub fn steps(&self) -> (steps: u32)
        ensures
            steps == self@.steps(),
    {
        proof {
            use_type_invariant(self);
        }
        self.circuit.gates().len() as u32
    }

    /// The two labels of wire `w`.
    fn pair(&self, w: usize) -> (pair: LabelPair)
        requires
            w < self@.steps(),
        ensures
            pair@ == self@.pair(w as int),
    {
        proof {
            use_type_invariant(self);
        }
        let zero = take_label(self.stream.as_slice(), 64 * w);
        let raw = take_label(self.stream.as_slice(), 64 * w + 32);
        let mut one = raw;
        one[0] = raw[0] - raw[0] % 2 + if select(&zero) { 0 } else { 1 };
        LabelPair { zero, one }
    }

    /// The hash commitments to the two labels of each input wire, in the
    /// order of the input gates of both parties. The labels stay secret;
    /// the commitments are what the challenge scripts are built from.
    pub fn label_commitments(&self) -> (commitments: Vec<LabelCommitment>)
        ensures
            commitments@.len() == self@.commitments().len(),
            forall|k: int|
                0 <= k < commitments@.len() ==> (#[trigger] commitments@[k]).0@
                    == self@.commitments()[k].0 && commitments@[k].1@ == self@.commitments()[k].1,
    {
        proof {
            use_type_invariant(self);
        }
        let gates = self.circuit.gates();
        let mut commitments: Vec<LabelCommitment> = Vec::new();
        let ghost digest = |k: int, w: int|
            (
                sha256_digest(self@.pair(w).zero),
                sha256_digest(self@.pair(w).one),
            );
        let mut w: usize = 0;
        while w < gates.len()
            invariant
                w <= gates@.len(),
                gates@ == self@.circuit.gates,
                self@.wf(),
                digest == |k: int, w: int|
                    (
                        sha256_digest(self@.pair(w).zero),
                        sha256_digest(self@.pair(w).one),
                    ),
                commitments@.len() == input_wires(gates@, w as int).len(),
                forall|k: int|
                    0 <= k < commitments@.len() ==> (#[trigger] commitments@[k]).0@
                        == input_wires(gates@, w as int).map(digest)[k].0 && commitments@[k].1@
                        == input_wires(gates@, w as int).map(digest)[k].1,
            decreases gates@.len() - w,
        {
            if gates[w] == Gate::ContributorInput || gates[w] == Gate::EvaluatorInput {
                let pair = self.pair(w);
                let zero = sha256(pair.zero.as_slice());
                let one = sha256(pair.one.as_slice());
                commitments.push((zero, one));
            }
            w += 1;
        }
        commitments
    }

    /// The message of step `j`, which echoes the 16 bytes of `reply` from
    /// `at` and hands over the label for `choice`.
    fn message(&self, j: usize, reply: &[u8], at: usize, choice: bool) -> (message: Vec<u8>)
        requires
            j <= self@.steps(),
            at + 16 <= reply@.len(),
        ensures
            message@ == self@.message(j as int, reply@.subrange(at as int, at + 16), choice),
    {
        proof {
            use_type_invariant(self);
        }
        let gates = self.circuit.gates();
        let mut message: Vec<u8> = Vec::new();
        put_u32(&mut message, j as u32);
        put_range(&mut message, reply, at, 16);
        if j >= 1 && gates[j - 1] == Gate::EvaluatorInput {
            let handed = self.pair(j - 1).pick(choice);
            put_bytes(&mut message, handed.as_slice());
        }
        let ghost head = message@;
        assert(head == le_bytes(j as u32) + reply@.subrange(
            at as int,
            at + 16,
        ) + self@.transfer(j as int, choice));
        if j < gates.len() {
            match gates[j] {
                Gate::ContributorInput => {
                    let own = self.pair(j).pick(self.bits[j]);
                    put_bytes(&mut message, own.as_slice());
                },
                Gate::EvaluatorInput => {
                    assert(message@ =~= head + Seq::<u8>::empty());
                },
                Gate::And(x, y) => {
                    assert(operands_precede(self@.circuit.gates, j as int));
                    garble(
                        &self.pair(x as usize),
                        &self.pair(y as usize),
                        &self.pair(j),
                        false,
                        j as u32,
                        &mut message,
                    );
                },
                Gate::Nand(x, y) => {
                    assert(operands_precede(self@.circuit.gates, j as int));
                    garble(
                        &self.pair(x as usize),
                        &self.pair(y as usize),
                        &self.pair(j),
                        true,
                        j as u32,
                        &mut message,
                    );
                },
            }
        } else {
            let outputs = self.circuit.output_gates();
            let mut k: usize = 0;
            while k < outputs.len()
                invariant
                    k <= outputs@.len(),
                    outputs@ == self@.circuit.outputs,
                    self@.wf(),
                    message@ == head + self@.decoding().take(k as int),
                decreases outputs@.len() - k,
            {
                let wire = outputs[k] as usize;
                let zero = self.pair(wire).zero;
                message.push(if select(&zero) { 1 } else { 0 });
                assert(head + self@.decoding().take(k as int + 1) =~= (head
                    + self@.decoding().take(k as int)).push(self@.decoding()[k as int]));
                k += 1;
            }
            assert(self@.decoding().take(outputs@.len() as int) =~= self@.decoding());
        }
        message
    }

    /// Takes one step: reads the evaluator's reply to the current step and
    /// sends the message of the next. The state before is used up, whether
    /// the reply is accepted or not.
    pub fn run(self, incoming: &[u8]) -> (result: Result<(Contributor, Vec<u8>), ProtocolError>)
        ensures
            match self@.run(incoming@) {
                Ok((next, sent)) => result matches Ok((state, message)) && state@ == next
                    && state@.wf() && message@ == sent,
                Err(refusal) => result matches Err(error) && error == refusal,
            },
    {
        proof {
            use_type_invariant(&self);
        }
        let n = self.circuit.gates().len();
        if self.step >= n {
            return Err(ProtocolError::StepMismatch);
        }
        let awaited = self.circuit.gates()[self.step] == Gate::EvaluatorInput;
        let expected: usize = if awaited { 21 } else { 20 };
        if incoming.len() != expected {
            return Err(ProtocolError::MalformedMessage);
        }
        let mut head: Vec<u8> = Vec::new();
        put_u32(&mut head, self.step as u32);
        if !bytes_match(incoming, 0, head.as_slice()) {
            return Err(ProtocolError::MalformedMessage);
        }
        if awaited && incoming[20] > 1 {
            return Err(ProtocolError::MalformedMessage);
        }
        let choice = awaited && incoming[20] == 1;
        let message = self.message(self.step + 1, incoming, 4, choice);
        let next = Contributor {
            circuit: self.circuit,
            bits: self.bits,
            stream: self.stream,
            step: self.step + 1,
        };
        Ok((next, message))
    }
}

} // verus!
