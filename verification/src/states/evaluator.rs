//! The evaluator: the party that evaluates the garbled circuit.

use crate::circuit::{bound_bits, operands_precede, Circuit, Gate};
use crate::error::{Error, ProtocolError};
use crate::garble::{evaluate, select};
use crate::protocol::{phase_at, setup_refusal, EvaluatorView, Phase, MAX_GATES};
use crate::random::{chacha20_stream, keystream};
use crate::states::check_setup;
use crate::wire_format::{
    bytes_match,
    is_zero_range,
    put_range,
    put_u32,
    range_matches,
    take_label,
    Label,
};
use vstd::prelude::*;

verus! {

/// The byte strings of a list of labels.
pub open spec fn label_views(labels: Seq<Label>) -> Seq<Seq<u8>> {
    Seq::new(labels.len(), |w: int| labels[w]@)
}

/// The evaluator's state between two steps of a session.
pub struct Evaluator {
    circuit: Circuit,
    bits: Vec<bool>,
    nonces: Vec<u8>,
    labels: Vec<Label>,
    step: usize,
}

impl View for Evaluator {
    type V = EvaluatorView;

    closed spec fn view(&self) -> EvaluatorView {
        EvaluatorView {
            circuit: self.circuit@,
            bits: self.bits@,
            nonces: self.nonces@,
            labels: label_views(self.labels@),
            step: self.step as nat,
        }
    }
}

impl Evaluator {
    #[verifier::type_invariant]
    spec fn well_formed(self) -> bool {
        self@.wf()
    }

    /// Prepares for a session on `circuit` with the evaluator's input bits.
    /// The nonces of its replies are drawn from the ChaCha20 stream of
    /// `seed`. The evaluator holds no label yet.
    pub fn new(circuit: Circuit, inputs: &[bool], seed: [u8; 32]) -> (result: Result<
        Evaluator,
        Error,
    >)
        ensures
            match setup_refusal(circuit@, Gate::EvaluatorInput, inputs@.len()) {
                Some(refusal) => result matches Err(error) && error == refusal,
                None => result matches Ok(state) && state@ == (EvaluatorView {
                    circuit: circuit@,
                    bits: bound_bits(circuit@.gates, Gate::EvaluatorInput, inputs@),
                    nonces: chacha20_stream(seed@, 16 * circuit@.gates.len()),
                    labels: Seq::empty(),
                    step: 0,
                }) && state@.wf(),
            },
    {
        match check_setup(&circuit, Gate::EvaluatorInput, inputs) {
            Err(refusal) => Err(refusal),
            Ok(bits) => {
                let nonces = keystream(&seed, 16 * circuit.gates().len());
                Ok(Self::open(circuit, bits, nonces))
            },
        }
    }

    /// Prepares for a session as [`Evaluator::new`] does, on nonce material
    /// that the caller supplies: 16 bytes for each gate of the circuit.
    pub fn from_nonces(circuit: Circuit, inputs: &[bool], nonces: Vec<u8>) -> (result: Result<
        Evaluator,
        Error,
    >)
        ensures
            match setup_refusal(circuit@, Gate::EvaluatorInput, inputs@.len()) {
                Some(refusal) => result matches Err(error) && error == refusal,
                None => if nonces@.len() != 16 * circuit@.gates.len() {
                    result matches Err(error) && error == Error::MaterialLength
                } else {
                    result matches Ok(state) && state@ == (EvaluatorView {
                        circuit: circuit@,
                        bits: bound_bits(circuit@.gates, Gate::EvaluatorInput, inputs@),
                        nonces: nonces@,
                        labels: Seq::empty(),
                        step: 0,
                    }) && state@.wf()
                },
            },
    {
        match check_setup(&circuit, Gate::EvaluatorInput, inputs) {
            Err(refusal) => Err(refusal),
            Ok(bits) => {
                if nonces.len() != 16 * circuit.gates().len() {
                    return Err(Error::MaterialLength);
                }
                Ok(Self::open(circuit, bits, nonces))
            },
        }
    }

    fn open(circuit: Circuit, bits: Vec<bool>, nonces: Vec<u8>) -> (state: Evaluator)
        requires
            circuit@.valid(),
            circuit@.gates.len() <= MAX_GATES,
            bits@.len() == circuit@.gates.len(),
            nonces@.len() == 16 * circuit@.gates.len(),
        ensures
            state@ == (EvaluatorView {
                circuit: circuit@,
                bits: bits@,
                nonces: nonces@,
                labels: Seq::empty(),
                step: 0,
            }),
            state@.wf(),
    {
        let labels: Vec<Label> = Vec::new();
        assert(label_views(labels@) =~= Seq::<Seq<u8>>::empty());
        Evaluator { circuit, bits, nonces, labels, step: 0 }
    }

    /// Where this party stands in its session.
    pub fn phase(&self) -> (phase: Phase)
        ensures
            phase == phase_at(self@.step, self@.steps()),
    {
        proof {
            use_type_invariant(self);
        }
        if self.step >= self.circuit.gates().len() {
            Phase::Completed
        } else if self.step == 0 {
            Phase::Initialized
        } else {
            Phase::Running(self.step as u32)
        }
    }

    /// The number of steps of the session: one for each gate.
    pub fn steps(&self) -> (steps: u32)
        ensures
            steps == self@.steps(),
    {
        proof {
            use_type_invariant(self);
        }
        self.circuit.gates().len() as u32
    }

    /// Whether `incoming` is laid out as the message of the current step,
    /// whose body has `body_len` bytes, and echoes the last nonce.
    fn accepts(&self, incoming: &[u8], body_len: usize) -> (accepted: bool)
        requires
            body_len == self@.body_len(),
        ensures
            accepted == self@.accepts(incoming@),
    {
        proof {
            use_type_invariant(self);
        }
        let step = self.step;
        let pending = step >= 1 && self.circuit.gates()[step - 1] == Gate::EvaluatorInput;
        let body_at: usize = if pending { 52 } else { 20 };
        if incoming.len() < body_at || incoming.len() - body_at != body_len {
            return false;
        }
        let mut head: Vec<u8> = Vec::new();
        put_u32(&mut head, step as u32);
        if !bytes_match(incoming, 0, head.as_slice()) {
            return false;
        }
        if step == 0 {
            is_zero_range(incoming, 4, 16)
        } else {
            range_matches(incoming, 4, self.nonces.as_slice(), 16 * (step - 1), 16)
        }
    }

    /// Takes one step: reads the contributor's message for the current step,
    /// gains the label of its wire, and replies. The state before is used
    /// up, whether the message is accepted or not.
    pub fn run(self, incoming: &[u8]) -> (result: Result<(Evaluator, Vec<u8>), ProtocolError>)
        ensures
            match self@.run(incoming@) {
                Ok((next, sent)) => result matches Ok((state, reply)) && state@ == next
                    && state@.wf() && reply@ == sent,
                Err(refusal) => result matches Err(error) && error == refusal,
            },
    {
        proof {
            use_type_invariant(&self);
        }
        let n = self.circuit.gates().len();
        if self.step >= n {
            return Err(ProtocolError::StepMismatch);
        }
        let step = self.step;
        let gate = self.circuit.gates()[step];
        let pending = step >= 1 && self.circuit.gates()[step - 1] == Gate::EvaluatorInput;
        let body_at: usize = if pending { 52 } else { 20 };
        let body_len: usize = match gate {
            Gate::ContributorInput => 32,
            Gate::EvaluatorInput => 0,
            _ => 128,
        };
        if !self.accepts(incoming, body_len) {
            return Err(ProtocolError::MalformedMessage);
        }
        let ghost before = self@;
        let mut reply: Vec<u8> = Vec::new();
        put_u32(&mut reply, step as u32);
        put_range(&mut reply, self.nonces.as_slice(), 16 * step, 16);
        if gate == Gate::EvaluatorInput {
            reply.push(if self.bits[step] { 1 } else { 0 });
        } else {
            assert(reply@ =~= reply@ + Seq::<u8>::empty());
        }
        assert(reply@ == before.reply());
        let mut labels = self.labels;
        if pending {
            let handed = take_label(incoming, 20);
            labels.push(handed);
        }
        assert(label_views(labels@) =~= before.received(incoming@));
        assert(operands_precede(before.circuit.gates, step as int));
        match gate {
            Gate::ContributorInput => {
                let own = take_label(incoming, body_at);
                labels.push(own);
            },
            Gate::EvaluatorInput => {},
            Gate::And(x, y) | Gate::Nand(x, y) => {
                let out = evaluate(
                    incoming,
                    body_at,
                    &labels[x as usize],
                    &labels[y as usize],
                    step as u32,
                );
                labels.push(out);
            },
        }
        assert(label_views(labels@) =~= before.gained(incoming@));
        let next = Evaluator {
            circuit: self.circuit,
            bits: self.bits,
            nonces: self.nonces,
            labels,
            step: step + 1,
        };
        Ok((next, reply))
    }

    /// Reads the outputs from the contributor's last message. Before the
    /// last step the circuit is incomplete and nothing is read.
    pub fn output(&self, final_message: &[u8]) -> (result: Result<Vec<bool>, ProtocolError>)
        ensures
            match self@.output(final_message@) {
                Ok(bits) => result matches Ok(outputs) && outputs@ == bits,
                Err(refusal) => result matches Err(error) && error == refusal,
            },
    {
        proof {
            use_type_invariant(self);
        }
        let n = self.circuit.gates().len();
        if self.step < n {
            return Err(ProtocolError::IncompleteCircuit);
        }
        let outputs = self.circuit.output_gates();
        if !self.accepts(final_message, outputs.len()) {
            return Err(ProtocolError::MalformedMessage);
        }
        let pending = n >= 1 && self.circuit.gates()[n - 1] == Gate::EvaluatorInput;
        let body_at: usize = if pending { 52 } else { 20 };
        let ghost known = self@.received(final_message@);
        let len = final_message.len();
        let mut bits: Vec<bool> = Vec::new();
        let mut k: usize = 0;
        while k < outputs.len()
            invariant
                k <= outputs@.len(),
                outputs@ == self@.circuit.outputs,
                self@.wf(),
                self.step == n,
                n == self@.steps(),
                pending == self@.pending(n as int),
                body_at == self@.body_at(),
                final_message@.len() == body_at + outputs@.len(),
                len == final_message@.len(),
                known == self@.received(final_message@),
                bits@.len() == k,
                forall|i: int| 0 <= i < k ==> #[trigger] final_message@[body_at + i] <= 1,
                forall|i: int| 0 <= i < k ==> bits@[i] == self@.decoded(final_message@, i),
            decreases outputs@.len() - k,
        {
            let mark = final_message[body_at + k];
            if mark > 1 {
                return Err(ProtocolError::MalformedMessage);
            }
            let wire = outputs[k] as usize;
            let label = if wire < self.labels.len() {
                self.labels[wire]
            } else {
                take_label(final_message, 20)
            };
            assert(label@ == known[wire as int]);
            bits.push(select(&label) != (mark == 1));
            k += 1;
        }
        assert(bits@ =~= Seq::new(
            self@.circuit.outputs.len(),
            |i: int| self@.decoded(final_message@, i),
        ));
        Ok(bits)
    }
}

} // verus!
