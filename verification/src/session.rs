//! The proof that a session between the two parties, each following the
//! protocol, computes the circuit: at every step the evaluator holds, for
//! each wire it knows, the label of the bit that the wire carries.

use crate::circuit::{bound_bits, operands_precede, wire_value, CircuitView, Gate};
use crate::error::ProtocolError;
use crate::garble::{lemma_garbling_correct, lemma_table_len};
use crate::protocol::{
    bit_byte, lemma_wire_pair_wf, ContributorView, EvaluatorView, MAX_GATES,
};
use crate::wire_format::le_bytes;
use vstd::prelude::*;

verus! {

/// The state of a session in which both parties have followed the protocol
/// on the inputs `a` and `b`, with `message` on its way to the evaluator.
#[verifier::opaque]
pub open spec fn in_step(
    cv: ContributorView,
    ev: EvaluatorView,
    a: Seq<bool>,
    b: Seq<bool>,
    message: Seq<u8>,
) -> bool {
    &&& cv.wf()
    &&& ev.wf()
    &&& cv.circuit == ev.circuit
    &&& cv.step == ev.step
    &&& cv.bits == bound_bits(cv.circuit.gates, Gate::ContributorInput, a)
    &&& ev.bits == bound_bits(ev.circuit.gates, Gate::EvaluatorInput, b)
    &&& message == cv.message(
        ev.step as int,
        ev.echo(ev.step as int),
        ev.step >= 1 && ev.bits[ev.step - 1],
    )
    &&& forall|w: int|
        0 <= w < ev.labels.len() ==> #[trigger] ev.labels[w] == cv.pair(w).pick(
            wire_value(cv.circuit.gates, a, b, w),
        )
}

/// Where the four parts of a message lie in it.
pub proof fn lemma_layout(head: Seq<u8>, echo: Seq<u8>, handed: Seq<u8>, body: Seq<u8>)
    requires
        head.len() == 4,
        echo.len() == 16,
    ensures
        ({
            let m = head + echo + handed + body;
            &&& m.len() == 20 + handed.len() + body.len()
            &&& m.subrange(0, 4) == head
            &&& m.subrange(4, 20) == echo
            &&& m.subrange(20, 20 + handed.len() as int) == handed
            &&& m.subrange(20 + handed.len() as int, 20 + handed.len() as int + body.len() as int) == body
        }),
{
    let m = head + echo + handed + body;
    assert(m.subrange(0, 4) =~= head);
    assert(m.subrange(4, 20) =~= echo);
    assert(m.subrange(20, 20 + handed.len() as int) =~= handed);
    assert(m.subrange(20 + handed.len() as int, 20 + handed.len() as int + body.len() as int) =~= body);
}

/// The lengths of the label handed over and of the body of a message.
pub proof fn lemma_lengths(cv: ContributorView, j: int, choice: bool)
    requires
        cv.wf(),
        0 <= j <= cv.steps(),
    ensures
        cv.transfer(j, choice).len() == if cv.hands_over(j) { 32int } else { 0int },
        cv.body(j).len() == if j < cv.steps() {
            match cv.circuit.gates[j] {
                Gate::ContributorInput => 32int,
                Gate::EvaluatorInput => 0int,
                _ => 128int,
            }
        } else {
            cv.circuit.outputs.len() as int
        },
{
    if j >= 1 {
        lemma_wire_pair_wf(cv.stream, j - 1);
    }
    if j < cv.steps() {
        lemma_wire_pair_wf(cv.stream, j);
        match cv.circuit.gates[j] {
            Gate::And(x, y) => {
                lemma_table_len(cv.pair(x as int), cv.pair(y as int), cv.pair(j), false, j as u32);
            },
            Gate::Nand(x, y) => {
                lemma_table_len(cv.pair(x as int), cv.pair(y as int), cv.pair(j), true, j as u32);
            },
            _ => {},
        }
    }
}

/// The bit that a party has bound to one of its input gates is the bit that
/// the wire carries.
pub proof fn lemma_bound_bit(gates: Seq<Gate>, a: Seq<bool>, b: Seq<bool>, w: int)
    requires
        0 <= w < gates.len(),
    ensures
        gates[w] == Gate::ContributorInput ==> bound_bits(gates, Gate::ContributorInput, a)[w]
            == wire_value(gates, a, b, w),
        gates[w] == Gate::EvaluatorInput ==> bound_bits(gates, Gate::EvaluatorInput, b)[w]
            == wire_value(gates, a, b, w),
{
}

/// The evaluator's half of a step: it accepts the message, stays well
/// formed, and holds the right label of every wire it then knows.
pub proof fn lemma_evaluator_step(
    cv: ContributorView,
    ev: EvaluatorView,
    a: Seq<bool>,
    b: Seq<bool>,
    message: Seq<u8>,
)
    requires
        in_step(cv, ev, a, b, message),
        ev.step < ev.steps(),
    ensures
        ev.accepts(message),
        ev.advanced(message).wf(),
        forall|w: int|
            0 <= w < ev.advanced(message).labels.len() ==> #[trigger] ev.advanced(
                message,
            ).labels[w] == cv.pair(w).pick(wire_value(cv.circuit.gates, a, b, w)),
{
    reveal(in_step);
    let j = ev.step as int;
    let gates = cv.circuit.gates;
    let choice = j >= 1 && ev.bits[j - 1];
    let handed = cv.transfer(j, choice);
    let body = cv.body(j);
    lemma_lengths(cv, j, choice);
    lemma_layout(le_bytes(j as u32), ev.echo(j), handed, body);
    assert(ev.accepts(message));
    let known = ev.received(message);
    assert(known.len() == j);
    assert forall|w: int| 0 <= w < j implies #[trigger] known[w] == cv.pair(w).pick(
        wire_value(gates, a, b, w),
    ) by {
        if w < ev.labels.len() {
            assert(known[w] == ev.labels[w]);
        } else {
            assert(w == j - 1);
            assert(known[w] == handed);
            lemma_bound_bit(gates, a, b, w);
        }
    }
    assert forall|w: int| 0 <= w < j implies (#[trigger] known[w]).len() == 32 by {
        lemma_wire_pair_wf(cv.stream, w);
    }
    let after = ev.advanced(message);
    lemma_wire_pair_wf(cv.stream, j);
    assert(operands_precede(gates, j));
    let at = ev.body_at();
    assert(message.subrange(at, at + body.len()) == body);
    match gates[j] {
        Gate::ContributorInput => {
            lemma_bound_bit(gates, a, b, j);
            assert(after.labels[j] == cv.pair(j).pick(wire_value(gates, a, b, j)));
        },
        Gate::EvaluatorInput => {},
        Gate::And(x, y) => {
            lemma_wire_pair_wf(cv.stream, x as int);
            lemma_wire_pair_wf(cv.stream, y as int);
            lemma_garbling_correct(
                cv.pair(x as int),
                cv.pair(y as int),
                cv.pair(j),
                false,
                j as u32,
                wire_value(gates, a, b, x as int),
                wire_value(gates, a, b, y as int),
            );
            assert(known[x as int] == cv.pair(x as int).pick(wire_value(gates, a, b, x as int)));
            assert(known[y as int] == cv.pair(y as int).pick(wire_value(gates, a, b, y as int)));
            assert(after.labels[j] == cv.pair(j).pick(wire_value(gates, a, b, j)));
        },
        Gate::Nand(x, y) => {
            lemma_wire_pair_wf(cv.stream, x as int);
            lemma_wire_pair_wf(cv.stream, y as int);
            lemma_garbling_correct(
                cv.pair(x as int),
                cv.pair(y as int),
                cv.pair(j),
                true,
                j as u32,
                wire_value(gates, a, b, x as int),
                wire_value(gates, a, b, y as int),
            );
            assert(known[x as int] == cv.pair(x as int).pick(wire_value(gates, a, b, x as int)));
            assert(known[y as int] == cv.pair(y as int).pick(wire_value(gates, a, b, y as int)));
            assert(after.labels[j] == cv.pair(j).pick(wire_value(gates, a, b, j)));
        },
    }
    assert forall|w: int| 0 <= w < after.labels.len() implies #[trigger] after.labels[w]
        == cv.pair(w).pick(wire_value(gates, a, b, w)) by {
        if w < j {
            assert(after.labels[w] == known[w]);
        }
    }
    assert forall|w: int| 0 <= w < after.labels.len() implies (#[trigger] after.labels[w]).len()
        == 32 by {
        lemma_wire_pair_wf(cv.stream, w);
    }
}

/// The contributor's half of a step: it accepts the evaluator's reply, and
/// the message it sends opens the next step.
pub proof fn lemma_contributor_step(
    cv: ContributorView,
    ev: EvaluatorView,
    a: Seq<bool>,
    b: Seq<bool>,
    message: Seq<u8>,
)
    requires
        in_step(cv, ev, a, b, message),
        ev.step < ev.steps(),
    ensures
        cv.run(ev.reply()) matches Ok((next, sent)) && in_step(
            next,
            ev.advanced(message),
            a,
            b,
            sent,
        ),
{
    reveal(in_step);
    let j = ev.step as int;
    let reply = ev.reply();
    let asked = if cv.awaits_choice() {
        seq![bit_byte(ev.bits[j])]
    } else {
        Seq::<u8>::empty()
    };
    lemma_evaluator_step(cv, ev, a, b, message);
    lemma_layout(le_bytes(j as u32), ev.nonce(j), asked, Seq::<u8>::empty());
    assert(reply =~= le_bytes(j as u32) + ev.nonce(j) + asked + Seq::<u8>::empty());
    assert(cv.awaits_choice() ==> reply[20] == bit_byte(ev.bits[j]));
    assert(cv.accepts(reply));
    let after = ev.advanced(message);
    let choice = cv.awaits_choice() && reply[20] == 1;
    assert(after.echo(j + 1) == reply.subrange(4, 20));
    let next = cv.advanced();
    assert(next.transfer(j + 1, choice) == next.transfer(j + 1, after.bits[j]));
    assert(cv.transfer(j + 1, choice) == next.transfer(j + 1, choice));
    assert(cv.body(j + 1) == next.body(j + 1));
    let sent = cv.message(j + 1, reply.subrange(4, 20), choice);
    assert(cv.run(reply) == Ok::<(ContributorView, Seq<u8>), ProtocolError>((next, sent)));
    assert(next.wf());
    assert(sent == next.message(j + 1, after.echo(j + 1), after.bits[j]));
    assert(forall|w: int| cv.pair(w) == next.pair(w));
    assert(in_step(next, after, a, b, sent));
}

/// The end of a session: from the last message the evaluator reads the bits
/// that the circuit computes.
pub proof fn lemma_output(
    cv: ContributorView,
    ev: EvaluatorView,
    a: Seq<bool>,
    b: Seq<bool>,
    message: Seq<u8>,
)
    requires
        in_step(cv, ev, a, b, message),
        ev.step == ev.steps(),
    ensures
        ev.output(message) == Ok::<Seq<bool>, ProtocolError>(cv.circuit.output_values(a, b)),
{
    reveal(in_step);
    let n = ev.step as int;
    let gates = cv.circuit.gates;
    let outputs = cv.circuit.outputs;
    let choice = n >= 1 && ev.bits[n - 1];
    let handed = cv.transfer(n, choice);
    let body = cv.body(n);
    lemma_lengths(cv, n, choice);
    lemma_layout(le_bytes(n as u32), ev.echo(n), handed, body);
    assert(ev.accepts(message));
    let at = ev.body_at();
    assert(message.subrange(at, at + body.len()) == body);
    assert forall|k: int| 0 <= k < outputs.len() implies #[trigger] message[at + k]
        == cv.decoding()[k] by {
        assert(message.subrange(at, at + body.len())[k] == message[at + k]);
    }
    assert(ev.decodable(message));
    let known = ev.received(message);
    assert forall|w: int| 0 <= w < n implies #[trigger] known[w] == cv.pair(w).pick(
        wire_value(gates, a, b, w),
    ) by {
        if w < ev.labels.len() {
            assert(known[w] == ev.labels[w]);
        } else {
            assert(known[w] == handed);
            lemma_bound_bit(gates, a, b, w);
        }
    }
    assert forall|k: int| 0 <= k < outputs.len() implies ev.decoded(message, k) == wire_value(
        gates,
        a,
        b,
        outputs[k] as int,
    ) by {
        let o = outputs[k] as int;
        lemma_wire_pair_wf(cv.stream, o);
        assert(message[at + k] == cv.decoding()[k]);
        assert(known[o] == cv.pair(o).pick(wire_value(gates, a, b, o)));
    }
    assert(Seq::new(outputs.len(), |k: int| ev.decoded(message, k)) =~= cv.circuit.output_values(
        a,
        b,
    ));
}

/// A session between two messages: the two parties, the message on its way
/// to the evaluator, and the messages read so far.
pub ghost struct Session {
    pub contributor: ContributorView,
    pub evaluator: EvaluatorView,
    pub pending: Seq<u8>,
    pub read: Seq<Seq<u8>>,
}

impl Session {
    /// The session after one more step: the evaluator reads the pending
    /// message and replies, the contributor reads the reply and sends the
    /// next message.
    pub open spec fn advanced(self) -> Session {
        let reply = self.evaluator.reply();
        let sent = self.contributor.message(
            self.contributor.step as int + 1,
            reply.subrange(4, 20),
            self.contributor.awaits_choice() && reply[20] == 1,
        );
        Session {
            contributor: self.contributor.advanced(),
            evaluator: self.evaluator.advanced(self.pending),
            pending: sent,
            read: self.read.push(self.pending).push(reply),
        }
    }

    /// The session after `steps` more steps.
    pub open spec fn after(self, steps: nat) -> Session
        decreases steps,
    {
        if steps == 0 {
            self
        } else {
            self.after((steps - 1) as nat).advanced()
        }
    }

    /// Every message of the session up to now, the pending one last.
    pub open spec fn transcript(self) -> Seq<Seq<u8>> {
        self.read.push(self.pending)
    }
}

/// The session that opens on `circuit` when the contributor brings the bits
/// `a` and the label material `labels`, and the evaluator the bits `b` and
/// the nonce material `nonces`.
pub open spec fn opening(
    circuit: CircuitView,
    a: Seq<bool>,
    b: Seq<bool>,
    labels: Seq<u8>,
    nonces: Seq<u8>,
) -> Session {
    let contributor = ContributorView {
        circuit,
        bits: bound_bits(circuit.gates, Gate::ContributorInput, a),
        stream: labels,
        step: 0,
    };
    let evaluator = EvaluatorView {
        circuit,
        bits: bound_bits(circuit.gates, Gate::EvaluatorInput, b),
        nonces,
        labels: Seq::empty(),
        step: 0,
    };
    Session { contributor, evaluator, pending: contributor.first_message(), read: Seq::empty() }
}

/// All messages of a whole session, in the order in which they are sent:
/// the opening message, then for each step the evaluator's reply and the
/// contributor's next message.
pub open spec fn transcript(
    circuit: CircuitView,
    a: Seq<bool>,
    b: Seq<bool>,
    labels: Seq<u8>,
    nonces: Seq<u8>,
) -> Seq<Seq<u8>> {
    opening(circuit, a, b, labels, nonces).after(circuit.gates.len()).transcript()
}

/// A session opens in step.
pub proof fn lemma_opening(
    circuit: CircuitView,
    a: Seq<bool>,
    b: Seq<bool>,
    labels: Seq<u8>,
    nonces: Seq<u8>,
)
    requires
        circuit.valid(),
        circuit.gates.len() <= MAX_GATES,
        labels.len() == 64 * circuit.gates.len(),
        nonces.len() == 16 * circuit.gates.len(),
    ensures
        ({
            let s = opening(circuit, a, b, labels, nonces);
            in_step(s.contributor, s.evaluator, a, b, s.pending)
        }),
        opening(circuit, a, b, labels, nonces).after(0) == opening(circuit, a, b, labels, nonces),
{
    reveal(in_step);
}

/// A step keeps a session in step: both parties accept what they read, and
/// the session moves on as [`Session::advanced`] says.
pub proof fn lemma_advance(s: Session, a: Seq<bool>, b: Seq<bool>)
    requires
        in_step(s.contributor, s.evaluator, a, b, s.pending),
        s.evaluator.step < s.evaluator.steps(),
    ensures
        s.evaluator.run(s.pending) == Ok::<(EvaluatorView, Seq<u8>), ProtocolError>(
            (s.advanced().evaluator, s.evaluator.reply()),
        ),
        s.contributor.run(s.evaluator.reply()) == Ok::<(ContributorView, Seq<u8>), ProtocolError>(
            (s.advanced().contributor, s.advanced().pending),
        ),
        in_step(s.advanced().contributor, s.advanced().evaluator, a, b, s.advanced().pending),
        s.advanced().contributor.circuit == s.contributor.circuit,
        s.advanced().evaluator.circuit == s.evaluator.circuit,
        s.advanced().evaluator.step == s.evaluator.step + 1,
{
    reveal(in_step);
    lemma_evaluator_step(s.contributor, s.evaluator, a, b, s.pending);
    lemma_contributor_step(s.contributor, s.evaluator, a, b, s.pending);
}

/// A session stays in step for as many steps as the circuit has gates.
pub proof fn lemma_in_step_after(
    circuit: CircuitView,
    a: Seq<bool>,
    b: Seq<bool>,
    labels: Seq<u8>,
    nonces: Seq<u8>,
    steps: nat,
)
    requires
        circuit.valid(),
        circuit.gates.len() <= MAX_GATES,
        labels.len() == 64 * circuit.gates.len(),
        nonces.len() == 16 * circuit.gates.len(),
        steps <= circuit.gates.len(),
    ensures
        ({
            let s = opening(circuit, a, b, labels, nonces).after(steps);
            &&& in_step(s.contributor, s.evaluator, a, b, s.pending)
            &&& s.contributor.circuit == circuit
            &&& s.evaluator.circuit == circuit
            &&& s.evaluator.step == steps
        }),
    decreases steps,
{
    if steps == 0 {
        lemma_opening(circuit, a, b, labels, nonces);
    } else {
        lemma_in_step_after(circuit, a, b, labels, nonces, (steps - 1) as nat);
        lemma_advance(opening(circuit, a, b, labels, nonces).after((steps - 1) as nat), a, b);
    }
}

/// A session computes the circuit: on a well-formed circuit, with any label
/// and nonce material of the right length, the two parties accept every
/// message of each other, and after the last step the evaluator reads the
/// bits that the circuit gives on the two parties' inputs.
pub proof fn law_session(
    circuit: CircuitView,
    a: Seq<bool>,
    b: Seq<bool>,
    labels: Seq<u8>,
    nonces: Seq<u8>,
)
    requires
        circuit.valid(),
        circuit.gates.len() <= MAX_GATES,
        labels.len() == 64 * circuit.gates.len(),
        nonces.len() == 16 * circuit.gates.len(),
    ensures
        ({
            let end = opening(circuit, a, b, labels, nonces).after(circuit.gates.len());
            end.evaluator.output(end.pending) == Ok::<Seq<bool>, ProtocolError>(
                circuit.output_values(a, b),
            )
        }),
{
    lemma_in_step_after(circuit, a, b, labels, nonces, circuit.gates.len());
    let end = opening(circuit, a, b, labels, nonces).after(circuit.gates.len());
    lemma_output(end.contributor, end.evaluator, a, b, end.pending);
}

/// The two parties of a session on one circuit count the same number of
/// steps: one for each gate.
pub proof fn law_steps_agree(contributor: ContributorView, evaluator: EvaluatorView)
    requires
        contributor.circuit == evaluator.circuit,
    ensures
        contributor.steps() == evaluator.steps(),
        contributor.steps() == contributor.circuit.gates.len(),
{
}

} // verus!
