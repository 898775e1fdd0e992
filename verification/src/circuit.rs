//! Boolean circuits: gates in declaration order, and the wires that are read
//! as the result.

use vstd::prelude::*;

verus! {

/// A gate. Its position among the gates is the index of the wire it drives.
#[derive(Clone, Copy, Debug, PartialEq, Eq, Structural)]
pub enum Gate {
    /// A wire whose value is the contributor's next input bit.
    ContributorInput,
    /// A wire whose value is the evaluator's next input bit.
    EvaluatorInput,
    /// The conjunction of two earlier wires.
    And(u32, u32),
    /// The negated conjunction of two earlier wires.
    Nand(u32, u32),
}

/// Why a circuit is not well formed.
#[derive(Clone, Copy, Debug, PartialEq, Eq, Structural)]
pub enum ValidationError {
    /// A gate reads a wire that is not driven by a strictly earlier gate.
    OutOfRangeOperand,
    /// An output index names no gate.
    OutOfRangeOutput,
}

/// A circuit: gates in topological order and the indices of the output wires.
#[derive(Debug)]
pub struct Circuit {
    gates: Vec<Gate>,
    output_gates: Vec<u32>,
}

/// The mathematical content of a [`Circuit`].
pub ghost struct CircuitView {
    pub gates: Seq<Gate>,
    pub outputs: Seq<u32>,
}

/// Whether gate `i` reads only wires before `i`.
pub open spec fn operands_precede(gates: Seq<Gate>, i: int) -> bool {
    match gates[i] {
        Gate::And(a, b) | Gate::Nand(a, b) => a < i && b < i,
        _ => true,
    }
}

/// How many of the gates before position `w` are input gates of the given
/// kind ([`Gate::ContributorInput`] or [`Gate::EvaluatorInput`]).
pub open spec fn inputs_before(gates: Seq<Gate>, kind: Gate, w: int) -> nat
    decreases w,
{
    if w <= 0 {
        0
    } else {
        inputs_before(gates, kind, w - 1) + if gates[w - 1] == kind {
            1nat
        } else {
            0nat
        }
    }
}

/// The input bits of one party, bound to its wires: at each input gate of
/// the given kind the party's next bit, and `false` at every other gate.
pub open spec fn bound_bits(gates: Seq<Gate>, kind: Gate, inputs: Seq<bool>) -> Seq<bool> {
    Seq::new(
        gates.len(),
        |w: int| gates[w] == kind && inputs[inputs_before(gates, kind, w) as int],
    )
}

/// The count of input gates does not shrink from one position to a later one.
pub proof fn lemma_inputs_before_monotonic(gates: Seq<Gate>, kind: Gate, v: int, w: int)
    requires
        v <= w,
    ensures
        inputs_before(gates, kind, v) <= inputs_before(gates, kind, w),
    decreases w - v,
{
    if v < w {
        lemma_inputs_before_monotonic(gates, kind, v, w - 1);
    }
}

/// The bit carried by wire `w` when the contributor supplies `a` and the
/// evaluator supplies `b`, each in the order of their input gates.
pub open spec fn wire_value(gates: Seq<Gate>, a: Seq<bool>, b: Seq<bool>, w: int) -> bool
    decreases w,
{
    if w < 0 {
        false
    } else {
        match gates[w] {
            Gate::ContributorInput => a[inputs_before(gates, Gate::ContributorInput, w) as int],
            Gate::EvaluatorInput => b[inputs_before(gates, Gate::EvaluatorInput, w) as int],
            Gate::And(x, y) => x < w && y < w && wire_value(gates, a, b, x as int) && wire_value(
                gates,
                a,
                b,
                y as int,
            ),
            Gate::Nand(x, y) => !(x < w && y < w && wire_value(gates, a, b, x as int)
                && wire_value(gates, a, b, y as int)),
        }
    }
}

impl CircuitView {
    /// Every gate reads only earlier wires.
    pub open spec fn operands_in_range(self) -> bool {
        forall|i: int| 0 <= i < self.gates.len() ==> operands_precede(self.gates, i)
    }

    /// Every output index names a gate.
    pub open spec fn outputs_in_range(self) -> bool {
        forall|k: int| 0 <= k < self.outputs.len() ==> (#[trigger] self.outputs[k]) < self.gates.len()
    }

    /// What validation reports: operands are judged before outputs.
    pub open spec fn validation(self) -> Result<(), ValidationError> {
        if !self.operands_in_range() {
            Err(ValidationError::OutOfRangeOperand)
        } else if !self.outputs_in_range() {
            Err(ValidationError::OutOfRangeOutput)
        } else {
            Ok(())
        }
    }

    /// The circuit is a DAG in declaration order and its outputs exist.
    pub open spec fn valid(self) -> bool {
        self.operands_in_range() && self.outputs_in_range()
    }

    /// The number of bits the contributor has to supply.
    pub open spec fn contributor_inputs(self) -> nat {
        inputs_before(self.gates, Gate::ContributorInput, self.gates.len() as int)
    }

    /// The number of bits the evaluator has to supply.
    pub open spec fn evaluator_inputs(self) -> nat {
        inputs_before(self.gates, Gate::EvaluatorInput, self.gates.len() as int)
    }

    /// The bit on wire `w` for inputs `a` (contributor) and `b` (evaluator).
    pub open spec fn wire(self, a: Seq<bool>, b: Seq<bool>, w: int) -> bool {
        wire_value(self.gates, a, b, w)
    }

    /// The bits on the output wires, in the order the outputs were declared.
    pub open spec fn output_values(self, a: Seq<bool>, b: Seq<bool>) -> Seq<bool> {
        Seq::new(self.outputs.len(), |k: int| self.wire(a, b, self.outputs[k] as int))
    }
}

/// A gate that reads its own wire or a later one makes validation fail, and
/// so does, where no gate is at fault, an output index that names no gate.
pub proof fn law_validation_rejects(circuit: CircuitView, i: int)
    requires
        0 <= i,
    ensures
        i < circuit.gates.len() && !operands_precede(circuit.gates, i) ==> circuit.validation()
            == Err::<(), ValidationError>(ValidationError::OutOfRangeOperand),
        circuit.operands_in_range() && i < circuit.outputs.len() && circuit.outputs[i]
            >= circuit.gates.len() ==> circuit.validation() == Err::<(), ValidationError>(
            ValidationError::OutOfRangeOutput,
        ),
{
}

impl View for Circuit {
    type V = CircuitView;

    closed spec fn view(&self) -> CircuitView {
        CircuitView { gates: self.gates@, outputs: self.output_gates@ }
    }
}

impl Clone for Circuit {
    fn clone(&self) -> (copy: Self)
        ensures
            copy@ == self@,
    {
        let mut gates: Vec<Gate> = Vec::new();
        let mut i: usize = 0;
        while i < self.gates.len()
            invariant
                i <= self.gates.len(),
                gates@ == self.gates@.take(i as int),
            decreases self.gates.len() - i,
        {
            gates.push(self.gates[i]);
            assert(self.gates@.take(i as int + 1) == self.gates@.take(i as int).push(
                self.gates@[i as int],
            ));
            i += 1;
        }
        let mut output_gates: Vec<u32> = Vec::new();
        let mut k: usize = 0;
        while k < self.output_gates.len()
            invariant
                k <= self.output_gates.len(),
                output_gates@ == self.output_gates@.take(k as int),
            decreases self.output_gates.len() - k,
        {
            output_gates.push(self.output_gates[k]);
            assert(self.output_gates@.take(k as int + 1) == self.output_gates@.take(
                k as int,
            ).push(self.output_gates@[k as int]));
            k += 1;
        }
        assert(self.gates@.take(self.gates.len() as int) == self.gates@);
        assert(self.output_gates@.take(self.output_gates.len() as int) == self.output_gates@);
        Circuit { gates, output_gates }
    }
}

impl Circuit {
    /// Builds a circuit from its gates and output indices. Nothing is checked
    /// here: see [`Circuit::validate`].
    pub fn new(gates: Vec<Gate>, output_gates: Vec<u32>) -> (circuit: Circuit)
        ensures
            circuit@.gates == gates@,
            circuit@.outputs == output_gates@,
    {
        Circuit { gates, output_gates }
    }

    /// The gates, in declaration order.
    pub fn gates(&self) -> (gates: &Vec<Gate>)
        ensures
            gates@ == self@.gates,
    {
        &self.gates
    }

    /// The indices of the output wires.
    pub fn output_gates(&self) -> (outputs: &Vec<u32>)
        ensures
            outputs@ == self@.outputs,
    {
        &self.output_gates
    }

    /// Binds the input bits of one party to its input gates, which are those
    /// of the given kind: the result holds, for each gate, the bit bound to
    /// it. `None` where the number of bits is not the number of such gates.
    pub fn bind_inputs(&self, kind: Gate, inputs: &[bool]) -> (bound: Option<Vec<bool>>)
        ensures
            match bound {
                Some(bits) => inputs@.len() == inputs_before(
                    self@.gates,
                    kind,
                    self@.gates.len() as int,
                ) && bits@ == bound_bits(self@.gates, kind, inputs@),
                None => inputs@.len() != inputs_before(
                    self@.gates,
                    kind,
                    self@.gates.len() as int,
                ),
            },
    {
        let n = self.gates.len();
        let mut bits: Vec<bool> = Vec::new();
        let mut used: usize = 0;
        let mut w: usize = 0;
        while w < n
            invariant
                n == self.gates@.len(),
                w <= n,
                used == inputs_before(self.gates@, kind, w as int),
                used <= w,
                used <= inputs@.len(),
                bits@.len() == w,
                forall|v: int|
                    0 <= v < w ==> bits@[v] == (self.gates@[v] == kind && inputs@[inputs_before(
                        self.gates@,
                        kind,
                        v,
                    ) as int]),
            decreases n - w,
        {
            if self.gates[w] == kind {
                if used >= inputs.len() {
                    proof {
                        lemma_inputs_before_monotonic(self.gates@, kind, w as int + 1, n as int);
                    }
                    return None;
                }
                bits.push(inputs[used]);
                used += 1;
            } else {
                bits.push(false);
            }
            w += 1;
        }
        if used != inputs.len() {
            return None;
        }
        assert(bits@ =~= bound_bits(self.gates@, kind, inputs@));
        Some(bits)
    }

    /// Checks that every gate reads strictly earlier wires and that every
    /// output index names a gate.
    pub fn validate(&self) -> (result: Result<(), ValidationError>)
        ensures
            result == self@.validation(),
    {
        let n = self.gates.len();
        let mut i: usize = 0;
        while i < n
            invariant
                n == self.gates@.len(),
                i <= n,
                forall|j: int| 0 <= j < i ==> operands_precede(self.gates@, j),
            decreases n - i,
        {
            let in_range = match self.gates[i] {
                Gate::And(a, b) | Gate::Nand(a, b) => (a as usize) < i && (b as usize) < i,
                _ => true,
            };
            if !in_range {
                assert(!operands_precede(self@.gates, i as int));
                return Err(ValidationError::OutOfRangeOperand);
            }
            i += 1;
        }
        let m = self.output_gates.len();
        let mut k: usize = 0;
        while k < m
            invariant
                self@.operands_in_range(),
                n == self.gates@.len(),
                m == self.output_gates@.len(),
                k <= m,
                forall|j: int| 0 <= j < k ==> (#[trigger] self.output_gates@[j]) < n,
            decreases m - k,
        {
            if self.output_gates[k] as usize >= n {
                assert(!(self@.outputs[k as int] < self@.gates.len()));
                return Err(ValidationError::OutOfRangeOutput);
            }
            k += 1;
        }
        Ok(())
    }
}

} // verus!
