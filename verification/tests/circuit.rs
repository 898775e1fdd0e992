use delbrag::{Circuit, Gate, ValidationError};

#[test]
fn validate_accepts_a_well_formed_circuit() {
    let circuit = Circuit::new(
        vec![Gate::ContributorInput, Gate::EvaluatorInput, Gate::And(0, 1), Gate::Nand(2, 0)],
        vec![2, 3],
    );
    assert_eq!(circuit.validate(), Ok(()));
    assert_eq!(circuit.validate(), Ok(()));
}

#[test]
fn validate_accepts_the_empty_circuit() {
    let circuit = Circuit::new(vec![], vec![]);
    assert_eq!(circuit.validate(), Ok(()));
}

#[test]
fn validate_rejects_a_self_reference() {
    let circuit =
        Circuit::new(vec![Gate::ContributorInput, Gate::EvaluatorInput, Gate::And(0, 2)], vec![2]);
    assert_eq!(circuit.validate(), Err(ValidationError::OutOfRangeOperand));
}

#[test]
fn validate_rejects_a_forward_reference() {
    let circuit = Circuit::new(
        vec![Gate::ContributorInput, Gate::Nand(2, 0), Gate::EvaluatorInput],
        vec![1],
    );
    assert_eq!(circuit.validate(), Err(ValidationError::OutOfRangeOperand));
}

#[test]
fn validate_rejects_an_operand_beyond_the_gates() {
    let circuit =
        Circuit::new(vec![Gate::ContributorInput, Gate::EvaluatorInput, Gate::And(0, 7)], vec![2]);
    assert_eq!(circuit.validate(), Err(ValidationError::OutOfRangeOperand));
}

#[test]
fn validate_rejects_a_gate_at_position_zero_that_reads_a_wire() {
    let circuit = Circuit::new(vec![Gate::And(0, 0)], vec![0]);
    assert_eq!(circuit.validate(), Err(ValidationError::OutOfRangeOperand));
}

#[test]
fn validate_rejects_an_output_beyond_the_gates() {
    let circuit =
        Circuit::new(vec![Gate::ContributorInput, Gate::EvaluatorInput, Gate::And(0, 1)], vec![3]);
    assert_eq!(circuit.validate(), Err(ValidationError::OutOfRangeOutput));
    let empty = Circuit::new(vec![], vec![0]);
    assert_eq!(empty.validate(), Err(ValidationError::OutOfRangeOutput));
}

#[test]
fn validate_judges_operands_before_outputs() {
    let circuit = Circuit::new(vec![Gate::ContributorInput, Gate::And(0, 1)], vec![9]);
    assert_eq!(circuit.validate(), Err(ValidationError::OutOfRangeOperand));
}

#[test]
fn new_keeps_gates_and_outputs() {
    let gates = vec![Gate::ContributorInput, Gate::EvaluatorInput, Gate::Nand(0, 1)];
    let circuit = Circuit::new(gates.clone(), vec![2, 0]);
    assert_eq!(circuit.gates(), &gates);
    assert_eq!(circuit.output_gates(), &vec![2, 0]);
    let copy = circuit.clone();
    assert_eq!(copy.gates(), &gates);
    assert_eq!(copy.output_gates(), &vec![2, 0]);
}

#[test]
fn bind_inputs_puts_each_bit_on_its_gate() {
    let circuit = Circuit::new(
        vec![
            Gate::EvaluatorInput,
            Gate::ContributorInput,
            Gate::EvaluatorInput,
            Gate::And(0, 1),
            Gate::EvaluatorInput,
        ],
        vec![3],
    );
    assert_eq!(
        circuit.bind_inputs(Gate::EvaluatorInput, &[true, false, true]),
        Some(vec![true, false, false, false, true])
    );
    assert_eq!(
        circuit.bind_inputs(Gate::ContributorInput, &[true]),
        Some(vec![false, true, false, false, false])
    );
}

#[test]
fn bind_inputs_refuses_a_wrong_number_of_bits() {
    let circuit =
        Circuit::new(vec![Gate::EvaluatorInput, Gate::ContributorInput, Gate::And(0, 1)], vec![2]);
    assert_eq!(circuit.bind_inputs(Gate::EvaluatorInput, &[]), None);
    assert_eq!(circuit.bind_inputs(Gate::EvaluatorInput, &[true, true]), None);
    assert_eq!(circuit.bind_inputs(Gate::ContributorInput, &[]), None);
}
