use bitcoin::hashes::sha256;
use delbrag::chains::{and, build_chain, nand, xor};
use delbrag::states::{Contributor, Evaluator};
use delbrag::{
    simulate, simulate_traced, Circuit, Error, Gate, Phase, ProtocolError, ValidationError,
};
use rand::{RngCore, SeedableRng};
use rand_chacha::ChaCha20Rng;

const SEED_A: [u8; 32] = [7; 32];
const SEED_B: [u8; 32] = [9; 32];

fn and_gate() -> Circuit {
    Circuit::new(vec![Gate::ContributorInput, Gate::EvaluatorInput, Gate::And(0, 1)], vec![2])
}

fn chacha(seed: [u8; 32], len: usize) -> Vec<u8> {
    let mut rng = ChaCha20Rng::from_seed(seed);
    let mut stream = vec![0u8; len];
    rng.fill_bytes(&mut stream);
    stream
}

fn digest(data: &[u8]) -> [u8; 32] {
    let hash = <sha256::Hash as bitcoin::hashes::Hash>::hash(data);
    bitcoin::hashes::Hash::to_byte_array(hash)
}

fn label(stream: &[u8], wire: usize, bit: bool) -> Vec<u8> {
    let zero = stream[64 * wire..64 * wire + 32].to_vec();
    if !bit {
        return zero;
    }
    let mut one = stream[64 * wire + 32..64 * wire + 64].to_vec();
    one[0] = (one[0] & 0xfe) | ((zero[0] & 1) ^ 1);
    one
}

#[test]
fn and_gate_of_two_set_bits_is_set() {
    assert_eq!(simulate(&and_gate(), &[true], &[true], SEED_A, SEED_B), Ok(vec![true]));
}

#[test]
fn and_gate_with_a_clear_evaluator_bit_is_clear() {
    assert_eq!(simulate(&and_gate(), &[true], &[false], SEED_A, SEED_B), Ok(vec![false]));
}

#[test]
fn and_gate_truth_table() {
    for a in [false, true] {
        for b in [false, true] {
            assert_eq!(simulate(&and_gate(), &[a], &[b], SEED_A, SEED_B), Ok(vec![a && b]));
        }
    }
}

#[test]
fn nand_gate_truth_table() {
    let circuit =
        Circuit::new(vec![Gate::EvaluatorInput, Gate::ContributorInput, Gate::Nand(1, 0)], vec![2]);
    for a in [false, true] {
        for b in [false, true] {
            assert_eq!(simulate(&circuit, &[a], &[b], SEED_B, SEED_A), Ok(vec![!(a && b)]));
        }
    }
}

#[test]
fn outputs_come_in_the_declared_order() {
    let circuit = Circuit::new(
        vec![
            Gate::ContributorInput,
            Gate::ContributorInput,
            Gate::EvaluatorInput,
            Gate::And(0, 2),
            Gate::Nand(1, 3),
            Gate::EvaluatorInput,
        ],
        vec![4, 0, 3, 5, 4],
    );
    assert_eq!(
        simulate(&circuit, &[true, true], &[true, false], SEED_A, SEED_B),
        Ok(vec![false, true, true, false, false])
    );
    assert_eq!(
        simulate(&circuit, &[false, true], &[true, true], SEED_A, SEED_B),
        Ok(vec![true, false, false, true, true])
    );
}

#[test]
fn the_empty_circuit_has_no_output() {
    let circuit = Circuit::new(vec![], vec![]);
    assert_eq!(simulate(&circuit, &[], &[], SEED_A, SEED_B), Ok(vec![]));
}

#[test]
fn and_chain_is_the_conjunction_of_all_bits() {
    let circuit = build_chain(4, false);
    assert_eq!(circuit.validate(), Ok(()));
    assert_eq!(circuit.gates().len(), 9);
    assert_eq!(circuit.gates()[0], Gate::ContributorInput);
    assert_eq!(circuit.gates()[1], Gate::EvaluatorInput);
    assert_eq!(circuit.gates()[2], Gate::And(0, 1));
    assert_eq!(circuit.gates()[8], Gate::And(6, 7));
    assert_eq!(circuit.output_gates(), &vec![8]);
    assert_eq!(simulate(&circuit, &[true], &[true; 4], SEED_A, SEED_B), Ok(vec![true]));
    assert_eq!(simulate(&circuit, &[false], &[true; 4], SEED_A, SEED_B), Ok(vec![false]));
    assert_eq!(
        simulate(&circuit, &[true], &[true, true, false, true], SEED_A, SEED_B),
        Ok(vec![false])
    );
}

#[test]
fn nand_chain_alternates_with_its_length() {
    for n in 0..6u32 {
        let circuit = build_chain(n, true);
        let bits = vec![true; n as usize];
        assert_eq!(simulate(&circuit, &[true], &bits, SEED_A, SEED_B), Ok(vec![n % 2 == 0]));
    }
    let one = build_chain(1, true);
    assert_eq!(one.gates()[2], Gate::Nand(0, 1));
    assert_eq!(simulate(&one, &[true], &[true], SEED_A, SEED_B), Ok(vec![false]));
    let two = build_chain(2, true);
    assert_eq!(simulate(&two, &[true], &[true, true], SEED_A, SEED_B), Ok(vec![true]));
}

#[test]
fn the_three_sessions_on_chains_succeed() {
    assert_eq!(and(10, SEED_A, SEED_B), Ok(()));
    assert_eq!(xor(10, SEED_A, SEED_B), Ok(()));
    assert_eq!(nand(2, SEED_A, SEED_B), Ok(()));
    assert_eq!(nand(3, SEED_A, SEED_B), Ok(()));
    assert_eq!(and(0, SEED_A, SEED_B), Ok(()));
}

#[test]
fn a_chain_too_long_for_a_session_is_refused() {
    assert_eq!(and(0x0200_0000, SEED_A, SEED_B), Err(Error::CircuitTooLarge));
    assert_eq!(nand(u32::MAX, SEED_A, SEED_B), Err(Error::CircuitTooLarge));
    assert_eq!(xor(0x7fff_fffe, SEED_A, SEED_B), Err(Error::CircuitTooLarge));
}

#[test]
fn both_parties_count_one_step_for_each_gate() {
    let circuit = build_chain(3, false);
    let evaluator = Evaluator::new(circuit.clone(), &[true; 3], SEED_B).unwrap();
    let (contributor, _) = Contributor::new(&circuit, &[true], SEED_A).unwrap();
    assert_eq!(contributor.steps(), 7);
    assert_eq!(contributor.steps(), evaluator.steps());
}

#[test]
fn an_invalid_circuit_is_refused_before_the_session() {
    let forward = Circuit::new(vec![Gate::ContributorInput, Gate::And(0, 1)], vec![1]);
    let expected = Error::Validation(ValidationError::OutOfRangeOperand);
    assert_eq!(simulate(&forward, &[true], &[], SEED_A, SEED_B), Err(expected));
    assert_eq!(Contributor::new(&forward, &[true], SEED_A).err(), Some(expected));
    assert_eq!(Evaluator::new(forward, &[], SEED_B).err(), Some(expected));
    let output = Circuit::new(vec![Gate::ContributorInput], vec![1]);
    assert_eq!(
        simulate(&output, &[true], &[], SEED_A, SEED_B),
        Err(Error::Validation(ValidationError::OutOfRangeOutput))
    );
}

#[test]
fn a_wrong_number_of_input_bits_is_refused() {
    assert_eq!(simulate(&and_gate(), &[], &[true], SEED_A, SEED_B), Err(Error::InputCount));
    assert_eq!(simulate(&and_gate(), &[true], &[], SEED_A, SEED_B), Err(Error::InputCount));
    assert_eq!(
        simulate(&and_gate(), &[true, true], &[true], SEED_A, SEED_B),
        Err(Error::InputCount)
    );
    assert_eq!(Contributor::new(&and_gate(), &[], SEED_A).err(), Some(Error::InputCount));
    assert_eq!(Evaluator::new(and_gate(), &[true, false], SEED_B).err(), Some(Error::InputCount));
}

#[test]
fn material_of_the_wrong_length_is_refused() {
    assert_eq!(
        Contributor::from_labels(&and_gate(), &[true], vec![0; 191]).err(),
        Some(Error::MaterialLength)
    );
    assert_eq!(
        Evaluator::from_nonces(and_gate(), &[true], vec![0; 49]).err(),
        Some(Error::MaterialLength)
    );
    assert!(Contributor::from_labels(&and_gate(), &[true], vec![0; 192]).is_ok());
    assert!(Evaluator::from_nonces(and_gate(), &[true], vec![0; 48]).is_ok());
}

#[test]
fn equal_seeds_give_equal_messages() {
    let circuit = build_chain(3, true);
    let bits = [true, false, true];
    let first = simulate_traced(&circuit, &[true], &bits, SEED_A, SEED_B).unwrap();
    let second = simulate_traced(&circuit, &[true], &bits, SEED_A, SEED_B).unwrap();
    assert_eq!(first, second);
    assert_eq!(first.0.len(), 2 * 7 + 1);
}

#[test]
fn other_seeds_give_other_messages_and_the_same_output() {
    let circuit = build_chain(3, true);
    let bits = [true, false, true];
    let first = simulate_traced(&circuit, &[true], &bits, SEED_A, SEED_B).unwrap();
    let labels = simulate_traced(&circuit, &[true], &bits, [8; 32], SEED_B).unwrap();
    let nonces = simulate_traced(&circuit, &[true], &bits, SEED_A, [8; 32]).unwrap();
    assert_ne!(first.0, labels.0);
    assert_ne!(first.0, nonces.0);
    assert_eq!(first.0[0], nonces.0[0]);
    assert_eq!(first.1, labels.1);
    assert_eq!(first.1, nonces.1);
}

#[test]
fn the_labels_are_cut_from_the_chacha20_stream_of_the_seed() {
    let circuit = Circuit::new(vec![Gate::ContributorInput], vec![0]);
    let stream = chacha(SEED_A, 64);
    assert_ne!(&stream[..32], &SEED_A[..]);
    for bit in [false, true] {
        let (_, message) = Contributor::new(&circuit, &[bit], SEED_A).unwrap();
        let mut expected = vec![0u8; 20];
        expected.extend(label(&stream, 0, bit));
        assert_eq!(message, expected);
    }
    let zero = label(&stream, 0, false);
    let one = label(&stream, 0, true);
    assert_ne!(zero[0] & 1, one[0] & 1);
    assert_eq!(&one[1..], &stream[33..64]);
}

#[test]
fn the_nonces_are_cut_from_the_chacha20_stream_of_the_seed() {
    let stream = chacha(SEED_B, 48);
    let evaluator = Evaluator::new(and_gate(), &[true], SEED_B).unwrap();
    let (contributor, message) = Contributor::new(&and_gate(), &[true], SEED_A).unwrap();
    let (evaluator, reply) = evaluator.run(&message).unwrap();
    let mut expected = vec![0, 0, 0, 0];
    expected.extend(&stream[..16]);
    assert_eq!(reply, expected);
    let (_, message) = contributor.run(&reply).unwrap();
    let (_, reply) = evaluator.run(&message).unwrap();
    let mut expected = vec![1, 0, 0, 0];
    expected.extend(&stream[16..32]);
    expected.push(1);
    assert_eq!(reply, expected);
}

#[test]
fn a_session_step_by_step() {
    let stream: Vec<u8> = (0..192u32).map(|i| (i * 7 + 3) as u8).collect();
    let nonces: Vec<u8> = (0..48u32).map(|i| (200 - i) as u8).collect();
    let evaluator = Evaluator::from_nonces(and_gate(), &[true], nonces.clone()).unwrap();
    let (contributor, opening) =
        Contributor::from_labels(&and_gate(), &[true], stream.clone()).unwrap();
    assert_eq!(evaluator.output(&opening), Err(ProtocolError::IncompleteCircuit));

    // Step 0: the contributor's own label.
    let mut expected = vec![0u8; 20];
    expected.extend(label(&stream, 0, true));
    assert_eq!(opening, expected);
    let (evaluator, reply) = evaluator.run(&opening).unwrap();
    let mut expected = vec![0, 0, 0, 0];
    expected.extend(&nonces[..16]);
    assert_eq!(reply, expected);

    // Step 1: the evaluator asks for the label of its bit.
    let (contributor, message) = contributor.run(&reply).unwrap();
    let mut expected = vec![1, 0, 0, 0];
    expected.extend(&nonces[..16]);
    assert_eq!(message, expected);
    let (evaluator, reply) = evaluator.run(&message).unwrap();
    let mut expected = vec![1, 0, 0, 0];
    expected.extend(&nonces[16..32]);
    expected.push(1);
    assert_eq!(reply, expected);

    // Step 2: the label asked for, then the garbled table.
    let (contributor, message) = contributor.run(&reply).unwrap();
    assert_eq!(message.len(), 20 + 32 + 128);
    assert_eq!(&message[..4], &[2, 0, 0, 0]);
    assert_eq!(&message[4..20], &nonces[16..32]);
    let left = label(&stream, 0, true);
    let right = label(&stream, 1, true);
    assert_eq!(&message[20..52], &right[..]);
    for row in 0..4usize {
        let x = (row / 2 == 1) != (label(&stream, 0, false)[0] & 1 == 1);
        let y = (row % 2 == 1) != (label(&stream, 1, false)[0] & 1 == 1);
        let mut material = label(&stream, 0, x);
        material.extend(label(&stream, 1, y));
        material.extend([2, 0, 0, 0]);
        let pad = digest(&material);
        let out = label(&stream, 2, x && y);
        let masked: Vec<u8> = out.iter().zip(pad.iter()).map(|(o, p)| o ^ p).collect();
        assert_eq!(&message[52 + 32 * row..52 + 32 * row + 32], &masked[..]);
    }
    let row = 2 * (left[0] & 1) as usize + (right[0] & 1) as usize;
    let mut material = left.clone();
    material.extend(right.clone());
    material.extend([2, 0, 0, 0]);
    let pad = digest(&material);
    let unmasked: Vec<u8> =
        message[52 + 32 * row..52 + 32 * row + 32].iter().zip(pad.iter()).map(|(c, p)| c ^ p).collect();
    assert_eq!(unmasked, label(&stream, 2, true));
    let (evaluator, reply) = evaluator.run(&message).unwrap();
    let mut expected = vec![2, 0, 0, 0];
    expected.extend(&nonces[32..48]);
    assert_eq!(reply, expected);

    // The last message decodes the output.
    let (contributor, last) = contributor.run(&reply).unwrap();
    let mut expected = vec![3, 0, 0, 0];
    expected.extend(&nonces[32..48]);
    expected.push(label(&stream, 2, false)[0] & 1);
    assert_eq!(last, expected);
    assert_eq!(evaluator.output(&last), Ok(vec![true]));
    assert_eq!(evaluator.output(&last), Ok(vec![true]));

    // Both parties are done.
    assert_eq!(contributor.run(&reply).err(), Some(ProtocolError::StepMismatch));
    assert_eq!(evaluator.run(&last).err(), Some(ProtocolError::StepMismatch));
}

#[test]
fn the_evaluator_refuses_a_message_of_another_step() {
    let evaluator = Evaluator::new(and_gate(), &[true], SEED_B).unwrap();
    let (_, opening) = Contributor::new(&and_gate(), &[true], SEED_A).unwrap();
    let mut wrong_step = opening.clone();
    wrong_step[0] = 1;
    assert_eq!(
        Evaluator::new(and_gate(), &[true], SEED_B).unwrap().run(&wrong_step).err(),
        Some(ProtocolError::MalformedMessage)
    );
    let mut wrong_echo = opening.clone();
    wrong_echo[19] = 1;
    assert_eq!(
        Evaluator::new(and_gate(), &[true], SEED_B).unwrap().run(&wrong_echo).err(),
        Some(ProtocolError::MalformedMessage)
    );
    assert_eq!(
        Evaluator::new(and_gate(), &[true], SEED_B).unwrap().run(&opening[..51]).err(),
        Some(ProtocolError::MalformedMessage)
    );
    assert_eq!(
        Evaluator::new(and_gate(), &[true], SEED_B).unwrap().run(&[]).err(),
        Some(ProtocolError::MalformedMessage)
    );
    assert!(evaluator.run(&opening).is_ok());
}

#[test]
fn the_evaluator_refuses_a_message_that_echoes_another_nonce() {
    let evaluator = Evaluator::new(and_gate(), &[true], SEED_B).unwrap();
    let (contributor, opening) = Contributor::new(&and_gate(), &[true], SEED_A).unwrap();
    let (evaluator, mut reply) = evaluator.run(&opening).unwrap();
    reply[4] ^= 1;
    let (_, message) = contributor.run(&reply).unwrap();
    assert_eq!(evaluator.run(&message).err(), Some(ProtocolError::MalformedMessage));
}

#[test]
fn the_contributor_refuses_a_malformed_reply() {
    let start = || Contributor::new(&and_gate(), &[true], SEED_A).unwrap().0;
    let good = {
        let mut reply = vec![0, 0, 0, 0];
        reply.extend([5u8; 16]);
        reply
    };
    assert!(start().run(&good).is_ok());
    assert_eq!(start().run(&good[..19]).err(), Some(ProtocolError::MalformedMessage));
    let mut longer = good.clone();
    longer.push(0);
    assert_eq!(start().run(&longer).err(), Some(ProtocolError::MalformedMessage));
    let mut wrong_step = good.clone();
    wrong_step[1] = 1;
    assert_eq!(start().run(&wrong_step).err(), Some(ProtocolError::MalformedMessage));

    let (next, _) = start().run(&good).unwrap();
    let mut choice = vec![1, 0, 0, 0];
    choice.extend([5u8; 16]);
    assert_eq!(
        start().run(&good).unwrap().0.run(&choice).err(),
        Some(ProtocolError::MalformedMessage)
    );
    choice.push(2);
    assert_eq!(
        start().run(&good).unwrap().0.run(&choice).err(),
        Some(ProtocolError::MalformedMessage)
    );
    choice[20] = 0;
    let (_, message) = next.run(&choice).unwrap();
    assert_eq!(&message[20..52], &label(&chacha(SEED_A, 192), 1, false)[..]);
}

#[test]
fn the_evaluator_refuses_a_decoding_that_is_no_bit() {
    let circuit = Circuit::new(vec![Gate::ContributorInput], vec![0, 0]);
    let evaluator = Evaluator::new(circuit.clone(), &[], SEED_B).unwrap();
    let (contributor, opening) = Contributor::new(&circuit, &[true], SEED_A).unwrap();
    let (evaluator, reply) = evaluator.run(&opening).unwrap();
    let (_, last) = contributor.run(&reply).unwrap();
    assert_eq!(evaluator.output(&last), Ok(vec![true, true]));
    let mut bad = last.clone();
    bad[21] = 2;
    assert_eq!(evaluator.output(&bad), Err(ProtocolError::MalformedMessage));
    assert_eq!(evaluator.output(&last[..21]), Err(ProtocolError::MalformedMessage));
    let mut flipped = last.clone();
    flipped[20] ^= 1;
    assert_eq!(evaluator.output(&flipped), Ok(vec![false, true]));
}

#[test]
fn an_evaluator_input_as_the_last_gate_is_handed_over_with_the_decoding() {
    let circuit = Circuit::new(vec![Gate::EvaluatorInput], vec![0]);
    for bit in [false, true] {
        assert_eq!(simulate(&circuit, &[], &[bit], SEED_A, SEED_B), Ok(vec![bit]));
    }
    let trace = simulate_traced(&circuit, &[], &[true], SEED_A, SEED_B).unwrap().0;
    assert_eq!(trace[0].len(), 20);
    assert_eq!(trace[1].len(), 21);
    assert_eq!(trace[2].len(), 20 + 32 + 1);
    assert_eq!(&trace[2][20..52], &label(&chacha(SEED_A, 64), 0, true)[..]);
}

#[test]
fn the_commitments_are_the_digests_of_the_input_labels() {
    let circuit = Circuit::new(
        vec![Gate::EvaluatorInput, Gate::ContributorInput, Gate::And(0, 1), Gate::EvaluatorInput],
        vec![2],
    );
    let (contributor, _) = Contributor::new(&circuit, &[true], SEED_A).unwrap();
    let stream = chacha(SEED_A, 256);
    let commitments = contributor.label_commitments();
    assert_eq!(commitments.len(), 3);
    for (k, wire) in [0usize, 1, 3].into_iter().enumerate() {
        assert_eq!(commitments[k].0, digest(&label(&stream, wire, false)));
        assert_eq!(commitments[k].1, digest(&label(&stream, wire, true)));
        assert_ne!(commitments[k].0[..], label(&stream, wire, false)[..]);
    }
}

#[test]
fn the_labels_that_a_session_hands_over_open_their_commitments() {
    let circuit = Circuit::new(vec![Gate::ContributorInput, Gate::EvaluatorInput], vec![0, 1]);
    let (contributor, opening) = Contributor::new(&circuit, &[true], SEED_A).unwrap();
    let commitments = contributor.label_commitments();
    assert_eq!(commitments.len(), 2);
    assert_eq!(delbrag::script::reveal_opens(&commitments[0], &opening[20..]), Some(true));
    let evaluator = Evaluator::new(circuit, &[false], SEED_B).unwrap();
    let (evaluator, reply) = evaluator.run(&opening).unwrap();
    let (contributor, message) = contributor.run(&reply).unwrap();
    let (_, reply) = evaluator.run(&message).unwrap();
    let (_, last) = contributor.run(&reply).unwrap();
    assert_eq!(delbrag::script::reveal_opens(&commitments[1], &last[20..52]), Some(false));
    assert_eq!(delbrag::script::reveal_opens(&commitments[0], &last[20..52]), None);
}

#[test]
fn a_party_goes_from_initialized_through_running_to_completed() {
    let evaluator = Evaluator::new(and_gate(), &[true], SEED_B).unwrap();
    let (contributor, message) = Contributor::new(&and_gate(), &[true], SEED_A).unwrap();
    assert_eq!(evaluator.phase(), Phase::Initialized);
    assert_eq!(contributor.phase(), Phase::Initialized);
    let (evaluator, reply) = evaluator.run(&message).unwrap();
    let (contributor, message) = contributor.run(&reply).unwrap();
    assert_eq!(evaluator.phase(), Phase::Running(1));
    assert_eq!(contributor.phase(), Phase::Running(1));
    let (evaluator, reply) = evaluator.run(&message).unwrap();
    let (contributor, message) = contributor.run(&reply).unwrap();
    assert_eq!(evaluator.phase(), Phase::Running(2));
    let (evaluator, reply) = evaluator.run(&message).unwrap();
    let (contributor, _) = contributor.run(&reply).unwrap();
    assert_eq!(evaluator.phase(), Phase::Completed);
    assert_eq!(contributor.phase(), Phase::Completed);
    let empty = Circuit::new(vec![], vec![]);
    assert_eq!(Evaluator::new(empty, &[], SEED_B).unwrap().phase(), Phase::Completed);
}
