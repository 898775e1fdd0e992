use bitcoin::blockdata::opcodes::all::{
    OP_CHECKSIG, OP_CHECKSIGVERIFY, OP_CLTV, OP_CSV, OP_DROP, OP_DUP, OP_ENDIF, OP_EQUAL,
    OP_EQUALVERIFY, OP_NOTIF, OP_SHA256,
};
use bitcoin::blockdata::script::{Builder, ScriptBuf};
use bitcoin::hashes::sha256;
use bitcoin::secp256k1::rand::rngs::OsRng;
use bitcoin::secp256k1::{Secp256k1, SecretKey};
use delbrag::script::{
    challenge_script, combine_scripts, commit_inputs_script, commit_output_script,
    cooperative_script, sample_preimage, punishment_script, refund_script, reveal_opens,
    timeout_script, SpendPath, SpendPolicy, REFUND_DELAY, TIMEOUT_HEIGHT,
};
use delbrag::{PublicKey, ScriptBuildError};

fn key(secret: u8) -> (PublicKey, [u8; 33]) {
    let secp = Secp256k1::new();
    let mut bytes = [0u8; 32];
    bytes[31] = secret;
    let sk = SecretKey::from_slice(&bytes).unwrap();
    let pk = bitcoin::secp256k1::PublicKey::from_secret_key(&secp, &sk);
    (PublicKey::from_slice(&pk.serialize()).unwrap(), pk.serialize())
}

fn outside_key(bytes: &[u8; 33]) -> bitcoin::PublicKey {
    bitcoin::PublicKey::from_slice(bytes).unwrap()
}

fn digest(data: &[u8]) -> [u8; 32] {
    let hash = <sha256::Hash as bitcoin::hashes::Hash>::hash(data);
    bitcoin::hashes::Hash::to_byte_array(hash)
}

fn generate_keys() -> (SecretKey, SecretKey) {
    let prover_sk = SecretKey::new(&mut OsRng);
    let verifier_sk = SecretKey::new(&mut OsRng);
    (prover_sk, verifier_sk)
}

#[test]
fn test_commit_script() {
    let secp = Secp256k1::new();
    let (prover_sk, verifier_sk) = generate_keys();
    let prover_pk = bitcoin::secp256k1::PublicKey::from_secret_key(&secp, &prover_sk);
    let verifier_pk = bitcoin::secp256k1::PublicKey::from_secret_key(&secp, &verifier_sk);
    let prover = PublicKey::from_slice(&prover_pk.serialize()).unwrap();
    let verifier = PublicKey::from_slice(&verifier_pk.serialize()).unwrap();

    let output_script = commit_output_script(prover.clone(), verifier.clone()).unwrap();

    let y0_hash = digest(b"some-secret-y0");
    let punishment = Builder::new()
        .push_opcode(OP_SHA256)
        .push_slice(y0_hash)
        .push_opcode(OP_EQUALVERIFY)
        .push_key(&verifier_pk.into())
        .push_opcode(OP_CHECKSIG)
        .into_script();
    let refund = Builder::new()
        .push_int(10)
        .push_opcode(OP_CSV)
        .push_opcode(OP_DROP)
        .push_key(&prover_pk.into())
        .push_opcode(OP_CHECKSIG)
        .into_script();
    assert_eq!(output_script.0, punishment);
    assert_eq!(output_script.1, refund);
}

#[test]
fn the_sample_preimage_is_its_text() {
    assert_eq!(&sample_preimage()[..], b"some-secret-y0");
}

#[test]
fn a_key_is_read_from_either_encoding() {
    let secp = Secp256k1::new();
    let sk = SecretKey::from_slice(&[1u8; 32]).unwrap();
    let pk = bitcoin::secp256k1::PublicKey::from_secret_key(&secp, &sk);
    let compressed = PublicKey::from_slice(&pk.serialize()).unwrap();
    let uncompressed = PublicKey::from_slice(&pk.serialize_uncompressed()).unwrap();
    assert_eq!(compressed.serialize(), pk.serialize());
    assert_eq!(uncompressed.serialize(), pk.serialize());
    assert_ne!(&uncompressed.serialize()[..], &pk.serialize_uncompressed()[..33]);
}

#[test]
fn the_key_of_the_secret_one_is_the_generator() {
    let (key, bytes) = key(1);
    let expected: [u8; 33] = [
        0x02, 0x79, 0xbe, 0x66, 0x7e, 0xf9, 0xdc, 0xbb, 0xac, 0x55, 0xa0, 0x62, 0x95, 0xce, 0x87,
        0x0b, 0x07, 0x02, 0x9b, 0xfc, 0xdb, 0x2d, 0xce, 0x28, 0xd9, 0x59, 0xf2, 0x81, 0x5b, 0x16,
        0xf8, 0x17, 0x98,
    ];
    assert_eq!(bytes, expected);
    assert_eq!(key.serialize(), expected);
}

#[test]
fn bytes_that_are_no_key_are_rejected() {
    assert_eq!(PublicKey::from_slice(&[]).err(), Some(ScriptBuildError::InvalidKey));
    assert_eq!(PublicKey::from_slice(&[0u8; 33]).err(), Some(ScriptBuildError::InvalidKey));
    assert_eq!(PublicKey::from_slice(&[2u8; 32]).err(), Some(ScriptBuildError::InvalidKey));
    let mut off_curve = [0xffu8; 33];
    off_curve[0] = 2;
    assert_eq!(PublicKey::from_slice(&off_curve).err(), Some(ScriptBuildError::InvalidKey));
}

#[test]
fn the_challenge_has_the_committed_hashes_in_order() {
    let h0 = [0x11u8; 32];
    let h1 = [0x22u8; 32];
    let mut expected = vec![0xa8, 0x76, 0x20];
    expected.extend(h0);
    expected.extend([0x87, 0x64, 0x20]);
    expected.extend(h1);
    expected.extend([0x88, 0x68]);
    assert_eq!(challenge_script(&h0, &h1).to_bytes(), expected);
    let built = Builder::new()
        .push_opcode(OP_SHA256)
        .push_opcode(OP_DUP)
        .push_slice(h0)
        .push_opcode(OP_EQUAL)
        .push_opcode(OP_NOTIF)
        .push_slice(h1)
        .push_opcode(OP_EQUALVERIFY)
        .push_opcode(OP_ENDIF)
        .into_script();
    assert_eq!(challenge_script(&h0, &h1), built);
    assert_ne!(challenge_script(&h1, &h0), built);
}

#[test]
fn the_cooperative_close_asks_for_both_signatures() {
    let (prover, prover_bytes) = key(1);
    let (verifier, verifier_bytes) = key(2);
    let mut expected = vec![0x21];
    expected.extend(prover_bytes);
    expected.extend([0xad, 0x21]);
    expected.extend(verifier_bytes);
    expected.push(0xac);
    assert_eq!(cooperative_script(&prover, &verifier).to_bytes(), expected);
    let built = Builder::new()
        .push_key(&outside_key(&prover_bytes))
        .push_opcode(OP_CHECKSIGVERIFY)
        .push_key(&outside_key(&verifier_bytes))
        .push_opcode(OP_CHECKSIG)
        .into_script();
    assert_eq!(cooperative_script(&prover, &verifier), built);
}

#[test]
fn the_timeout_pushes_its_height_as_a_minimal_number() {
    let (verifier, verifier_bytes) = key(2);
    let tail = |prefix: &[u8]| {
        let mut script = prefix.to_vec();
        script.extend([0xb1, 0x75, 0x21]);
        script.extend(verifier_bytes);
        script.push(0xac);
        script
    };
    assert_eq!(timeout_script(0, &verifier).to_bytes(), tail(&[0x00]));
    assert_eq!(timeout_script(1, &verifier).to_bytes(), tail(&[0x51]));
    assert_eq!(timeout_script(10, &verifier).to_bytes(), tail(&[0x5a]));
    assert_eq!(timeout_script(16, &verifier).to_bytes(), tail(&[0x60]));
    assert_eq!(timeout_script(17, &verifier).to_bytes(), tail(&[0x01, 0x11]));
    assert_eq!(timeout_script(127, &verifier).to_bytes(), tail(&[0x01, 0x7f]));
    assert_eq!(timeout_script(128, &verifier).to_bytes(), tail(&[0x02, 0x80, 0x00]));
    assert_eq!(timeout_script(500, &verifier).to_bytes(), tail(&[0x02, 0xf4, 0x01]));
    assert_eq!(timeout_script(0x8000, &verifier).to_bytes(), tail(&[0x03, 0x00, 0x80, 0x00]));
    assert_eq!(
        timeout_script(u32::MAX, &verifier).to_bytes(),
        tail(&[0x05, 0xff, 0xff, 0xff, 0xff, 0x00])
    );
    let built = Builder::new()
        .push_int(800_000)
        .push_opcode(OP_CLTV)
        .push_opcode(OP_DROP)
        .push_key(&outside_key(&verifier_bytes))
        .push_opcode(OP_CHECKSIG)
        .into_script();
    assert_eq!(timeout_script(800_000, &verifier), built);
}

#[test]
fn the_punishment_hashes_the_preimage_before_it_compares() {
    let (verifier, verifier_bytes) = key(2);
    let hash = digest(b"two labels of one wire");
    let mut expected = vec![0xa8, 0x20];
    expected.extend(hash);
    expected.extend([0x88, 0x21]);
    expected.extend(verifier_bytes);
    expected.push(0xac);
    assert_eq!(punishment_script(&hash, &verifier).to_bytes(), expected);
}

#[test]
fn the_refund_waits_for_its_delay() {
    let (prover, prover_bytes) = key(1);
    let tail = |prefix: &[u8]| {
        let mut script = prefix.to_vec();
        script.extend([0xb2, 0x75, 0x21]);
        script.extend(prover_bytes);
        script.push(0xac);
        script
    };
    assert_eq!(REFUND_DELAY, 10);
    assert_eq!(refund_script(REFUND_DELAY, &prover).to_bytes(), tail(&[0x5a]));
    assert_eq!(refund_script(144, &prover).to_bytes(), tail(&[0x02, 0x90, 0x00]));
    assert_eq!(refund_script(u16::MAX, &prover).to_bytes(), tail(&[0x03, 0xff, 0xff, 0x00]));
}

#[test]
fn combining_scripts_concatenates_their_bytes() {
    assert_eq!(combine_scripts(&[]), ScriptBuf::new());
    let first = ScriptBuf::from_bytes(vec![1, 2, 3]);
    let second = ScriptBuf::from_bytes(vec![]);
    let third = ScriptBuf::from_bytes(vec![4, 5]);
    assert_eq!(
        combine_scripts(&[first.clone(), second, third.clone()]).to_bytes(),
        vec![1, 2, 3, 4, 5]
    );
    assert_eq!(combine_scripts(&[third, first]).to_bytes(), vec![4, 5, 1, 2, 3]);
}

#[test]
fn the_commitment_script_is_challenges_then_close_then_timeout() {
    let (prover, _) = key(1);
    let (verifier, _) = key(2);
    let labels = [([1u8; 32], [2u8; 32]), ([3u8; 32], [4u8; 32])];
    let mut expected = challenge_script(&[1; 32], &[2; 32]).to_bytes();
    expected.extend(challenge_script(&[3; 32], &[4; 32]).to_bytes());
    expected.extend(cooperative_script(&prover, &verifier).to_bytes());
    expected.extend(timeout_script(10, &verifier).to_bytes());
    assert_eq!(TIMEOUT_HEIGHT, 10);
    assert_eq!(commit_inputs_script(&labels, prover, verifier).to_bytes(), expected);
    assert_eq!(expected.len(), 2 * 72 + 70 + 38);

    let mut without = cooperative_script(&prover, &verifier).to_bytes();
    without.extend(timeout_script(10, &verifier).to_bytes());
    assert_eq!(commit_inputs_script(&[], prover, verifier).to_bytes(), without);
}

#[test]
fn a_revealed_label_opens_the_commitment_it_was_hashed_for() {
    let zero = [0x5au8; 32];
    let one = [0xa5u8; 32];
    let commitment = (digest(&zero), digest(&one));
    assert_eq!(reveal_opens(&commitment, &zero), Some(false));
    assert_eq!(reveal_opens(&commitment, &one), Some(true));
    assert_eq!(reveal_opens(&commitment, &[0u8; 32]), None);
    assert_eq!(reveal_opens(&commitment, &commitment.0), None);
    assert_eq!(reveal_opens(&commitment, &[]), None);
    assert_eq!(reveal_opens(&commitment, &zero[..31]), None);
}

#[test]
fn the_first_commitment_is_tried_first() {
    let label = [0x33u8; 32];
    let both = (digest(&label), digest(&label));
    assert_eq!(reveal_opens(&both, &label), Some(false));
    let swapped = (digest(&[0xa5u8; 32]), digest(&label));
    assert_eq!(reveal_opens(&swapped, &label), Some(true));
}

#[test]
fn each_spend_path_has_the_script_of_its_fragment() {
    let (prover, _) = key(1);
    let (verifier, _) = key(2);
    let hash = digest(b"evidence");
    let policy = SpendPolicy {
        labels: vec![([1u8; 32], [2u8; 32]), ([3u8; 32], [4u8; 32])],
        prover_pk: prover,
        verifier_pk: verifier,
        timeout_height: 700,
        punishment_hash: hash,
        refund_delay: 36,
    };
    assert_eq!(
        policy.leaf_script(SpendPath::Cooperative),
        Some(cooperative_script(&prover, &verifier))
    );
    assert_eq!(
        policy.leaf_script(SpendPath::Dispute { wire_index: 0 }),
        Some(challenge_script(&[1; 32], &[2; 32]))
    );
    assert_eq!(
        policy.leaf_script(SpendPath::Dispute { wire_index: 1 }),
        Some(challenge_script(&[3; 32], &[4; 32]))
    );
    assert_eq!(policy.leaf_script(SpendPath::Dispute { wire_index: 2 }), None);
    assert_eq!(policy.leaf_script(SpendPath::Timeout), Some(timeout_script(700, &verifier)));
    assert_eq!(policy.leaf_script(SpendPath::Punishment), Some(punishment_script(&hash, &verifier)));
    assert_eq!(policy.leaf_script(SpendPath::Refund), Some(refund_script(36, &prover)));
}
