//! The script fragments that anchor a computation on chain: the challenge on
//! each committed pair of wire labels, the cooperative close, the verifier's
//! timeout, the punishment and the refund.

use crate::hashing::{sha256, sha256_digest};
use crate::keys::{PublicKey, ScriptBuildError};
use crate::script_builder::{
    builder_bytes,
    builder_new,
    into_script,
    push_int,
    push_opcode,
    push_slice,
    script_bytes,
    script_from_bytes,
    script_to_bytes,
};
use crate::script_model::{
    encode,
    lemma_encode_concat,
    lemma_encode_push,
    Instr,
    OP_CHECKSIG,
    OP_CHECKSIGVERIFY,
    OP_CLTV,
    OP_CSV,
    OP_DROP,
    OP_DUP,
    OP_ENDIF,
    OP_EQUAL,
    OP_EQUALVERIFY,
    OP_NOTIF,
    OP_SHA256,
};
use crate::wire_format::range_matches;
use bitcoin::blockdata::script::{Builder, ScriptBuf};
use vstd::prelude::*;

verus! {

/// The block height after which the verifier may spend alone.
pub const TIMEOUT_HEIGHT: u32 = 10;

/// The number of blocks after which the prover may take the refund.
pub const REFUND_DELAY: u16 = 10;

/// The hash commitments to the two labels of one input wire: first the
/// label for 0, then the label for 1.
pub type LabelCommitment = ([u8; 32], [u8; 32]);

/// The challenge on one pair of commitments: hash the revealed label; be
/// content if it is the first commitment, else insist on the second.
pub open spec fn challenge_fragment(h0: Seq<u8>, h1: Seq<u8>) -> Seq<Instr> {
    seq![
        Instr::Op(OP_SHA256),
        Instr::Op(OP_DUP),
        Instr::Push(h0),
        Instr::Op(OP_EQUAL),
        Instr::Op(OP_NOTIF),
        Instr::Push(h1),
        Instr::Op(OP_EQUALVERIFY),
        Instr::Op(OP_ENDIF),
    ]
}

/// The cooperative close: a signature of the prover, then one of the
/// verifier.
pub open spec fn cooperative_fragment(prover: Seq<u8>, verifier: Seq<u8>) -> Seq<Instr> {
    seq![
        Instr::Push(prover),
        Instr::Op(OP_CHECKSIGVERIFY),
        Instr::Push(verifier),
        Instr::Op(OP_CHECKSIG),
    ]
}

/// The timeout: once the chain has reached `height`, the verifier's
/// signature is enough.
pub open spec fn timeout_fragment(height: int, verifier: Seq<u8>) -> Seq<Instr> {
    seq![
        Instr::Number(height),
        Instr::Op(OP_CLTV),
        Instr::Op(OP_DROP),
        Instr::Push(verifier),
        Instr::Op(OP_CHECKSIG),
    ]
}

/// The punishment: the preimage of `hash`, and the verifier's signature.
pub open spec fn punishment_fragment(hash: Seq<u8>, verifier: Seq<u8>) -> Seq<Instr> {
    seq![
        Instr::Op(OP_SHA256),
        Instr::Push(hash),
        Instr::Op(OP_EQUALVERIFY),
        Instr::Push(verifier),
        Instr::Op(OP_CHECKSIG),
    ]
}

/// The refund: once the output is `delay` blocks old, the prover's signature
/// is enough.
pub open spec fn refund_fragment(delay: int, prover: Seq<u8>) -> Seq<Instr> {
    seq![
        Instr::Number(delay),
        Instr::Op(OP_CSV),
        Instr::Op(OP_DROP),
        Instr::Push(prover),
        Instr::Op(OP_CHECKSIG),
    ]
}

/// The challenges on a list of commitments, one after the other.
pub open spec fn challenge_fragments(labels: Seq<LabelCommitment>) -> Seq<Instr>
    decreases labels.len(),
{
    if labels.len() == 0 {
        Seq::empty()
    } else {
        challenge_fragments(labels.drop_last()) + challenge_fragment(
            labels.last().0@,
            labels.last().1@,
        )
    }
}

/// The whole commitment script: the challenges, the cooperative close and the
/// timeout, in this order.
pub open spec fn commit_inputs_fragment(
    labels: Seq<LabelCommitment>,
    prover: Seq<u8>,
    verifier: Seq<u8>,
) -> Seq<Instr> {
    challenge_fragments(labels) + cooperative_fragment(prover, verifier) + timeout_fragment(
        TIMEOUT_HEIGHT as int,
        verifier,
    )
}

/// The bytes of a list of scripts, one after the other.
pub open spec fn joined_bytes(fragments: Seq<ScriptBuf>) -> Seq<u8>
    decreases fragments.len(),
{
    if fragments.len() == 0 {
        Seq::empty()
    } else {
        joined_bytes(fragments.drop_last()) + script_bytes(fragments.last())
    }
}

/// Appending a script appends its bytes.
pub proof fn lemma_joined_push(fragments: Seq<ScriptBuf>, script: ScriptBuf)
    ensures
        joined_bytes(fragments.push(script)) == joined_bytes(fragments) + script_bytes(script),
{
    assert(fragments.push(script).drop_last() == fragments);
}

/// A script under construction, with the instructions written so far.
struct Writer {
    builder: Builder,
    written: Ghost<Seq<Instr>>,
}

impl Writer {
    spec fn wf(self) -> bool {
        builder_bytes(self.builder) == encode(self.written@)
    }

    fn new() -> (writer: Writer)
        ensures
            writer.wf(),
            writer.written@ == Seq::<Instr>::empty(),
    {
        Writer { builder: builder_new(), written: Ghost(Seq::empty()) }
    }

    fn op(self, code: u8) -> (next: Writer)
        requires
            self.wf(),
        ensures
            next.wf(),
            next.written@ == self.written@.push(Instr::Op(code)),
    {
        proof {
            lemma_encode_push(self.written@, Instr::Op(code));
            assert(builder_bytes(self.builder).push(code) == builder_bytes(self.builder)
                + seq![code]);
        }
        Writer {
            builder: push_opcode(self.builder, code),
            written: Ghost(self.written@.push(Instr::Op(code))),
        }
    }

    fn data(self, bytes: &[u8]) -> (next: Writer)
        requires
            self.wf(),
            bytes@.len() < 0x1_0000_0000,
        ensures
            next.wf(),
            next.written@ == self.written@.push(Instr::Push(bytes@)),
    {
        proof {
            lemma_encode_push(self.written@, Instr::Push(bytes@));
        }
        Writer {
            builder: push_slice(self.builder, bytes),
            written: Ghost(self.written@.push(Instr::Push(bytes@))),
        }
    }

    fn number(self, n: i64) -> (next: Writer)
        requires
            self.wf(),
            n > i64::MIN,
        ensures
            next.wf(),
            next.written@ == self.written@.push(Instr::Number(n as int)),
    {
        proof {
            lemma_encode_push(self.written@, Instr::Number(n as int));
        }
        Writer {
            builder: push_int(self.builder, n),
            written: Ghost(self.written@.push(Instr::Number(n as int))),
        }
    }

    fn finish(self) -> (script: ScriptBuf)
        requires
            self.wf(),
        ensures
            script_bytes(script) == encode(self.written@),
    {
        into_script(self.builder)
    }
}

/// Builds the challenge on one pair of commitments.
pub fn challenge_script(h0: &[u8; 32], h1: &[u8; 32]) -> (script: ScriptBuf)
    ensures
        script_bytes(script) == encode(challenge_fragment(h0@, h1@)),
{
    let writer = Writer::new().op(OP_SHA256).op(OP_DUP).data(h0.as_slice()).op(OP_EQUAL).op(
        OP_NOTIF,
    ).data(h1.as_slice()).op(OP_EQUALVERIFY).op(OP_ENDIF);
    assert(writer.written@ =~= challenge_fragment(h0@, h1@));
    writer.finish()
}

/// Builds the cooperative close for the two parties.
pub fn cooperative_script(prover_pk: &PublicKey, verifier_pk: &PublicKey) -> (script: ScriptBuf)
    ensures
        script_bytes(script) == encode(cooperative_fragment(prover_pk@, verifier_pk@)),
{
    let prover = prover_pk.serialize();
    let verifier = verifier_pk.serialize();
    let writer = Writer::new().data(prover.as_slice()).op(OP_CHECKSIGVERIFY).data(
        verifier.as_slice(),
    ).op(OP_CHECKSIG);
    assert(writer.written@ =~= cooperative_fragment(prover_pk@, verifier_pk@));
    writer.finish()
}

/// Builds the verifier's timeout at block height `height`.
pub fn timeout_script(height: u32, verifier_pk: &PublicKey) -> (script: ScriptBuf)
    ensures
        script_bytes(script) == encode(timeout_fragment(height as int, verifier_pk@)),
{
    let verifier = verifier_pk.serialize();
    let writer = Writer::new().number(height as i64).op(OP_CLTV).op(OP_DROP).data(
        verifier.as_slice(),
    ).op(OP_CHECKSIG);
    assert(writer.written@ =~= timeout_fragment(height as int, verifier_pk@));
    writer.finish()
}

/// Builds the punishment that the preimage of `hash` unlocks for the
/// verifier.
pub fn punishment_script(hash: &[u8; 32], verifier_pk: &PublicKey) -> (script: ScriptBuf)
    ensures
        script_bytes(script) == encode(punishment_fragment(hash@, verifier_pk@)),
{
    let verifier = verifier_pk.serialize();
    let writer = Writer::new().op(OP_SHA256).data(hash.as_slice()).op(OP_EQUALVERIFY).data(
        verifier.as_slice(),
    ).op(OP_CHECKSIG);
    assert(writer.written@ =~= punishment_fragment(hash@, verifier_pk@));
    writer.finish()
}

/// Builds the prover's refund after `delay` blocks.
pub fn refund_script(delay: u16, prover_pk: &PublicKey) -> (script: ScriptBuf)
    ensures
        script_bytes(script) == encode(refund_fragment(delay as int, prover_pk@)),
{
    let prover = prover_pk.serialize();
    let writer = Writer::new().number(delay as i64).op(OP_CSV).op(OP_DROP).data(
        prover.as_slice(),
    ).op(OP_CHECKSIG);
    assert(writer.written@ =~= refund_fragment(delay as int, prover_pk@));
    writer.finish()
}

/// Combines scripts by concatenating their bytes.
pub fn combine_scripts(fragments: &[ScriptBuf]) -> (combined: ScriptBuf)
    ensures
        script_bytes(combined) == joined_bytes(fragments@),
{
    let mut combined: Vec<u8> = Vec::new();
    let mut i: usize = 0;
    while i < fragments.len()
        invariant
            i <= fragments@.len(),
            combined@ == joined_bytes(fragments@.take(i as int)),
        decreases fragments@.len() - i,
    {
        let mut bytes = script_to_bytes(&fragments[i]);
        combined.append(&mut bytes);
        proof {
            let upto = fragments@.take(i as int + 1);
            assert(upto.drop_last() == fragments@.take(i as int));
            assert(upto.last() == fragments@[i as int]);
        }
        i += 1;
    }
    assert(fragments@.take(fragments@.len() as int) == fragments@);
    script_from_bytes(combined)
}

/// Builds the commitment script: the challenge on each pair of commitments,
/// then the cooperative close, then the verifier's timeout.
pub fn commit_inputs_script(
    labels: &[LabelCommitment],
    prover_pk: PublicKey,
    verifier_pk: PublicKey,
) -> (script: ScriptBuf)
    ensures
        script_bytes(script) == encode(commit_inputs_fragment(labels@, prover_pk@, verifier_pk@)),
{
    let mut commits: Vec<ScriptBuf> = Vec::new();
    let mut i: usize = 0;
    while i < labels.len()
        invariant
            i <= labels@.len(),
            joined_bytes(commits@) == encode(challenge_fragments(labels@.take(i as int))),
        decreases labels@.len() - i,
    {
        let challenge = challenge_script(&labels[i].0, &labels[i].1);
        proof {
            let upto = labels@.take(i as int + 1);
            assert(upto.drop_last() == labels@.take(i as int));
            assert(upto.last() == labels@[i as int]);
            lemma_encode_concat(
                challenge_fragments(labels@.take(i as int)),
                challenge_fragment(labels@[i as int].0@, labels@[i as int].1@),
            );
            lemma_joined_push(commits@, challenge);
        }
        commits.push(challenge);
        i += 1;
    }
    assert(labels@.take(labels@.len() as int) == labels@);
    let signing = cooperative_script(&prover_pk, &verifier_pk);
    let timeout_branch = timeout_script(TIMEOUT_HEIGHT, &verifier_pk);
    proof {
        let challenges = challenge_fragments(labels@);
        let cooperative = cooperative_fragment(prover_pk@, verifier_pk@);
        let timeout = timeout_fragment(TIMEOUT_HEIGHT as int, verifier_pk@);
        lemma_encode_concat(challenges, cooperative);
        lemma_encode_concat(challenges + cooperative, timeout);
        lemma_joined_push(commits@, signing);
        lemma_joined_push(commits@.push(signing), timeout_branch);
    }
    commits.push(signing);
    commits.push(timeout_branch);
    combine_scripts(commits.as_slice())
}

/// Tells which commitment of a pair a revealed label opens: `Some(false)`
/// for the first, the commitment to the label for 0; `Some(true)` for the
/// second, where it does not open the first; `None` where it opens neither.
/// This is the outcome of the challenge on that pair: the first two make it
/// pass, by its first and by its second branch, and the third makes it fail.
pub fn reveal_opens(commitment: &LabelCommitment, revealed: &[u8]) -> (opened: Option<bool>)
    ensures
        opened == if sha256_digest(revealed@) == commitment.0@ {
            Some(false)
        } else if sha256_digest(revealed@) == commitment.1@ {
            Some(true)
        } else {
            None
        },
{
    let digest = sha256(revealed);
    assert(digest@.subrange(0, 32) =~= digest@);
    assert(commitment.0@.subrange(0, 32) =~= commitment.0@);
    assert(commitment.1@.subrange(0, 32) =~= commitment.1@);
    if range_matches(digest.as_slice(), 0, commitment.0.as_slice(), 0, 32) {
        Some(false)
    } else if range_matches(digest.as_slice(), 0, commitment.1.as_slice(), 0, 32) {
        Some(true)
    } else {
        None
    }
}

/// The ways to spend the output that anchors a session. Each is one leaf of
/// the spending policy, with a script of its own.
#[derive(Clone, Copy, Debug, PartialEq, Eq, Structural)]
pub enum SpendPath {
    /// Both parties sign.
    Cooperative,
    /// The prover reveals a label of the input wire with this index among
    /// the committed pairs.
    Dispute { wire_index: usize },
    /// The verifier spends alone after the timeout.
    Timeout,
    /// The verifier shows that the prover equivocated.
    Punishment,
    /// The prover takes the funds back after the delay.
    Refund,
}

/// What the leaves of a spending policy are built from.
pub struct SpendPolicy {
    /// The commitments to the labels of the input wires.
    pub labels: Vec<LabelCommitment>,
    /// The prover's key.
    pub prover_pk: PublicKey,
    /// The verifier's key.
    pub verifier_pk: PublicKey,
    /// The block height after which the verifier may spend alone.
    pub timeout_height: u32,
    /// The hash whose preimage proves equivocation.
    pub punishment_hash: [u8; 32],
    /// The number of blocks after which the prover may take the refund.
    pub refund_delay: u16,
}

impl SpendPolicy {
    /// The fragment of a leaf; `None` for a dispute on a wire that has no
    /// committed pair.
    pub open spec fn leaf_fragment(self, path: SpendPath) -> Option<Seq<Instr>> {
        match path {
            SpendPath::Cooperative => Some(
                cooperative_fragment(self.prover_pk@, self.verifier_pk@),
            ),
            SpendPath::Dispute { wire_index } => if wire_index < self.labels@.len() {
                Some(
                    challenge_fragment(
                        self.labels@[wire_index as int].0@,
                        self.labels@[wire_index as int].1@,
                    ),
                )
            } else {
                None
            },
            SpendPath::Timeout => Some(
                timeout_fragment(self.timeout_height as int, self.verifier_pk@),
            ),
            SpendPath::Punishment => Some(
                punishment_fragment(self.punishment_hash@, self.verifier_pk@),
            ),
            SpendPath::Refund => Some(refund_fragment(self.refund_delay as int, self.prover_pk@)),
        }
    }

    /// Builds the script of one leaf, which holds that leaf's fragment and
    /// nothing of the others.
    pub fn leaf_script(&self, path: SpendPath) -> (leaf: Option<ScriptBuf>)
        ensures
            match self.leaf_fragment(path) {
                Some(fragment) => leaf matches Some(script) && script_bytes(script) == encode(
                    fragment,
                ),
                None => leaf is None,
            },
    {
        match path {
            SpendPath::Cooperative => Some(cooperative_script(&self.prover_pk, &self.verifier_pk)),
            SpendPath::Dispute { wire_index } => {
                if wire_index < self.labels.len() {
                    Some(challenge_script(&self.labels[wire_index].0, &self.labels[wire_index].1))
                } else {
                    None
                }
            },
            SpendPath::Timeout => Some(timeout_script(self.timeout_height, &self.verifier_pk)),
            SpendPath::Punishment => Some(
                punishment_script(&self.punishment_hash, &self.verifier_pk),
            ),
            SpendPath::Refund => Some(refund_script(self.refund_delay, &self.prover_pk)),
        }
    }
}

/// The bytes of the sample preimage: the text `some-secret-y0`.
pub open spec fn sample_preimage_bytes() -> Seq<u8> {
    seq![0x73u8, 0x6f, 0x6d, 0x65, 0x2d, 0x73, 0x65, 0x63, 0x72, 0x65, 0x74, 0x2d, 0x79, 0x30]
}

/// The sample preimage that stands for the evidence of equivocation where
/// the two parties have agreed on none. A deployment builds its punishment
/// with [`punishment_script`], on the hash that it has agreed on.
pub fn sample_preimage() -> (preimage: [u8; 14])
    ensures
        preimage@ == sample_preimage_bytes(),
{
    let preimage: [u8; 14] = [
        0x73, 0x6f, 0x6d, 0x65, 0x2d, 0x73, 0x65, 0x63, 0x72, 0x65, 0x74, 0x2d, 0x79, 0x30,
    ];
    assert(preimage@ =~= sample_preimage_bytes());
    preimage
}

/// Builds the two settlement scripts: the punishment on the hash of the
/// sample preimage, and the refund after [`REFUND_DELAY`] blocks. Both are
/// always built: the keys were judged when they were read.
pub fn commit_output_script(prover_pk: PublicKey, verifier_pk: PublicKey) -> (result: Result<
    (ScriptBuf, ScriptBuf),
    ScriptBuildError,
>)
    ensures
        result matches Ok((punishment, refund)) && script_bytes(punishment) == encode(
            punishment_fragment(sha256_digest(sample_preimage_bytes()), verifier_pk@),
        ) && script_bytes(refund) == encode(refund_fragment(REFUND_DELAY as int, prover_pk@)),
{
    let y0_preimage = sample_preimage();
    let y0_hash = sha256(y0_preimage.as_slice());
    let punishment_script = punishment_script(&y0_hash, &verifier_pk);
    let refund_script = refund_script(REFUND_DELAY, &prover_pk);
    Ok((punishment_script, refund_script))
}

} // verus!
