//! What each fragment demands of the one who spends through it, proved on
//! the machine model.

use crate::hashing::sha256_digest;
use crate::script::{
    challenge_fragment,
    cooperative_fragment,
    punishment_fragment,
    refund_fragment,
    timeout_fragment,
};
use crate::script_builder::script_number;
use crate::script_model::{bool_item, run, truthy, Machine, Spend};
use vstd::prelude::*;

verus! {

/// The item for `true` counts as true, the item for `false` does not.
pub proof fn lemma_bool_item(b: bool)
    ensures
        truthy(bool_item(b)) == b,
{
    if b {
        assert(bool_item(b)[0] != 0);
    }
}

/// A machine with no conditional open is running, and a stack without the
/// item just pushed is the stack before.
proof fn lemma_start(stack: Seq<Seq<u8>>, a: Seq<u8>, b: Seq<u8>)
    ensures
        Machine::start(stack).running(),
        Machine::start(stack.push(a)).below(1) == stack,
        Machine::start(stack.push(a)).top() == a,
        Machine::start(stack.push(a).push(b)).below(2) == stack,
        Machine::start(stack.push(a).push(b)).below(1) == stack.push(a),
        Machine::start(stack.push(a).push(b)).top() == b,
{
    assert(stack.push(a).take(stack.len() as int) =~= stack);
    assert(stack.push(a).push(b).take(stack.len() as int) =~= stack);
    assert(stack.push(a).push(b).take(stack.len() as int + 1) =~= stack.push(a));
}

/// Revealing a label to the challenge on the commitments `h0` and `h1`: a
/// preimage of `h0` passes and leaves its hash on the stack; any other
/// preimage of `h1` passes and leaves nothing; everything else fails. The
/// first commitment is tried first, so a label that matches both takes the
/// first branch.
pub proof fn law_challenge(
    spend: Spend,
    h0: Seq<u8>,
    h1: Seq<u8>,
    stack: Seq<Seq<u8>>,
    revealed: Seq<u8>,
)
    ensures
        run(spend, challenge_fragment(h0, h1), stack.push(revealed)) == if sha256_digest(revealed)
            == h0 {
            Some(stack.push(h0))
        } else if sha256_digest(revealed) == h1 {
            Some(stack)
        } else {
            None
        },
{
    let f = challenge_fragment(h0, h1);
    let digest = sha256_digest(revealed);
    let matched = bool_item(digest == h0);
    let m0 = Machine::start(stack.push(revealed));
    let m1 = Machine::start(stack.push(digest));
    let m2 = Machine::start(stack.push(digest).push(digest));
    let m3 = Machine::start(stack.push(digest).push(digest).push(h0));
    let m4 = Machine::start(stack.push(digest).push(matched));
    let m5 = Machine { stack: stack.push(digest), branches: seq![digest != h0] };
    lemma_start(stack, revealed, revealed);
    lemma_start(stack, digest, digest);
    lemma_start(stack.push(digest), digest, h0);
    lemma_start(stack.push(digest), matched, matched);
    lemma_start(stack, digest, h1);
    lemma_bool_item(digest == h0);
    assert(m0.step(spend, f[0]) == Some(m1));
    assert(m1.step(spend, f[1]) == Some(m2));
    assert(m2.step(spend, f[2]) == Some(m3));
    assert(m3.step(spend, f[3]) == Some(m4));
    assert(m4.step(spend, f[4]) == Some(m5)) by {
        assert(m4.branches.push(digest != h0) =~= seq![digest != h0]);
    }
    assert(m5.branches.drop_last() =~= Seq::<bool>::empty());
    reveal_with_fuel(Machine::run_from, 9);
    if digest == h0 {
        assert(!m5.branches[0]);
        assert(m5.step(spend, f[5]) == Some(m5));
        assert(m5.step(spend, f[6]) == Some(m5));
        assert(m5.step(spend, f[7]) == Some(m1));
    } else {
        let m6 = Machine { stack: stack.push(digest).push(h1), branches: seq![true] };
        assert(m5.running());
        assert(m5.step(spend, f[5]) == Some(m6));
        assert(m6.running());
        assert(m6.below(2) == stack);
        assert(m6.top() == h1);
        if digest == h1 {
            let m7 = Machine { stack, branches: seq![true] };
            assert(m6.step(spend, f[6]) == Some(m7));
            assert(m7.branches.drop_last() =~= Seq::<bool>::empty());
            assert(m7.step(spend, f[7]) == Some(Machine::start(stack)));
        } else {
            assert(m6.step(spend, f[6]) is None);
        }
    }
}

/// The cooperative close on the stack `.., verifier's signature, prover's
/// signature`: it fails unless the prover's signature is good, and then
/// leaves whether the verifier's is.
pub proof fn law_cooperative(
    spend: Spend,
    prover: Seq<u8>,
    verifier: Seq<u8>,
    stack: Seq<Seq<u8>>,
    verifier_sig: Seq<u8>,
    prover_sig: Seq<u8>,
)
    ensures
        run(spend, cooperative_fragment(prover, verifier), stack.push(verifier_sig).push(prover_sig))
            == if (spend.signed)(prover, prover_sig) {
            Some(stack.push(bool_item((spend.signed)(verifier, verifier_sig))))
        } else {
            None
        },
{
    let f = cooperative_fragment(prover, verifier);
    let m0 = Machine::start(stack.push(verifier_sig).push(prover_sig));
    let m1 = Machine::start(stack.push(verifier_sig).push(prover_sig).push(prover));
    let m2 = Machine::start(stack.push(verifier_sig));
    let m3 = Machine::start(stack.push(verifier_sig).push(verifier));
    let m4 = Machine::start(stack.push(bool_item((spend.signed)(verifier, verifier_sig))));
    lemma_start(stack.push(verifier_sig), prover_sig, prover);
    lemma_start(stack, verifier_sig, verifier);
    reveal_with_fuel(Machine::run_from, 5);
    assert(m0.step(spend, f[0]) == Some(m1));
    if (spend.signed)(prover, prover_sig) {
        assert(m1.step(spend, f[1]) == Some(m2));
        assert(m2.step(spend, f[2]) == Some(m3));
        assert(m3.step(spend, f[3]) == Some(m4));
    } else {
        assert(m1.step(spend, f[1]) is None);
    }
}

/// The timeout on the stack `.., signature`: it fails before the chain has
/// reached `height`, and then leaves whether the verifier's signature is
/// good.
pub proof fn law_timeout(
    spend: Spend,
    height: int,
    verifier: Seq<u8>,
    stack: Seq<Seq<u8>>,
    signature: Seq<u8>,
)
    ensures
        run(spend, timeout_fragment(height, verifier), stack.push(signature)) == if (spend.reached)(
            script_number(height),
        ) {
            Some(stack.push(bool_item((spend.signed)(verifier, signature))))
        } else {
            None
        },
{
    let f = timeout_fragment(height, verifier);
    let m0 = Machine::start(stack.push(signature));
    let m1 = Machine::start(stack.push(signature).push(script_number(height)));
    let m3 = Machine::start(stack.push(signature).push(verifier));
    let m4 = Machine::start(stack.push(bool_item((spend.signed)(verifier, signature))));
    lemma_start(stack, signature, script_number(height));
    lemma_start(stack, signature, verifier);
    reveal_with_fuel(Machine::run_from, 6);
    assert(m0.step(spend, f[0]) == Some(m1));
    if (spend.reached)(script_number(height)) {
        assert(m1.step(spend, f[1]) == Some(m1));
        assert(m1.step(spend, f[2]) == Some(m0));
        assert(m0.step(spend, f[3]) == Some(m3));
        assert(m3.step(spend, f[4]) == Some(m4));
    } else {
        assert(m1.step(spend, f[1]) is None);
    }
}

/// The punishment on the stack `.., signature, preimage`: it fails unless
/// the preimage hashes to the committed `hash`, and then leaves whether the
/// verifier's signature is good.
pub proof fn law_punishment(
    spend: Spend,
    hash: Seq<u8>,
    verifier: Seq<u8>,
    stack: Seq<Seq<u8>>,
    signature: Seq<u8>,
    preimage: Seq<u8>,
)
    ensures
        run(spend, punishment_fragment(hash, verifier), stack.push(signature).push(preimage))
            == if sha256_digest(preimage) == hash {
            Some(stack.push(bool_item((spend.signed)(verifier, signature))))
        } else {
            None
        },
{
    let f = punishment_fragment(hash, verifier);
    let digest = sha256_digest(preimage);
    let m0 = Machine::start(stack.push(signature).push(preimage));
    let m1 = Machine::start(stack.push(signature).push(digest));
    let m2 = Machine::start(stack.push(signature).push(digest).push(hash));
    let m3 = Machine::start(stack.push(signature));
    let m4 = Machine::start(stack.push(signature).push(verifier));
    let m5 = Machine::start(stack.push(bool_item((spend.signed)(verifier, signature))));
    lemma_start(stack, signature, preimage);
    lemma_start(stack.push(signature), digest, hash);
    lemma_start(stack, signature, verifier);
    reveal_with_fuel(Machine::run_from, 6);
    assert(m0.step(spend, f[0]) == Some(m1));
    assert(m1.step(spend, f[1]) == Some(m2));
    if digest == hash {
        assert(m2.step(spend, f[2]) == Some(m3));
        assert(m3.step(spend, f[3]) == Some(m4));
        assert(m4.step(spend, f[4]) == Some(m5));
    } else {
        assert(m2.step(spend, f[2]) is None);
    }
}

/// The refund on the stack `.., signature`: it fails until the output is
/// `delay` blocks old, and then leaves whether the prover's signature is
/// good.
pub proof fn law_refund(
    spend: Spend,
    delay: int,
    prover: Seq<u8>,
    stack: Seq<Seq<u8>>,
    signature: Seq<u8>,
)
    ensures
        run(spend, refund_fragment(delay, prover), stack.push(signature)) == if (spend.aged)(
            script_number(delay),
        ) {
            Some(stack.push(bool_item((spend.signed)(prover, signature))))
        } else {
            None
        },
{
    let f = refund_fragment(delay, prover);
    let m0 = Machine::start(stack.push(signature));
    let m1 = Machine::start(stack.push(signature).push(script_number(delay)));
    let m3 = Machine::start(stack.push(signature).push(prover));
    let m4 = Machine::start(stack.push(bool_item((spend.signed)(prover, signature))));
    lemma_start(stack, signature, script_number(delay));
    lemma_start(stack, signature, prover);
    reveal_with_fuel(Machine::run_from, 6);
    assert(m0.step(spend, f[0]) == Some(m1));
    if (spend.aged)(script_number(delay)) {
        assert(m1.step(spend, f[1]) == Some(m1));
        assert(m1.step(spend, f[2]) == Some(m0));
        assert(m0.step(spend, f[3]) == Some(m3));
        assert(m3.step(spend, f[4]) == Some(m4));
    } else {
        assert(m1.step(spend, f[1]) is None);
    }
}

} // verus!
