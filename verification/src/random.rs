//! The pseudorandom stream that a seed determines.

use rand::{RngCore, SeedableRng};
use rand_chacha::ChaCha20Rng;
use vstd::prelude::*;

verus! {

/// The first `len` bytes that the ChaCha20 generator yields from `seed`.
pub uninterp spec fn chacha20_stream(seed: Seq<u8>, len: nat) -> Seq<u8>;

/// `ChaCha20Rng::from_seed`, then `fill_bytes` on a buffer of `len` bytes.
/// This function is not verified: it names the bytes that the generator
/// yields, which depend on the seed and the length alone, and says that the
/// buffer keeps its length.
#[verifier::external_body]
pub(crate) fn keystream(seed: &[u8; 32], len: usize) -> (stream: Vec<u8>)
    ensures
        stream@ == chacha20_stream(seed@, len as nat),
        stream@.len() == len,
{
    let mut rng = ChaCha20Rng::from_seed(*seed);
    let mut stream = vec![0u8; len];
    rng.fill_bytes(&mut stream);
    stream
}

} // verus!
