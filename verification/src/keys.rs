//! Public keys, held by their 33-byte compressed encoding.

use bitcoin::secp256k1::Error as KeyRefusal;
use vstd::prelude::*;

verus! {

/// The error of the `secp256k1` crate, carried through unread.
#[verifier::external_type_specification]
#[verifier::external_body]
pub struct ExKeyRefusal(KeyRefusal);

/// Why a script could not be built.
#[derive(Clone, Copy, Debug, PartialEq, Eq, Structural)]
pub enum ScriptBuildError {
    /// The bytes offered as a public key are not the encoding of a point on
    /// the curve.
    InvalidKey,
}

/// The compressed encoding of the public key that `data` encodes, in either
/// the compressed or the uncompressed form; `None` where `data` encodes no
/// key.
pub uninterp spec fn compressed_key(data: Seq<u8>) -> Option<Seq<u8>>;

/// `secp256k1::PublicKey::from_slice`, then `serialize` on the key it
/// accepted. This function is not verified: it names what the two return.
#[verifier::external_body]
fn parse_key(data: &[u8]) -> (parsed: Result<[u8; 33], KeyRefusal>)
    ensures
        match parsed {
            Ok(bytes) => compressed_key(data@) == Some(bytes@),
            Err(_) => compressed_key(data@) is None,
        },
{
    match bitcoin::secp256k1::PublicKey::from_slice(data) {
        Ok(key) => Ok(key.serialize()),
        Err(refusal) => Err(refusal),
    }
}

/// A public key of one of the two parties.
#[derive(Clone, Copy, Debug)]
pub struct PublicKey {
    bytes: [u8; 33],
}

impl View for PublicKey {
    type V = Seq<u8>;

    closed spec fn view(&self) -> Seq<u8> {
        self.bytes@
    }
}

impl PublicKey {
    /// Reads a public key from its compressed or uncompressed encoding, and
    /// rejects bytes that the signature scheme does not accept as a key.
    pub fn from_slice(data: &[u8]) -> (result: Result<PublicKey, ScriptBuildError>)
        ensures
            match compressed_key(data@) {
                Some(bytes) => result matches Ok(key) && key@ == bytes,
                None => result == Err::<PublicKey, ScriptBuildError>(ScriptBuildError::InvalidKey),
            },
    {
        match parse_key(data) {
            Ok(bytes) => Ok(PublicKey { bytes }),
            Err(_) => Err(ScriptBuildError::InvalidKey),
        }
    }

    /// The 33 bytes of the compressed encoding.
    pub fn serialize(&self) -> (bytes: [u8; 33])
        ensures
            bytes@ == self@,
    {
        self.bytes
    }
}

} // verus!
