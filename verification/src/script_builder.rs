//! The byte layout of script pushes, and the script builder of the `bitcoin`
//! crate that writes it.
//!
//! The builder and the finished script are values of the `bitcoin` crate. The
//! functions below that touch them are not verified: each states what the
//! crate's method does to the bytes of the script.

use bitcoin::blockdata::opcodes::Opcode;
use bitcoin::blockdata::script::{Builder, PushBytes, ScriptBuf};
use vstd::prelude::*;

verus! {

/// The script builder of the `bitcoin` crate.
#[verifier::external_type_specification]
#[verifier::external_body]
pub struct ExBuilder(Builder);

/// The owned script of the `bitcoin` crate.
#[verifier::external_type_specification]
#[verifier::external_body]
pub struct ExScriptBuf(ScriptBuf);

/// The bytes of the script that a builder has written so far.
pub uninterp spec fn builder_bytes(builder: Builder) -> Seq<u8>;

/// The bytes of a finished script.
pub uninterp spec fn script_bytes(script: ScriptBuf) -> Seq<u8>;

/// The opcode bytes that announce a data push of `len` bytes: the length
/// itself below 76, else a marker and the length in 1, 2 or 4 bytes, low byte
/// first.
pub open spec fn push_prefix(len: nat) -> Seq<u8> {
    if len < 0x4c {
        seq![len as u8]
    } else if len < 0x100 {
        seq![0x4cu8, len as u8]
    } else if len < 0x1_0000 {
        seq![0x4du8, (len % 0x100) as u8, (len / 0x100) as u8]
    } else {
        seq![
            0x4eu8,
            (len % 0x100) as u8,
            ((len / 0x100) % 0x100) as u8,
            ((len / 0x1_0000) % 0x100) as u8,
            (len / 0x100_0000) as u8,
        ]
    }
}

/// The script bytes that push `data` onto the stack.
pub open spec fn data_push(data: Seq<u8>) -> Seq<u8> {
    push_prefix(data.len()) + data
}

/// The bytes of a positive magnitude in base 256, low byte first, with no
/// leading zero byte.
pub open spec fn magnitude_bytes(m: nat) -> Seq<u8>
    decreases m,
{
    if m <= 0xff {
        seq![m as u8]
    } else {
        seq![(m % 0x100) as u8] + magnitude_bytes(m / 0x100)
    }
}

/// A number as a script number: its magnitude, low byte first, with the sign
/// in the top bit of the last byte. Where the magnitude already uses that
/// bit, one more byte carries the sign. Zero is the empty string.
pub open spec fn script_number(n: int) -> Seq<u8> {
    if n == 0 {
        Seq::empty()
    } else {
        let magnitude = magnitude_bytes((if n < 0 { -n } else { n }) as nat);
        let sign: u8 = if n < 0 { 0x80 } else { 0 };
        if magnitude.last() >= 0x80 {
            magnitude.push(sign)
        } else {
            magnitude.drop_last().push((magnitude.last() + sign) as u8)
        }
    }
}

/// The script bytes that push the number `n`: a single opcode for -1 and for
/// 0 to 16, else a data push of the script number.
pub open spec fn number_push(n: int) -> Seq<u8> {
    if n == -1 || 1 <= n <= 16 {
        seq![(n + 0x50) as u8]
    } else if n == 0 {
        seq![0u8]
    } else {
        data_push(script_number(n))
    }
}

/// `Builder::new`: a builder that holds the empty script.
#[verifier::external_body]
pub(crate) fn builder_new() -> (builder: Builder)
    ensures
        builder_bytes(builder) == Seq::<u8>::empty(),
{
    Builder::new()
}

/// `Builder::push_opcode`, on the opcode with byte `code`: that one byte is
/// appended to the script.
#[verifier::external_body]
pub(crate) fn push_opcode(builder: Builder, code: u8) -> (next: Builder)
    ensures
        builder_bytes(next) == builder_bytes(builder).push(code),
{
    builder.push_opcode(Opcode::from(code))
}

/// `Builder::push_slice`: the push prefix for the length of `data`, then
/// `data` itself, are appended. The crate refuses a push of 2^32 bytes or
/// more, so such data is left out.
#[verifier::external_body]
pub(crate) fn push_slice(builder: Builder, data: &[u8]) -> (next: Builder)
    requires
        data@.len() < 0x1_0000_0000,
    ensures
        builder_bytes(next) == builder_bytes(builder) + data_push(data@),
{
    let bytes: &PushBytes = data.try_into().unwrap();
    builder.push_slice(bytes)
}

/// `Builder::push_int`: the push of the number `n` is appended. The smallest
/// `i64` is left out: its script number does not fit the crate's buffer.
#[verifier::external_body]
pub(crate) fn push_int(builder: Builder, n: i64) -> (next: Builder)
    requires
        n > i64::MIN,
    ensures
        builder_bytes(next) == builder_bytes(builder) + number_push(n as int),
{
    builder.push_int(n)
}

/// `Builder::into_script`: the finished script holds the bytes written.
#[verifier::external_body]
pub(crate) fn into_script(builder: Builder) -> (script: ScriptBuf)
    ensures
        script_bytes(script) == builder_bytes(builder),
{
    builder.into_script()
}

/// `Script::to_bytes`: a copy of the script's bytes.
#[verifier::external_body]
pub(crate) fn script_to_bytes(script: &ScriptBuf) -> (bytes: Vec<u8>)
    ensures
        bytes@ == script_bytes(*script),
{
    script.to_bytes()
}

/// `ScriptBuf::from_bytes`: the script that holds exactly `bytes`.
#[verifier::external_body]
pub(crate) fn script_from_bytes(bytes: Vec<u8>) -> (script: ScriptBuf)
    ensures
        script_bytes(script) == bytes@,
{
    ScriptBuf::from_bytes(bytes)
}

} // verus!
