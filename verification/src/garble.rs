//! Garbling one gate and evaluating it: wire labels, their select bits, and
//! the table of four masked output labels.
//!
//! Each wire has a label for 0 and a label for 1, whose select bits (the low
//! bit of the first byte) differ. The contributor masks the output label of
//! each of the four input combinations with a pad derived from the two input
//! labels, and orders the rows by the select bits of those labels. The
//! evaluator holds one label of each input wire, finds its row by their
//! select bits, and unmasks the one output label that belongs to it.

use crate::hashing::{sha256, sha256_digest};
use crate::wire_format::{le_bytes, put_bytes, put_u32, take_label, Label};
use vstd::prelude::*;

verus! {

/// The two labels of a wire.
#[derive(Clone, Copy, Debug)]
pub struct LabelPair {
    /// The label that stands for 0.
    pub zero: Label,
    /// The label that stands for 1.
    pub one: Label,
}

/// The two labels of a wire, as byte strings.
pub ghost struct Pair {
    pub zero: Seq<u8>,
    pub one: Seq<u8>,
}

impl View for LabelPair {
    type V = Pair;

    open spec fn view(&self) -> Pair {
        Pair { zero: self.zero@, one: self.one@ }
    }
}

impl Pair {
    /// The label that stands for `bit`.
    pub open spec fn pick(self, bit: bool) -> Seq<u8> {
        if bit {
            self.one
        } else {
            self.zero
        }
    }

    /// Both labels have 32 bytes, and their select bits differ.
    pub open spec fn wf(self) -> bool {
        self.zero.len() == 32 && self.one.len() == 32 && select_bit(self.zero) != select_bit(
            self.one,
        )
    }
}

impl LabelPair {
    /// The label that stands for `bit`.
    pub fn pick(&self, bit: bool) -> (label: Label)
        ensures
            label@ == self@.pick(bit),
    {
        if bit {
            self.one
        } else {
            self.zero
        }
    }
}

/// The select bit of a label: the low bit of its first byte.
pub open spec fn select_bit(label: Seq<u8>) -> bool {
    label[0] % 2 == 1
}

/// The select bit of a label.
pub fn select(label: &Label) -> (bit: bool)
    ensures
        bit == select_bit(label@),
{
    label[0] % 2 == 1
}

/// A byte with its low bit replaced by `bit`.
pub open spec fn with_low_bit(byte: u8, bit: bool) -> u8 {
    (byte - byte % 2 + if bit { 1int } else { 0int }) as u8
}

/// The bytewise exclusive or of two strings of one length.
pub open spec fn mask(a: Seq<u8>, b: Seq<u8>) -> Seq<u8> {
    Seq::new(a.len(), |i: int| a[i] ^ b[i])
}

/// Masking twice with the same string gives the first string back.
pub proof fn lemma_mask_twice(a: Seq<u8>, b: Seq<u8>)
    ensures
        mask(mask(a, b), b) == a,
{
    assert forall|i: int| 0 <= i < a.len() implies (#[trigger] a[i] ^ b[i]) ^ b[i] == a[i] by {
        let x = a[i];
        let y = b[i];
        assert((x ^ y) ^ y == x) by (bit_vector);
    }
    assert(mask(mask(a, b), b) =~= a);
}

/// The bytewise exclusive or of two labels.
pub fn masked(a: &Label, b: &Label) -> (out: Label)
    ensures
        out@ == mask(a@, b@),
{
    let mut out: Label = [0u8; 32];
    let mut i: usize = 0;
    while i < 32
        invariant
            i <= 32,
            forall|k: int| 0 <= k < i ==> out@[k] == a@[k] ^ b@[k],
        decreases 32 - i,
    {
        out[i] = a[i] ^ b[i];
        i += 1;
    }
    assert(out@ =~= mask(a@, b@));
    out
}

/// The pad of a gate for one combination of input labels: the digest of the
/// two labels and the index of its gate.
pub open spec fn gate_pad(left: Seq<u8>, right: Seq<u8>, gate: u32) -> Seq<u8> {
    sha256_digest(left + right + le_bytes(gate))
}

/// Computes the pad of gate `gate` for the input labels `left` and `right`.
pub fn pad(left: &Label, right: &Label, gate: u32) -> (out: Label)
    ensures
        out@ == gate_pad(left@, right@, gate),
{
    let mut material: Vec<u8> = Vec::new();
    put_bytes(&mut material, left.as_slice());
    put_bytes(&mut material, right.as_slice());
    put_u32(&mut material, gate);
    assert(material@ =~= left@ + right@ + le_bytes(gate));
    sha256(material.as_slice())
}

/// What a gate computes: the conjunction of its inputs, negated for a NAND.
pub open spec fn gate_output(negate: bool, x: bool, y: bool) -> bool {
    (x && y) != negate
}

/// Row `row` of the garbled table of a gate. The row stands for the input
/// labels whose select bits are the two bits of `row`, and holds the output
/// label for the bits that those labels stand for, masked by their pad.
pub open spec fn garbled_row(
    left: Pair,
    right: Pair,
    out: Pair,
    negate: bool,
    gate: u32,
    row: int,
) -> Seq<u8> {
    let x = (row / 2 == 1) != select_bit(left.zero);
    let y = (row % 2 == 1) != select_bit(right.zero);
    mask(out.pick(gate_output(negate, x, y)), gate_pad(left.pick(x), right.pick(y), gate))
}

/// The garbled table of a gate: its four rows.
pub open spec fn garbled_table(left: Pair, right: Pair, out: Pair, negate: bool, gate: u32) -> Seq<
    u8,
> {
    garbled_row(left, right, out, negate, gate, 0) + garbled_row(left, right, out, negate, gate, 1)
        + garbled_row(left, right, out, negate, gate, 2) + garbled_row(
        left,
        right,
        out,
        negate,
        gate,
        3,
    )
}

/// The row that belongs to two input labels.
pub open spec fn row_of(left: Seq<u8>, right: Seq<u8>) -> int {
    (if select_bit(left) { 2int } else { 0int }) + (if select_bit(right) { 1int } else { 0int })
}

/// What the evaluator reads from a table with the input labels it holds.
pub open spec fn unmasked(table: Seq<u8>, left: Seq<u8>, right: Seq<u8>, gate: u32) -> Seq<u8> {
    mask(
        table.subrange(32 * row_of(left, right), 32 * row_of(left, right) + 32),
        gate_pad(left, right, gate),
    )
}

/// A garbled table has 128 bytes.
pub proof fn lemma_table_len(left: Pair, right: Pair, out: Pair, negate: bool, gate: u32)
    requires
        out.wf(),
    ensures
        garbled_table(left, right, out, negate, gate).len() == 128,
{
}

/// Garbling is correct: with the labels of the bits `x` and `y`, the
/// evaluator reads the output label of the bit that such a gate computes.
pub proof fn lemma_garbling_correct(
    left: Pair,
    right: Pair,
    out: Pair,
    negate: bool,
    gate: u32,
    x: bool,
    y: bool,
)
    requires
        left.wf(),
        right.wf(),
        out.wf(),
    ensures
        unmasked(garbled_table(left, right, out, negate, gate), left.pick(x), right.pick(y), gate)
            == out.pick(gate_output(negate, x, y)),
{
    let table = garbled_table(left, right, out, negate, gate);
    let row = row_of(left.pick(x), right.pick(y));
    let pad = gate_pad(left.pick(x), right.pick(y), gate);
    let label = out.pick(gate_output(negate, x, y));
    assert(garbled_row(left, right, out, negate, gate, row) == mask(label, pad));
    assert(table.subrange(32 * row, 32 * row + 32) =~= garbled_row(
        left,
        right,
        out,
        negate,
        gate,
        row,
    ));
    lemma_mask_twice(label, pad);
}

/// Appends the garbled table of a gate to `message`.
pub fn garble(
    left: &LabelPair,
    right: &LabelPair,
    out: &LabelPair,
    negate: bool,
    gate: u32,
    message: &mut Vec<u8>,
)
    ensures
        final(message)@ == old(message)@ + garbled_table(left@, right@, out@, negate, gate),
{
    let mut row: u8 = 0;
    let ghost mut written: Seq<u8> = Seq::empty();
    while row < 4
        invariant
            row <= 4,
            message@ == old(message)@ + written,
            written == if row == 0 {
                Seq::<u8>::empty()
            } else if row == 1 {
                garbled_row(left@, right@, out@, negate, gate, 0)
            } else if row == 2 {
                garbled_row(left@, right@, out@, negate, gate, 0) + garbled_row(
                    left@,
                    right@,
                    out@,
                    negate,
                    gate,
                    1,
                )
            } else if row == 3 {
                garbled_row(left@, right@, out@, negate, gate, 0) + garbled_row(
                    left@,
                    right@,
                    out@,
                    negate,
                    gate,
                    1,
                ) + garbled_row(left@, right@, out@, negate, gate, 2)
            } else {
                garbled_table(left@, right@, out@, negate, gate)
            },
        decreases 4 - row,
    {
        let x = (row / 2 == 1) != select(&left.zero);
        let y = (row % 2 == 1) != select(&right.zero);
        let key = pad(&left.pick(x), &right.pick(y), gate);
        let cell = masked(&out.pick((x && y) != negate), &key);
        put_bytes(message, cell.as_slice());
        proof {
            let added = garbled_row(left@, right@, out@, negate, gate, row as int);
            assert(cell@ == added);
            assert(old(message)@ + written + added =~= old(message)@ + (written + added));
            written = written + added;
        }
        row += 1;
    }
}

/// Reads the output label of a gate from the table that starts at `at` in
/// `message`, with the labels held of its two inputs.
pub fn evaluate(message: &[u8], at: usize, left: &Label, right: &Label, gate: u32) -> (out: Label)
    requires
        at + 128 <= message@.len(),
    ensures
        out@ == unmasked(message@.subrange(at as int, at + 128), left@, right@, gate),
{
    let row: usize = (if select(left) { 2usize } else { 0usize }) + (if select(right) {
        1usize
    } else {
        0usize
    });
    let len = message.len();
    assert(at + 32 * row + 32 <= len);
    let cell = take_label(message, at + 32 * row);
    let key = pad(left, right, gate);
    assert(message@.subrange(at + 32 * row, at + 32 * row + 32) =~= message@.subrange(
        at as int,
        at + 128,
    ).subrange(32 * row, 32 * row + 32));
    masked(&cell, &key)
}

} // verus!
