//! Reading and writing the byte strings that the two parties exchange.

use vstd::prelude::*;

verus! {

/// A wire label: 32 bytes that stand for one of the two bits of a wire.
pub type Label = [u8; 32];

/// The four bytes of `x`, low byte first.
pub open spec fn le_bytes(x: u32) -> Seq<u8> {
    seq![
        (x % 0x100) as u8,
        (x / 0x100 % 0x100) as u8,
        (x / 0x1_0000 % 0x100) as u8,
        (x / 0x100_0000) as u8,
    ]
}

/// Appends the four bytes of `x`.
pub fn put_u32(out: &mut Vec<u8>, x: u32)
    ensures
        final(out)@ == old(out)@ + le_bytes(x),
{
    out.push((x % 0x100) as u8);
    out.push((x / 0x100 % 0x100) as u8);
    out.push((x / 0x1_0000 % 0x100) as u8);
    out.push((x / 0x100_0000) as u8);
    assert(out@ =~= old(out)@ + le_bytes(x));
}

/// Appends a copy of `data`.
pub fn put_bytes(out: &mut Vec<u8>, data: &[u8])
    ensures
        final(out)@ == old(out)@ + data@,
{
    let mut i: usize = 0;
    while i < data.len()
        invariant
            i <= data@.len(),
            out@ == old(out)@ + data@.take(i as int),
        decreases data@.len() - i,
    {
        out.push(data[i]);
        assert(old(out)@ + data@.take(i as int + 1) =~= (old(out)@ + data@.take(i as int)).push(
            data@[i as int],
        ));
        i += 1;
    }
    assert(data@.take(data@.len() as int) == data@);
}

/// Appends a copy of the `len` bytes of `data` that start at `from`.
pub fn put_range(out: &mut Vec<u8>, data: &[u8], from: usize, len: usize)
    requires
        from + len <= data@.len(),
    ensures
        final(out)@ == old(out)@ + data@.subrange(from as int, from + len),
{
    let n = data.len();
    let mut i: usize = 0;
    while i < len
        invariant
            i <= len,
            n == data@.len(),
            from + len <= n,
            out@ == old(out)@ + data@.subrange(from as int, from + i),
        decreases len - i,
    {
        out.push(data[from + i]);
        assert(old(out)@ + data@.subrange(from as int, from + i + 1) =~= (old(out)@
            + data@.subrange(from as int, from + i)).push(data@[from + i]));
        i += 1;
    }
}

/// Copies the 32 bytes of `data` that start at `at`.
pub fn take_label(data: &[u8], at: usize) -> (label: Label)
    requires
        at + 32 <= data@.len(),
    ensures
        label@ == data@.subrange(at as int, at + 32),
{
    let mut label: Label = [0u8; 32];
    let n = data.len();
    let mut i: usize = 0;
    while i < 32
        invariant
            i <= 32,
            n == data@.len(),
            at + 32 <= data@.len(),
            forall|k: int| 0 <= k < i ==> label@[k] == data@[at + k],
        decreases 32 - i,
    {
        label[i] = data[at + i];
        i += 1;
    }
    assert(label@ =~= data@.subrange(at as int, at + 32));
    label
}

/// Whether the bytes of `data` that start at `at` are those of `expected`.
pub fn bytes_match(data: &[u8], at: usize, expected: &[u8]) -> (same: bool)
    requires
        at + expected@.len() <= data@.len(),
    ensures
        same == (data@.subrange(at as int, at + expected@.len()) == expected@),
{
    let ghost part = data@.subrange(at as int, at + expected@.len());
    let n = data.len();
    let mut i: usize = 0;
    while i < expected.len()
        invariant
            i <= expected@.len(),
            n == data@.len(),
            at + expected@.len() <= data@.len(),
            part == data@.subrange(at as int, at + expected@.len()),
            forall|k: int| 0 <= k < i ==> part[k] == expected@[k],
        decreases expected@.len() - i,
    {
        if data[at + i] != expected[i] {
            assert(part[i as int] != expected@[i as int]);
            return false;
        }
        i += 1;
    }
    assert(part =~= expected@);
    true
}

/// Whether the `len` bytes of `data` from `at` are those of `other` from
/// `from`.
pub fn range_matches(data: &[u8], at: usize, other: &[u8], from: usize, len: usize) -> (same: bool)
    requires
        at + len <= data@.len(),
        from + len <= other@.len(),
    ensures
        same == (data@.subrange(at as int, at + len) == other@.subrange(from as int, from + len)),
{
    let ghost left = data@.subrange(at as int, at + len);
    let ghost right = other@.subrange(from as int, from + len);
    let n = data.len();
    let m = other.len();
    let mut i: usize = 0;
    while i < len
        invariant
            i <= len,
            n == data@.len(),
            m == other@.len(),
            at + len <= n,
            from + len <= m,
            left == data@.subrange(at as int, at + len),
            right == other@.subrange(from as int, from + len),
            forall|k: int| 0 <= k < i ==> left[k] == right[k],
        decreases len - i,
    {
        if data[at + i] != other[from + i] {
            assert(left[i as int] != right[i as int]);
            return false;
        }
        i += 1;
    }
    assert(left =~= right);
    true
}

/// Whether the `len` bytes of `data` from `at` are all zero.
pub fn is_zero_range(data: &[u8], at: usize, len: usize) -> (zero: bool)
    requires
        at + len <= data@.len(),
    ensures
        zero == (data@.subrange(at as int, at + len) == Seq::new(len as nat, |i: int| 0u8)),
{
    let ghost part = data@.subrange(at as int, at + len);
    let n = data.len();
    let mut i: usize = 0;
    while i < len
        invariant
            i <= len,
            n == data@.len(),
            at + len <= n,
            part == data@.subrange(at as int, at + len),
            forall|k: int| 0 <= k < i ==> part[k] == 0,
        decreases len - i,
    {
        if data[at + i] != 0 {
            assert(part[i as int] != 0);
            return false;
        }
        i += 1;
    }
    assert(part =~= Seq::new(len as nat, |i: int| 0u8));
    true
}

} // verus!
