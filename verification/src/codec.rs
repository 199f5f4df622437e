//! Big-endian numbers in byte strings.

use vstd::prelude::*;

verus! {

/// A number as so many bytes, the highest first.
pub open spec fn be(value: nat, width: nat) -> Seq<u8>
    decreases width,
{
    if width == 0 {
        Seq::empty()
    } else {
        be(value / 256, (width - 1) as nat).push((value % 256) as u8)
    }
}

/// The number that bytes spell out, the highest first.
pub open spec fn be_value(bytes: Seq<u8>) -> nat
    decreases bytes.len(),
{
    if bytes.len() == 0 {
        0
    } else {
        be_value(bytes.drop_last()) * 256 + bytes.last() as nat
    }
}

/// How many numbers so many bytes can spell out.
pub open spec fn pow256(width: nat) -> nat
    decreases width,
{
    if width == 0 {
        1
    } else {
        pow256((width - 1) as nat) * 256
    }
}

/// A number has as many bytes as it was given.
pub proof fn lemma_be_len(value: nat, width: nat)
    ensures
        be(value, width).len() == width,
    decreases width,
{
    if width > 0 {
        lemma_be_len(value / 256, (width - 1) as nat);
    }
}

/// Reading gives back the number that was written, where it fits.
pub proof fn lemma_be_round_trip(value: nat, width: nat)
    requires
        value < pow256(width),
    ensures
        be_value(be(value, width)) == value,
    decreases width,
{
    if width > 0 {
        let rest = (width - 1) as nat;
        assert(value / 256 < pow256(rest)) by (nonlinear_arith)
            requires
                value < pow256(width),
                pow256(width) == pow256(rest) * 256,
        ;
        lemma_be_round_trip(value / 256, rest);
        let all = be(value, width);
        assert(all.drop_last() =~= be(value / 256, rest));
        assert(all.last() == (value % 256) as u8);
    }
}

/// Bytes spell out a number that fits, and writing it gives the same bytes.
pub proof fn lemma_be_of_value(bytes: Seq<u8>)
    ensures
        be_value(bytes) < pow256(bytes.len()),
        be(be_value(bytes), bytes.len()) == bytes,
    decreases bytes.len(),
{
    if bytes.len() > 0 {
        let head = bytes.drop_last();
        lemma_be_of_value(head);
        let value = be_value(bytes);
        assert(value == be_value(head) * 256 + bytes.last() as nat);
        assert(value / 256 == be_value(head) && value % 256 == bytes.last() as nat);
        assert(head.len() == (bytes.len() - 1) as nat);
        assert(be(value, bytes.len()) =~= head.push(bytes.last()));
        assert(head.push(bytes.last()) =~= bytes);
    } else {
        assert(be(be_value(bytes), bytes.len()) =~= bytes);
    }
}

/// Eight bytes spell out exactly the numbers of 64 bits, and two those of 16 bits.
pub proof fn lemma_pow256_values()
    ensures
        pow256(8) == u64::MAX + 1,
        pow256(2) == 65536,
{
    assert(pow256(0) == 1);
    assert(pow256(1) == 256);
    assert(pow256(2) == 65536);
    assert(pow256(3) == 16777216);
    assert(pow256(4) == 4294967296);
    assert(pow256(5) == 1099511627776);
    assert(pow256(6) == 281474976710656);
    assert(pow256(7) == 72057594037927936);
    assert(pow256(8) == 18446744073709551616);
}

/// Writes a number as so many bytes, the highest first.
pub fn be_bytes(value: u64, width: usize) -> (bytes: Vec<u8>)
    ensures
        bytes@ == be(value as nat, width as nat),
    decreases width,
{
    if width == 0 {
        return Vec::new();
    }
    let mut bytes = be_bytes(value / 256, width - 1);
    bytes.push((value % 256) as u8);
    bytes
}

/// Appends a number as so many bytes, the highest first.
pub fn push_be(out: &mut Vec<u8>, value: u64, width: usize)
    ensures
        final(out)@ == old(out)@ + be(value as nat, width as nat),
{
    let bytes = be_bytes(value, width);
    out.extend_from_slice(bytes.as_slice());
    assert(out@ =~= old(out)@ + be(value as nat, width as nat));
}

proof fn lemma_pow256_grows(low: nat, high: nat)
    requires
        low <= high,
    ensures
        pow256(low) <= pow256(high),
    decreases high - low,
{
    if low < high {
        lemma_pow256_grows(low, (high - 1) as nat);
    }
}

/// Reads a number of at most eight bytes, the highest first.
pub fn read_be(bytes: &[u8], start: usize, width: usize) -> (value: u64)
    requires
        start + width <= bytes@.len(),
        width <= 8,
    ensures
        value == be_value(bytes@.subrange(start as int, start + width)),
{
    let length: usize = bytes.len();
    let mut value: u64 = 0;
    let mut i: usize = 0;
    proof {
        assert(bytes@.subrange(start as int, start as int) =~= Seq::<u8>::empty());
    }
    while i < width
        invariant
            i <= width <= 8,
            length == bytes@.len(),
            start + width <= length,
            value == be_value(bytes@.subrange(start as int, start + i)),
        decreases width - i,
    {
        let ghost head = bytes@.subrange(start as int, start + i);
        let ghost longer = bytes@.subrange(start as int, start + i + 1);
        proof {
            lemma_be_of_value(longer);
            lemma_pow256_values();
            lemma_pow256_grows((i + 1) as nat, 8);
            assert(longer.drop_last() =~= head);
            assert(longer.last() == bytes@[start + i]);
        }
        value = value * 256 + bytes[start + i] as u64;
        i = i + 1;
    }
    value
}

} // verus!
