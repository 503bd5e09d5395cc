//! Big-endian encoding of `u64` values inside byte buffers.
use vstd::prelude::*;

verus! {

/// The eight big-endian bytes of `v`, most significant first.
pub open spec fn u64_to_be(v: u64) -> Seq<u8> {
    seq![
        (v >> 56u64) as u8,
        (v >> 48u64) as u8,
        (v >> 40u64) as u8,
        (v >> 32u64) as u8,
        (v >> 24u64) as u8,
        (v >> 16u64) as u8,
        (v >> 8u64) as u8,
        v as u8,
    ]
}

/// The value of eight bytes read in big-endian order.
pub open spec fn be_bytes_value(b0: u8, b1: u8, b2: u8, b3: u8, b4: u8, b5: u8, b6: u8, b7: u8) -> u64 {
    ((b0 as u64) << 56u64) | ((b1 as u64) << 48u64) | ((b2 as u64) << 40u64) | ((b3 as u64) << 32u64)
        | ((b4 as u64) << 24u64) | ((b5 as u64) << 16u64) | ((b6 as u64) << 8u64) | (b7 as u64)
}

/// The value of the eight bytes of `s` that start at `off`, read in big-endian order.
pub open spec fn be_to_u64(s: Seq<u8>, off: int) -> u64 {
    be_bytes_value(s[off], s[off + 1], s[off + 2], s[off + 3], s[off + 4], s[off + 5], s[off + 6], s[off + 7])
}

/// Decoding the encoding of a value gives the value back.
pub proof fn lemma_be_decode_encode(v: u64)
    ensures
        be_to_u64(u64_to_be(v), 0) == v,
{
    assert(be_bytes_value(
        (v >> 56u64) as u8,
        (v >> 48u64) as u8,
        (v >> 40u64) as u8,
        (v >> 32u64) as u8,
        (v >> 24u64) as u8,
        (v >> 16u64) as u8,
        (v >> 8u64) as u8,
        v as u8,
    ) == v) by (bit_vector);
}

/// Encoding a decoded value gives the bytes back.
pub proof fn lemma_be_encode_decode(s: Seq<u8>, off: int)
    requires
        0 <= off,
        off + 8 <= s.len(),
    ensures
        u64_to_be(be_to_u64(s, off)) == s.subrange(off, off + 8),
{
    let b0 = s[off];
    let b1 = s[off + 1];
    let b2 = s[off + 2];
    let b3 = s[off + 3];
    let b4 = s[off + 4];
    let b5 = s[off + 5];
    let b6 = s[off + 6];
    let b7 = s[off + 7];
    let v = be_bytes_value(b0, b1, b2, b3, b4, b5, b6, b7);
    assert(
        (v >> 56u64) as u8 == b0 && (v >> 48u64) as u8 == b1 && (v >> 40u64) as u8 == b2
        && (v >> 32u64) as u8 == b3 && (v >> 24u64) as u8 == b4 && (v >> 16u64) as u8 == b5
        && (v >> 8u64) as u8 == b6 && v as u8 == b7
    ) by (bit_vector)
        requires
            v == be_bytes_value(b0, b1, b2, b3, b4, b5, b6, b7),
    ;
    assert(u64_to_be(v) =~= s.subrange(off, off + 8));
}

/// Reads the big-endian `u64` stored at `buf[off..off + 8]`.
pub fn read_u64(buf: &[u8], off: usize) -> (v: u64)
    requires
        off + 8 <= buf@.len(),
    ensures
        v == be_to_u64(buf@, off as int),
{
    let b0 = buf[off];
    let b1 = buf[off + 1];
    let b2 = buf[off + 2];
    let b3 = buf[off + 3];
    let b4 = buf[off + 4];
    let b5 = buf[off + 5];
    let b6 = buf[off + 6];
    let b7 = buf[off + 7];
    ((b0 as u64) << 56u64) | ((b1 as u64) << 48u64) | ((b2 as u64) << 40u64) | ((b3 as u64) << 32u64)
        | ((b4 as u64) << 24u64) | ((b5 as u64) << 16u64) | ((b6 as u64) << 8u64) | (b7 as u64)
}

/// Writes `v` in big-endian order into `buf[off..off + 8]`, leaving the other bytes unchanged.
pub fn write_u64(buf: &mut Vec<u8>, off: usize, v: u64)
    requires
        off + 8 <= old(buf)@.len(),
    ensures
        final(buf)@.len() == old(buf)@.len(),
        final(buf)@.subrange(off as int, off + 8) == u64_to_be(v),
        forall|i: int| 0 <= i < old(buf)@.len() && !(off <= i < off + 8) ==> final(buf)@[i] == old(buf)@[i],
        final(buf)@ == old(buf)@.subrange(0, off as int) + u64_to_be(v) + old(buf)@.subrange(off + 8, old(buf)@.len() as int),
{
    let len = buf.len();
    assert(off + 8 <= len);
    buf.set(off, (v >> 56u64) as u8);
    buf.set(off + 1, (v >> 48u64) as u8);
    buf.set(off + 2, (v >> 40u64) as u8);
    buf.set(off + 3, (v >> 32u64) as u8);
    buf.set(off + 4, (v >> 24u64) as u8);
    buf.set(off + 5, (v >> 16u64) as u8);
    buf.set(off + 6, (v >> 8u64) as u8);
    buf.set(off + 7, v as u8);
    assert(buf@.subrange(off as int, off + 8) =~= u64_to_be(v));
    assert(buf@ =~= old(buf)@.subrange(0, off as int) + u64_to_be(v) + old(buf)@.subrange(off + 8, old(buf)@.len() as int));
}

} // verus!
