//! Little-endian byte encodings and the helpers that append them to a
//! buffer.
use vstd::prelude::*;

verus! {

/// Little-endian bytes of a 16-bit value.
pub open spec fn le16(v: u16) -> Seq<u8> {
    seq![(v % 256) as u8, (v / 256) as u8]
}

/// Little-endian bytes of a 32-bit value.
pub open spec fn le32(v: u32) -> Seq<u8> {
    seq![(v % 256) as u8, ((v / 256) % 256) as u8, ((v / 65536) % 256) as u8, (v / 16777216) as u8]
}

/// Little-endian bytes of a 64-bit value.
pub open spec fn le64(v: u64) -> Seq<u8> {
    Seq::new(8, |i: int| ((v >> (8 * i) as u64) % 256) as u8)
}

/// `n` zero bytes.
pub open spec fn zeros(n: nat) -> Seq<u8> {
    Seq::new(n, |i: int| 0u8)
}

pub(crate) fn push_le32(buf: &mut Vec<u8>, v: u32)
    ensures
        final(buf)@ == old(buf)@ + le32(v),
{
    buf.push((v % 256) as u8);
    buf.push(((v / 256) % 256) as u8);
    buf.push(((v / 65536) % 256) as u8);
    buf.push((v / 16777216) as u8);
    assert(final(buf)@ =~= old(buf)@ + le32(v));
}

pub(crate) fn push_le16(buf: &mut Vec<u8>, v: u16)
    ensures
        final(buf)@ == old(buf)@ + le16(v),
{
    buf.push((v % 256) as u8);
    buf.push((v / 256) as u8);
    assert(final(buf)@ =~= old(buf)@ + le16(v));
}

pub(crate) fn push_le64(buf: &mut Vec<u8>, v: u64)
    ensures
        final(buf)@ == old(buf)@ + le64(v),
{
    let ghost start = buf@;
    let mut i: u64 = 0;
    while i < 8
        invariant
            i <= 8,
            buf@.len() == start.len() + i,
            buf@.subrange(0, start.len() as int) == start,
            forall|k: int| 0 <= k < i ==> #[trigger] buf@[start.len() + k] == le64(v)[k],
        decreases 8 - i,
    {
        buf.push(((v >> (8 * i)) % 256) as u8);
        assert(buf@.subrange(0, start.len() as int) =~= start);
        i = i + 1;
    }
    assert forall|j: int| 0 <= j < buf@.len() implies buf@[j] == (start + le64(v))[j] by {
        if j < start.len() {
            assert(buf@.subrange(0, start.len() as int)[j] == buf@[j]);
        } else {
            let k = j - start.len();
            assert(buf@[start.len() + k] == le64(v)[k]);
        }
    }
    assert(buf@ =~= start + le64(v));
}

pub(crate) fn push_bytes(buf: &mut Vec<u8>, src: &[u8])
    ensures
        final(buf)@ == old(buf)@ + src@,
{
    let ghost start = buf@;
    let mut i: usize = 0;
    while i < src.len()
        invariant
            i <= src@.len(),
            buf@ == start + src@.subrange(0, i as int),
        decreases src@.len() - i,
    {
        buf.push(src[i]);
        assert(src@.subrange(0, i + 1) =~= src@.subrange(0, i as int).push(src@[i as int]));
        i = i + 1;
    }
    assert(src@.subrange(0, src@.len() as int) =~= src@);
}

pub(crate) fn push_zeros(buf: &mut Vec<u8>, n: usize)
    ensures
        final(buf)@ == old(buf)@ + zeros(n as nat),
{
    let ghost start = buf@;
    let mut i: usize = 0;
    while i < n
        invariant
            i <= n,
            buf@ == start + zeros(i as nat),
        decreases n - i,
    {
        buf.push(0);
        assert(zeros((i + 1) as nat) =~= zeros(i as nat).push(0));
        i = i + 1;
    }
}

} // verus!
