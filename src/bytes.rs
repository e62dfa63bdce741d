//! Big-endian integers inside byte sequences.
use vstd::prelude::*;

verus! {

/// The two bytes of `v`, most significant first.
pub open spec fn be16(v: u16) -> Seq<u8> {
    seq![(v >> 8u16) as u8, v as u8]
}

/// The four bytes of `v`, most significant first.
pub open spec fn be32(v: u32) -> Seq<u8> {
    seq![(v >> 24u32) as u8, (v >> 16u32) as u8, (v >> 8u32) as u8, v as u8]
}

/// The eight bytes of `v`, most significant first.
pub open spec fn be64(v: u64) -> Seq<u8> {
    seq![
        (v >> 56u64) as u8,
        (v >> 48u64) as u8,
        (v >> 40u64) as u8,
        (v >> 32u64) as u8,
        (v >> 24u64) as u8,
        (v >> 16u64) as u8,
        (v >> 8u64) as u8,
        v as u8,
    ]
}

/// The big-endian 16-bit value stored at `off`.
pub open spec fn read_be16(b: Seq<u8>, off: int) -> u16 {
    ((b[off] as u16) << 8u16) | (b[off + 1] as u16)
}

/// The big-endian 32-bit value stored at `off`.
pub open spec fn read_be32(b: Seq<u8>, off: int) -> u32 {
    ((b[off] as u32) << 24u32) | ((b[off + 1] as u32) << 16u32) | ((b[off + 2] as u32) << 8u32)
        | (b[off + 3] as u32)
}

/// The big-endian 64-bit value stored at `off`.
pub open spec fn read_be64(b: Seq<u8>, off: int) -> u64 {
    ((b[off] as u64) << 56u64) | ((b[off + 1] as u64) << 48u64) | ((b[off + 2] as u64) << 40u64)
        | ((b[off + 3] as u64) << 32u64) | ((b[off + 4] as u64) << 24u64) | ((b[off + 5] as u64)
        << 16u64) | ((b[off + 6] as u64) << 8u64) | (b[off + 7] as u64)
}

/// `n` zero bytes.
pub open spec fn zeros(n: nat) -> Seq<u8> {
    Seq::new(n, |i: int| 0u8)
}

pub fn push_be16(buf: &mut Vec<u8>, v: u16)
    ensures
        final(buf)@ == old(buf)@ + be16(v),
{
    buf.push((v >> 8u16) as u8);
    buf.push(v as u8);
    assert(final(buf)@ =~= old(buf)@ + be16(v));
}

pub fn push_be32(buf: &mut Vec<u8>, v: u32)
    ensures
        final(buf)@ == old(buf)@ + be32(v),
{
    buf.push((v >> 24u32) as u8);
    buf.push((v >> 16u32) as u8);
    buf.push((v >> 8u32) as u8);
    buf.push(v as u8);
    assert(final(buf)@ =~= old(buf)@ + be32(v));
}

pub fn push_be64(buf: &mut Vec<u8>, v: u64)
    ensures
        final(buf)@ == old(buf)@ + be64(v),
{
    buf.push((v >> 56u64) as u8);
    buf.push((v >> 48u64) as u8);
    buf.push((v >> 40u64) as u8);
    buf.push((v >> 32u64) as u8);
    buf.push((v >> 24u64) as u8);
    buf.push((v >> 16u64) as u8);
    buf.push((v >> 8u64) as u8);
    buf.push(v as u8);
    assert(final(buf)@ =~= old(buf)@ + be64(v));
}

/// Appends `n` zero bytes.
pub fn push_zeros(buf: &mut Vec<u8>, n: usize)
    ensures
        final(buf)@ == old(buf)@ + zeros(n as nat),
{
    let mut i: usize = 0;
    while i < n
        invariant
            i <= n,
            buf@ == old(buf)@ + zeros(i as nat),
        decreases n - i,
    {
        buf.push(0u8);
        i = i + 1;
        assert(buf@ =~= old(buf)@ + zeros(i as nat));
    }
}

pub fn get_be16(b: &[u8], off: usize) -> (r: u16)
    requires
        off + 2 <= b@.len(),
    ensures
        r == read_be16(b@, off as int),
{
    ((b[off] as u16) << 8u16) | (b[off + 1] as u16)
}

pub fn get_be32(b: &[u8], off: usize) -> (r: u32)
    requires
        off + 4 <= b@.len(),
    ensures
        r == read_be32(b@, off as int),
{
    ((b[off] as u32) << 24u32) | ((b[off + 1] as u32) << 16u32) | ((b[off + 2] as u32) << 8u32)
        | (b[off + 3] as u32)
}

pub fn get_be64(b: &[u8], off: usize) -> (r: u64)
    requires
        off + 8 <= b@.len(),
    ensures
        r == read_be64(b@, off as int),
{
    ((b[off] as u64) << 56u64) | ((b[off + 1] as u64) << 48u64) | ((b[off + 2] as u64) << 40u64)
        | ((b[off + 3] as u64) << 32u64) | ((b[off + 4] as u64) << 24u64) | ((b[off + 5] as u64)
        << 16u64) | ((b[off + 6] as u64) << 8u64) | (b[off + 7] as u64)
}

/// Reading back what `be16` wrote gives the value.
pub proof fn lemma_be16_read(b: Seq<u8>, off: int, v: u16)
    requires
        0 <= off,
        off + 2 <= b.len(),
        b.subrange(off, off + 2) == be16(v),
    ensures
        read_be16(b, off) == v,
{
    assert(b[off] == be16(v)[0] && b[off + 1] == be16(v)[1]);
    let (x0, x1) = ((v >> 8u16) as u8, v as u8);
    assert((((x0 as u16) << 8u16) | (x1 as u16)) == v) by (bit_vector)
        requires
            x0 == (v >> 8u16) as u8,
            x1 == v as u8,
    ;
}

/// Reading back what `be32` wrote gives the value.
pub proof fn lemma_be32_read(b: Seq<u8>, off: int, v: u32)
    requires
        0 <= off,
        off + 4 <= b.len(),
        b.subrange(off, off + 4) == be32(v),
    ensures
        read_be32(b, off) == v,
{
    assert(b[off] == be32(v)[0] && b[off + 1] == be32(v)[1]);
    assert(b[off + 2] == be32(v)[2] && b[off + 3] == be32(v)[3]);
    let (x0, x1, x2, x3) = ((v >> 24u32) as u8, (v >> 16u32) as u8, (v >> 8u32) as u8, v as u8);
    assert((((x0 as u32) << 24u32) | ((x1 as u32) << 16u32) | ((x2 as u32) << 8u32) | (x3 as u32))
        == v) by (bit_vector)
        requires
            x0 == (v >> 24u32) as u8,
            x1 == (v >> 16u32) as u8,
            x2 == (v >> 8u32) as u8,
            x3 == v as u8,
    ;
}

/// Reading back what `be64` wrote gives the value.
pub proof fn lemma_be64_read(b: Seq<u8>, off: int, v: u64)
    requires
        0 <= off,
        off + 8 <= b.len(),
        b.subrange(off, off + 8) == be64(v),
    ensures
        read_be64(b, off) == v,
{
    assert(b[off] == be64(v)[0] && b[off + 1] == be64(v)[1]);
    assert(b[off + 2] == be64(v)[2] && b[off + 3] == be64(v)[3]);
    assert(b[off + 4] == be64(v)[4] && b[off + 5] == be64(v)[5]);
    assert(b[off + 6] == be64(v)[6] && b[off + 7] == be64(v)[7]);
    let (x0, x1, x2, x3) = ((v >> 56u64) as u8, (v >> 48u64) as u8, (v >> 40u64) as u8, (v
        >> 32u64) as u8);
    let (x4, x5, x6, x7) = ((v >> 24u64) as u8, (v >> 16u64) as u8, (v >> 8u64) as u8, v as u8);
    assert((((x0 as u64) << 56u64) | ((x1 as u64) << 48u64) | ((x2 as u64) << 40u64) | ((x3 as u64)
        << 32u64) | ((x4 as u64) << 24u64) | ((x5 as u64) << 16u64) | ((x6 as u64) << 8u64) | (
    x7 as u64)) == v) by (bit_vector)
        requires
            x0 == (v >> 56u64) as u8,
            x1 == (v >> 48u64) as u8,
            x2 == (v >> 40u64) as u8,
            x3 == (v >> 32u64) as u8,
            x4 == (v >> 24u64) as u8,
            x5 == (v >> 16u64) as u8,
            x6 == (v >> 8u64) as u8,
            x7 == v as u8,
    ;
}

} // verus!

verus! {

/// The records of `s` laid end to end.
pub open spec fn concat_all(s: Seq<Seq<u8>>) -> Seq<u8>
    decreases s.len(),
{
    if s.len() == 0 {
        Seq::empty()
    } else {
        concat_all(s.drop_last()) + s.last()
    }
}

/// Records of one size `k` laid end to end: record `i` sits at `i * k`.
pub proof fn lemma_concat_all(s: Seq<Seq<u8>>, k: nat)
    requires
        forall|i: int| 0 <= i < s.len() ==> #[trigger] s[i].len() == k,
    ensures
        concat_all(s).len() == s.len() * k,
        forall|i: int|
            0 <= i < s.len() ==> #[trigger] concat_all(s).subrange(i * k, i * k + k) == s[i],
    decreases s.len(),
{
    if s.len() > 0 {
        let p = s.drop_last();
        lemma_concat_all(p, k);
        let c = concat_all(s);
        assert(c == concat_all(p) + s.last());
        assert(c.len() == p.len() * k + k) by (nonlinear_arith)
            requires
                c.len() == concat_all(p).len() + k,
                concat_all(p).len() == p.len() * k,
        ;
        assert(s.len() * k == p.len() * k + k) by (nonlinear_arith)
            requires
                s.len() == p.len() + 1,
        ;
        assert forall|i: int| 0 <= i < s.len() implies #[trigger] c.subrange(i * k, i * k + k)
            == s[i] by {
            if i < p.len() {
                assert(i * k + k <= p.len() * k) by (nonlinear_arith)
                    requires
                        i < p.len(),
                ;
                assert(0 <= i * k) by (nonlinear_arith)
                    requires
                        0 <= i,
                ;
                assert(c.subrange(i * k, i * k + k) =~= concat_all(p).subrange(i * k, i * k + k));
                assert(p[i] == s[i]);
            } else {
                assert(i * k == p.len() * k);
                assert(c.subrange(i * k, i * k + k) =~= s.last());
            }
        }
    }
}

} // verus!
