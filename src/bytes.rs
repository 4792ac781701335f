use vstd::prelude::*;

verus! {

/// The four big-endian bytes of `n`.
pub open spec fn be_bytes(n: u32) -> Seq<u8> {
    seq![((n >> 24u32) & 0xff) as u8, ((n >> 16u32) & 0xff) as u8, ((n >> 8u32) & 0xff) as u8, (n & 0xff) as u8]
}

/// The number that four big-endian bytes stand for.
pub open spec fn be_value(b: Seq<u8>) -> u32 {
    ((b[0] as u32) << 24u32) | ((b[1] as u32) << 16u32) | ((b[2] as u32) << 8u32) | (b[3] as u32)
}

/// Reading back the bytes of a number gives the number.
pub proof fn lemma_be_value_of_bytes(n: u32)
    ensures
        be_value(be_bytes(n)) == n,
{
    let b0 = ((n >> 24u32) & 0xff) as u8;
    let b1 = ((n >> 16u32) & 0xff) as u8;
    let b2 = ((n >> 8u32) & 0xff) as u8;
    let b3 = (n & 0xff) as u8;
    assert(((b0 as u32) << 24u32) | ((b1 as u32) << 16u32) | ((b2 as u32) << 8u32) | (b3 as u32) == n)
        by (bit_vector)
        requires
            b0 == ((n >> 24u32) & 0xff) as u8,
            b1 == ((n >> 16u32) & 0xff) as u8,
            b2 == ((n >> 8u32) & 0xff) as u8,
            b3 == (n & 0xff) as u8,
    ;
}

/// Writing out the number that four bytes stand for gives the bytes.
pub proof fn lemma_be_bytes_of_value(b: Seq<u8>)
    requires
        b.len() == 4,
    ensures
        be_bytes(be_value(b)) == b,
{
    let (b0, b1, b2, b3) = (b[0], b[1], b[2], b[3]);
    let n = be_value(b);
    assert(((n >> 24u32) & 0xff) as u8 == b0 && ((n >> 16u32) & 0xff) as u8 == b1
        && ((n >> 8u32) & 0xff) as u8 == b2 && (n & 0xff) as u8 == b3) by (bit_vector)
        requires
            n == ((b0 as u32) << 24u32) | ((b1 as u32) << 16u32) | ((b2 as u32) << 8u32) | (b3 as u32),
    ;
    assert(be_bytes(n) =~= b);
}

/// Reads the big-endian number at `at`.
pub fn read_be_u32(bytes: &[u8], at: usize) -> (r: u32)
    requires
        at + 4 <= bytes@.len(),
    ensures
        r == be_value(bytes@.subrange(at as int, at + 4)),
{
    let ghost sub = bytes@.subrange(at as int, at + 4);
    assert(sub[0] == bytes@[at as int] && sub[1] == bytes@[at + 1] && sub[2] == bytes@[at + 2]
        && sub[3] == bytes@[at + 3]);
    ((bytes[at] as u32) << 24u32) | ((bytes[at + 1] as u32) << 16u32) | ((bytes[at + 2] as u32) << 8u32)
        | (bytes[at + 3] as u32)
}

/// Appends the four big-endian bytes of `n`.
pub fn push_be_u32(v: &mut Vec<u8>, n: u32)
    ensures
        final(v)@ == old(v)@ + be_bytes(n),
{
    v.push(((n >> 24u32) & 0xff) as u8);
    v.push(((n >> 16u32) & 0xff) as u8);
    v.push(((n >> 8u32) & 0xff) as u8);
    v.push((n & 0xff) as u8);
    assert(v@ =~= old(v)@ + be_bytes(n));
}

/// Appends the bytes of `s`.
pub fn push_bytes(v: &mut Vec<u8>, s: &[u8])
    ensures
        final(v)@ == old(v)@ + s@,
{
    let mut i: usize = 0;
    while i < s.len()
        invariant
            i <= s@.len(),
            v@ == old(v)@ + s@.subrange(0, i as int),
        decreases s@.len() - i,
    {
        v.push(s[i]);
        i = i + 1;
        assert(v@ =~= old(v)@ + s@.subrange(0, i as int));
    }
    assert(s@.subrange(0, i as int) =~= s@);
}

} // verus!
