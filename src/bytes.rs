use vstd::prelude::*;

verus! {

/// The number that four bytes give when read most significant first.
pub open spec fn be_u32(b: Seq<u8>) -> u32
    recommends
        b.len() == 4,
{
    (b[0] as nat * 16777216 + b[1] as nat * 65536 + b[2] as nat * 256 + b[3] as nat) as u32
}

/// The four bytes of `x`, most significant first.
pub open spec fn u32_be_bytes(x: u32) -> Seq<u8> {
    seq![(x / 16777216) as u8, ((x / 65536) % 256) as u8, ((x / 256) % 256) as u8, (x % 256) as u8]
}

/// Writing a number as four bytes and reading them back gives the number.
pub proof fn lemma_be_u32_round_trip(x: u32)
    ensures
        u32_be_bytes(x).len() == 4,
        be_u32(u32_be_bytes(x)) == x,
{
    let b = u32_be_bytes(x);
    let x = x as nat;
    assert(x / 16777216 * 16777216 + (x / 65536) % 256 * 65536 + (x / 256) % 256 * 256 + x % 256
        == x) by (nonlinear_arith);
    assert(b[0] as nat == x / 16777216);
    assert(b[1] as nat == (x / 65536) % 256);
    assert(b[2] as nat == (x / 256) % 256);
    assert(b[3] as nat == x % 256);
}

/// Reads the four bytes at `at` as a number, most significant first.
pub(crate) fn read_u32_be(bytes: &[u8], at: usize) -> (r: u32)
    requires
        at + 4 <= bytes@.len(),
    ensures
        r == be_u32(bytes@.subrange(at as int, at + 4)),
{
    let r = (bytes[at] as u32) * 16777216 + (bytes[at + 1] as u32) * 65536 + (bytes[at + 2] as u32)
        * 256 + (bytes[at + 3] as u32);
    proof {
        let b = bytes@.subrange(at as int, at + 4);
        assert(b[0] == bytes@[at as int] && b[1] == bytes@[at + 1] && b[2] == bytes@[at + 2] && b[3]
            == bytes@[at + 3]);
    }
    r
}

/// Appends the four bytes of `x`, most significant first.
pub(crate) fn push_u32_be(v: &mut Vec<u8>, x: u32)
    ensures
        final(v)@ == old(v)@ + u32_be_bytes(x),
{
    v.push((x / 16777216) as u8);
    v.push(((x / 65536) % 256) as u8);
    v.push(((x / 256) % 256) as u8);
    v.push((x % 256) as u8);
    assert(final(v)@ =~= old(v)@ + u32_be_bytes(x));
}

/// Appends the bytes of `s`.
pub(crate) fn push_bytes(v: &mut Vec<u8>, s: &[u8])
    ensures
        final(v)@ == old(v)@ + s@,
{
    let ghost start = v@;
    let mut i: usize = 0;
    while i < s.len()
        invariant
            0 <= i <= s@.len(),
            v@ == start + s@.subrange(0, i as int),
        decreases s@.len() - i,
    {
        v.push(s[i]);
        i = i + 1;
        assert(v@ =~= start + s@.subrange(0, i as int));
    }
    assert(s@.subrange(0, i as int) =~= s@);
}

/// A copy of the bytes of `s` from `from` up to `to`.
pub(crate) fn copy_range(s: &[u8], from: usize, to: usize) -> (r: Vec<u8>)
    requires
        from <= to <= s@.len(),
    ensures
        r@ == s@.subrange(from as int, to as int),
{
    let mut r: Vec<u8> = Vec::new();
    let mut i: usize = from;
    while i < to
        invariant
            from <= i <= to <= s@.len(),
            r@ == s@.subrange(from as int, i as int),
        decreases to - i,
    {
        r.push(s[i]);
        i = i + 1;
        assert(r@ =~= s@.subrange(from as int, i as int));
    }
    r
}

} // verus!
