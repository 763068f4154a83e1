//! Small helpers for the on-wire byte formats: the big-endian frame
//! header and exact comparison of byte strings.

use vstd::prelude::*;

verus! {

/// The eight big-endian bytes of `x`, most significant first.
pub open spec fn spec_u64_to_be_bytes(x: u64) -> Seq<u8> {
    seq![
        ((x >> 56) & 0xff) as u8,
        ((x >> 48) & 0xff) as u8,
        ((x >> 40) & 0xff) as u8,
        ((x >> 32) & 0xff) as u8,
        ((x >> 24) & 0xff) as u8,
        ((x >> 16) & 0xff) as u8,
        ((x >> 8) & 0xff) as u8,
        (x & 0xff) as u8,
    ]
}

/// The value of eight bytes read as a big-endian u64.
pub open spec fn spec_u64_from_be_bytes(s: Seq<u8>) -> u64
    recommends
        s.len() == 8,
{
    ((s[0] as u64) << 56) | ((s[1] as u64) << 48) | ((s[2] as u64) << 40) | ((s[3] as u64) << 32)
        | ((s[4] as u64) << 24) | ((s[5] as u64) << 16) | ((s[6] as u64) << 8) | (s[7] as u64)
}

/// Reading back the big-endian bytes of a value yields the value.
pub proof fn lemma_u64_be_bytes_round_trip(x: u64)
    ensures
        spec_u64_to_be_bytes(x).len() == 8,
        spec_u64_from_be_bytes(spec_u64_to_be_bytes(x)) == x,
{
    assert((((x >> 56) & 0xff) as u64) << 56 | (((x >> 48) & 0xff) as u64) << 48 | (((x >> 40)
        & 0xff) as u64) << 40 | (((x >> 32) & 0xff) as u64) << 32 | (((x >> 24) & 0xff) as u64)
        << 24 | (((x >> 16) & 0xff) as u64) << 16 | (((x >> 8) & 0xff) as u64) << 8 | ((x
        & 0xff) as u64) == x) by (bit_vector);
    assert({
        &&& (x >> 56) & 0xff < 256
        &&& (x >> 48) & 0xff < 256
        &&& (x >> 40) & 0xff < 256
        &&& (x >> 32) & 0xff < 256
        &&& (x >> 24) & 0xff < 256
        &&& (x >> 16) & 0xff < 256
        &&& (x >> 8) & 0xff < 256
        &&& x & 0xff < 256
    }) by (bit_vector);
}

/// Appends the eight big-endian bytes of `x` to `out`.
pub fn push_u64_be(out: &mut Vec<u8>, x: u64)
    ensures
        final(out)@ == old(out)@ + spec_u64_to_be_bytes(x),
{
    out.push(((x >> 56) & 0xff) as u8);
    out.push(((x >> 48) & 0xff) as u8);
    out.push(((x >> 40) & 0xff) as u8);
    out.push(((x >> 32) & 0xff) as u8);
    out.push(((x >> 24) & 0xff) as u8);
    out.push(((x >> 16) & 0xff) as u8);
    out.push(((x >> 8) & 0xff) as u8);
    out.push((x & 0xff) as u8);
    assert(out@ =~= old(out)@ + spec_u64_to_be_bytes(x));
}

/// Reads the first eight bytes of `s` as a big-endian u64.
pub fn read_u64_be(s: &[u8]) -> (x: u64)
    requires
        s@.len() >= 8,
    ensures
        x == spec_u64_from_be_bytes(s@.take(8)),
{
    let x = ((s[0] as u64) << 56) | ((s[1] as u64) << 48) | ((s[2] as u64) << 40) | ((
    s[3] as u64) << 32) | ((s[4] as u64) << 24) | ((s[5] as u64) << 16) | ((s[6] as u64) << 8) | (
    s[7] as u64);
    assert(s@.take(8)[0] == s@[0]);
    assert(s@.take(8)[1] == s@[1]);
    assert(s@.take(8)[2] == s@[2]);
    assert(s@.take(8)[3] == s@[3]);
    assert(s@.take(8)[4] == s@[4]);
    assert(s@.take(8)[5] == s@[5]);
    assert(s@.take(8)[6] == s@[6]);
    assert(s@.take(8)[7] == s@[7]);
    x
}

/// The four little-endian bytes of `x`, least significant first.
pub open spec fn spec_u32_to_le_bytes(x: u32) -> Seq<u8> {
    seq![
        (x & 0xff) as u8,
        ((x >> 8) & 0xff) as u8,
        ((x >> 16) & 0xff) as u8,
        ((x >> 24) & 0xff) as u8,
    ]
}

/// The value of four bytes read as a little-endian u32.
pub open spec fn spec_u32_from_le_bytes(s: Seq<u8>) -> u32
    recommends
        s.len() == 4,
{
    (s[0] as u32) | ((s[1] as u32) << 8) | ((s[2] as u32) << 16) | ((s[3] as u32) << 24)
}

/// Reading back the little-endian bytes of a u32 yields the value.
pub proof fn lemma_u32_le_bytes_round_trip(x: u32)
    ensures
        spec_u32_to_le_bytes(x).len() == 4,
        spec_u32_from_le_bytes(spec_u32_to_le_bytes(x)) == x,
{
    assert(((x & 0xff) as u32) | (((x >> 8) & 0xff) as u32) << 8 | (((x >> 16) & 0xff) as u32)
        << 16 | (((x >> 24) & 0xff) as u32) << 24 == x) by (bit_vector);
    assert({
        &&& x & 0xff < 256
        &&& (x >> 8) & 0xff < 256
        &&& (x >> 16) & 0xff < 256
        &&& (x >> 24) & 0xff < 256
    }) by (bit_vector);
}

/// The eight little-endian bytes of `x`, least significant first.
pub open spec fn spec_u64_to_le_bytes(x: u64) -> Seq<u8> {
    seq![
        (x & 0xff) as u8,
        ((x >> 8) & 0xff) as u8,
        ((x >> 16) & 0xff) as u8,
        ((x >> 24) & 0xff) as u8,
        ((x >> 32) & 0xff) as u8,
        ((x >> 40) & 0xff) as u8,
        ((x >> 48) & 0xff) as u8,
        ((x >> 56) & 0xff) as u8,
    ]
}

/// The value of eight bytes read as a little-endian u64.
pub open spec fn spec_u64_from_le_bytes(s: Seq<u8>) -> u64
    recommends
        s.len() == 8,
{
    (s[0] as u64) | ((s[1] as u64) << 8) | ((s[2] as u64) << 16) | ((s[3] as u64) << 24) | ((
    s[4] as u64) << 32) | ((s[5] as u64) << 40) | ((s[6] as u64) << 48) | ((s[7] as u64) << 56)
}

/// Reading back the little-endian bytes of a u64 yields the value.
pub proof fn lemma_u64_le_bytes_round_trip(x: u64)
    ensures
        spec_u64_to_le_bytes(x).len() == 8,
        spec_u64_from_le_bytes(spec_u64_to_le_bytes(x)) == x,
{
    assert(((x & 0xff) as u64) | (((x >> 8) & 0xff) as u64) << 8 | (((x >> 16) & 0xff) as u64)
        << 16 | (((x >> 24) & 0xff) as u64) << 24 | (((x >> 32) & 0xff) as u64) << 32 | (((x
        >> 40) & 0xff) as u64) << 40 | (((x >> 48) & 0xff) as u64) << 48 | (((x >> 56)
        & 0xff) as u64) << 56 == x) by (bit_vector);
    assert({
        &&& x & 0xff < 256
        &&& (x >> 8) & 0xff < 256
        &&& (x >> 16) & 0xff < 256
        &&& (x >> 24) & 0xff < 256
        &&& (x >> 32) & 0xff < 256
        &&& (x >> 40) & 0xff < 256
        &&& (x >> 48) & 0xff < 256
        &&& (x >> 56) & 0xff < 256
    }) by (bit_vector);
}

/// Appends the four little-endian bytes of `x` to `out`.
pub fn push_u32_le(out: &mut Vec<u8>, x: u32)
    ensures
        final(out)@ == old(out)@ + spec_u32_to_le_bytes(x),
{
    out.push((x & 0xff) as u8);
    out.push(((x >> 8) & 0xff) as u8);
    out.push(((x >> 16) & 0xff) as u8);
    out.push(((x >> 24) & 0xff) as u8);
    assert(out@ =~= old(out)@ + spec_u32_to_le_bytes(x));
}

/// Appends the eight little-endian bytes of `x` to `out`.
pub fn push_u64_le(out: &mut Vec<u8>, x: u64)
    ensures
        final(out)@ == old(out)@ + spec_u64_to_le_bytes(x),
{
    out.push((x & 0xff) as u8);
    out.push(((x >> 8) & 0xff) as u8);
    out.push(((x >> 16) & 0xff) as u8);
    out.push(((x >> 24) & 0xff) as u8);
    out.push(((x >> 32) & 0xff) as u8);
    out.push(((x >> 40) & 0xff) as u8);
    out.push(((x >> 48) & 0xff) as u8);
    out.push(((x >> 56) & 0xff) as u8);
    assert(out@ =~= old(out)@ + spec_u64_to_le_bytes(x));
}

/// Reads four bytes at offset `i` of `s` as a little-endian u32.
pub fn read_u32_le_at(s: &[u8], i: usize) -> (x: u32)
    requires
        i + 4 <= s@.len(),
    ensures
        x == spec_u32_from_le_bytes(s@.subrange(i as int, i as int + 4)),
{
    let x = (s[i] as u32) | ((s[i + 1] as u32) << 8) | ((s[i + 2] as u32) << 16) | ((s[i
        + 3] as u32) << 24);
    proof {
        let sub = s@.subrange(i as int, i as int + 4);
        assert(sub[0] == s@[i as int]);
        assert(sub[1] == s@[i as int + 1]);
        assert(sub[2] == s@[i as int + 2]);
        assert(sub[3] == s@[i as int + 3]);
    }
    x
}

/// Reads eight bytes at offset `i` of `s` as a little-endian u64.
pub fn read_u64_le_at(s: &[u8], i: usize) -> (x: u64)
    requires
        i + 8 <= s@.len(),
    ensures
        x == spec_u64_from_le_bytes(s@.subrange(i as int, i as int + 8)),
{
    let x = (s[i] as u64) | ((s[i + 1] as u64) << 8) | ((s[i + 2] as u64) << 16) | ((s[i
        + 3] as u64) << 24) | ((s[i + 4] as u64) << 32) | ((s[i + 5] as u64) << 40) | ((s[i
        + 6] as u64) << 48) | ((s[i + 7] as u64) << 56);
    proof {
        let sub = s@.subrange(i as int, i as int + 8);
        assert(sub[0] == s@[i as int]);
        assert(sub[1] == s@[i as int + 1]);
        assert(sub[2] == s@[i as int + 2]);
        assert(sub[3] == s@[i as int + 3]);
        assert(sub[4] == s@[i as int + 4]);
        assert(sub[5] == s@[i as int + 5]);
        assert(sub[6] == s@[i as int + 6]);
        assert(sub[7] == s@[i as int + 7]);
    }
    x
}

/// Compares two byte strings for exact equality.
pub fn bytes_eq(a: &[u8], b: &[u8]) -> (r: bool)
    ensures
        r == (a@ == b@),
{
    if a.len() != b.len() {
        assert(a@ != b@) by {
            assert(a@.len() != b@.len());
        }
        return false;
    }
    let n = a.len();
    let mut i: usize = 0;
    while i < n
        invariant
            n == a@.len() && n == b@.len(),
            i <= n,
            forall|j: int| 0 <= j < i ==> a@[j] == b@[j],
        decreases n - i,
    {
        if a[i] != b[i] {
            return false;
        }
        i += 1;
    }
    assert(a@ =~= b@);
    true
}

} // verus!
