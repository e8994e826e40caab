use vstd::prelude::*;

verus! {

/// Major type of an unsigned integer.
pub const MAJOR_UINT: u8 = 0;

/// Major type of a byte string.
pub const MAJOR_BYTES: u8 = 2;

/// Major type of a definite-length array.
pub const MAJOR_ARRAY: u8 = 4;

/// Major type of a definite-length map.
pub const MAJOR_MAP: u8 = 5;

/// Major type of a semantic tag.
pub const MAJOR_TAG: u8 = 6;

/// The single byte of the null marker (major type 7, simple value 22).
pub const NULL_BYTE: u8 = 0xf6;

/// The `k` lowest bytes of `n`, most significant first.
pub open spec fn be_bytes(n: u64, k: nat) -> Seq<u8>
    decreases k,
{
    if k == 0 {
        Seq::empty()
    } else {
        be_bytes(n >> 8, (k - 1) as nat).push((n % 256) as u8)
    }
}

/// The head of a data item: major type `major` with argument `n`, in its shortest form.
pub open spec fn head(major: u8, n: u64) -> Seq<u8>
    recommends
        major < 8,
{
    let m = (major * 32) as int;
    if n < 24 {
        seq![(m + n) as u8]
    } else if n < 0x100 {
        seq![(m + 24) as u8].add(be_bytes(n, 1))
    } else if n < 0x1_0000 {
        seq![(m + 25) as u8].add(be_bytes(n, 2))
    } else if n < 0x1_0000_0000 {
        seq![(m + 26) as u8].add(be_bytes(n, 4))
    } else {
        seq![(m + 27) as u8].add(be_bytes(n, 8))
    }
}

/// The encoding of an unsigned integer.
pub open spec fn uint_bytes(n: u64) -> Seq<u8> {
    head(MAJOR_UINT, n)
}

/// The header of an array of `n` elements.
pub open spec fn array_head(n: u64) -> Seq<u8> {
    head(MAJOR_ARRAY, n)
}

/// The header of a map of `n` entries.
pub open spec fn map_head(n: u64) -> Seq<u8> {
    head(MAJOR_MAP, n)
}

/// The null marker.
pub open spec fn null_bytes() -> Seq<u8> {
    seq![NULL_BYTE]
}

/// `count` null markers.
pub open spec fn nulls(count: nat) -> Seq<u8> {
    Seq::new(count, |i: int| NULL_BYTE)
}

fn push_be(out: &mut Vec<u8>, n: u64, k: usize)
    ensures
        final(out)@ == old(out)@ + be_bytes(n, k as nat),
    decreases k,
{
    if k > 0 {
        push_be(out, n >> 8, k - 1);
        out.push((n % 256) as u8);
        proof {
            assert(final(out)@ =~= old(out)@ + be_bytes(n, k as nat));
        }
    }
}

/// Appends the head of a data item of major type `major` with argument `n`.
pub fn push_head(out: &mut Vec<u8>, major: u8, n: u64)
    requires
        major < 8,
    ensures
        final(out)@ == old(out)@ + head(major, n),
{
    let m: u8 = major * 32;
    if n < 24 {
        out.push(m + n as u8);
    } else if n < 0x100 {
        out.push(m + 24);
        push_be(out, n, 1);
    } else if n < 0x1_0000 {
        out.push(m + 25);
        push_be(out, n, 2);
    } else if n < 0x1_0000_0000 {
        out.push(m + 26);
        push_be(out, n, 4);
    } else {
        out.push(m + 27);
        push_be(out, n, 8);
    }
    proof {
        assert(final(out)@ =~= old(out)@ + head(major, n));
    }
}

/// Appends an unsigned integer.
pub fn push_uint(out: &mut Vec<u8>, n: u64)
    ensures
        final(out)@ == old(out)@ + uint_bytes(n),
{
    push_head(out, MAJOR_UINT, n);
}

/// Appends the null marker.
pub fn push_null(out: &mut Vec<u8>)
    ensures
        final(out)@ == old(out)@ + null_bytes(),
{
    out.push(NULL_BYTE);
    proof {
        assert(final(out)@ =~= old(out)@ + null_bytes());
    }
}

/// Appends `count` null markers.
pub fn push_nulls(out: &mut Vec<u8>, count: u64)
    ensures
        final(out)@ == old(out)@ + nulls(count as nat),
{
    let mut i: u64 = 0;
    while i < count
        invariant
            i <= count,
            out@ == old(out)@ + nulls(i as nat),
        decreases count - i,
    {
        push_null(out);
        i = i + 1;
        assert(out@ =~= old(out)@ + nulls(i as nat));
    }
}

/// Appends the bytes of `src`.
pub fn push_all(out: &mut Vec<u8>, src: &Vec<u8>)
    ensures
        final(out)@ == old(out)@ + src@,
{
    let mut i: usize = 0;
    while i < src.len()
        invariant
            i <= src.len(),
            out@ == old(out)@ + src@.take(i as int),
        decreases src.len() - i,
    {
        out.push(src[i]);
        i = i + 1;
        assert(out@ =~= old(out)@ + src@.take(i as int));
    }
    assert(src@.take(src.len() as int) =~= src@);
}

} // verus!
