use vstd::prelude::*;

verus! {

/// The eight bytes of `v`, most significant first.
pub open spec fn be_bytes(v: u64) -> Seq<u8> {
    seq![
        (v >> 56) as u8,
        (v >> 48) as u8,
        (v >> 40) as u8,
        (v >> 32) as u8,
        (v >> 24) as u8,
        (v >> 16) as u8,
        (v >> 8) as u8,
        v as u8,
    ]
}

/// The number whose eight bytes, most significant first, are `b[0..8]`.
pub open spec fn from_be(b: Seq<u8>) -> u64 {
    (b[0] as u64) << 56 | (b[1] as u64) << 48 | (b[2] as u64) << 40 | (b[3] as u64) << 32 | (
    b[4] as u64) << 24 | (b[5] as u64) << 16 | (b[6] as u64) << 8 | (b[7] as u64)
}

/// What a counter cell holds: the number behind eight big-endian bytes,
/// nothing behind any other length.
pub open spec fn spec_from_be_bytes(b: Seq<u8>) -> Option<u64> {
    if b.len() == 8 {
        Some(from_be(b))
    } else {
        None
    }
}

/// Reading the big-endian bytes of a number gives the number back.
pub proof fn lemma_be_round_trip(v: u64)
    ensures
        be_bytes(v).len() == 8,
        from_be(be_bytes(v)) == v,
        spec_from_be_bytes(be_bytes(v)) == Some(v),
{
    assert(((v >> 56) as u8 as u64) << 56 | ((v >> 48) as u8 as u64) << 48 | ((v >> 40) as u8
        as u64) << 40 | ((v >> 32) as u8 as u64) << 32 | ((v >> 24) as u8 as u64) << 24 | ((v
        >> 16) as u8 as u64) << 16 | ((v >> 8) as u8 as u64) << 8 | (v as u8 as u64) == v)
        by (bit_vector);
}

/// Two numbers with the same big-endian bytes are the same number.
pub proof fn lemma_be_injective(a: u64, b: u64)
    requires
        be_bytes(a) == be_bytes(b),
    ensures
        a == b,
{
    lemma_be_round_trip(a);
    lemma_be_round_trip(b);
}

/// Eight bytes are the big-endian bytes of the number they spell.
pub proof fn lemma_be_of_from_be(b: Seq<u8>)
    requires
        b.len() == 8,
    ensures
        be_bytes(from_be(b)) == b,
{
    let (b0, b1, b2, b3, b4, b5, b6, b7) = (b[0], b[1], b[2], b[3], b[4], b[5], b[6], b[7]);
    let v = from_be(b);
    assert(v == (b0 as u64) << 56 | (b1 as u64) << 48 | (b2 as u64) << 40 | (b3 as u64) << 32 | (
    b4 as u64) << 24 | (b5 as u64) << 16 | (b6 as u64) << 8 | (b7 as u64));
    assert(v == (b0 as u64) << 56 | (b1 as u64) << 48 | (b2 as u64) << 40 | (b3 as u64) << 32 | (
    b4 as u64) << 24 | (b5 as u64) << 16 | (b6 as u64) << 8 | (b7 as u64) ==> (v >> 56) as u8
        == b0 && (v >> 48) as u8 == b1 && (v >> 40) as u8 == b2 && (v >> 32) as u8 == b3 && (v
        >> 24) as u8 == b4 && (v >> 16) as u8 == b5 && (v >> 8) as u8 == b6 && v as u8 == b7)
        by (bit_vector);
    assert(be_bytes(v) =~= b);
}

/// The eight bytes of `v`, most significant first.
pub fn to_be_bytes(v: u64) -> (r: Vec<u8>)
    ensures
        r@ == be_bytes(v),
{
    let r = vec![
        (v >> 56) as u8,
        (v >> 48) as u8,
        (v >> 40) as u8,
        (v >> 32) as u8,
        (v >> 24) as u8,
        (v >> 16) as u8,
        (v >> 8) as u8,
        v as u8,
    ];
    assert(r@ =~= be_bytes(v));
    r
}

/// The number behind eight big-endian bytes; `None` for any other length.
pub fn from_be_bytes(bytes: &[u8]) -> (r: Option<u64>)
    ensures
        r == spec_from_be_bytes(bytes@),
{
    if bytes.len() != 8 {
        return None;
    }
    let v = (bytes[0] as u64) << 56 | (bytes[1] as u64) << 48 | (bytes[2] as u64) << 40 | (
    bytes[3] as u64) << 32 | (bytes[4] as u64) << 24 | (bytes[5] as u64) << 16 | (bytes[6] as u64)
        << 8 | (bytes[7] as u64);
    Some(v)
}

/// Whether two byte strings are the same.
pub fn bytes_equal(a: &[u8], b: &[u8]) -> (r: bool)
    ensures
        r == (a@ == b@),
{
    if a.len() != b.len() {
        return false;
    }
    let mut i: usize = 0;
    while i < a.len()
        invariant
            a.len() == b.len(),
            i <= a.len(),
            forall|j: int| 0 <= j < i ==> a@[j] == b@[j],
        decreases a.len() - i,
    {
        if a[i] != b[i] {
            return false;
        }
        i = i + 1;
    }
    assert(a@ =~= b@);
    true
}

/// A copy of `bytes`.
pub fn copy_bytes(bytes: &[u8]) -> (r: Vec<u8>)
    ensures
        r@ == bytes@,
{
    let mut r: Vec<u8> = Vec::new();
    let mut i: usize = 0;
    while i < bytes.len()
        invariant
            i <= bytes.len(),
            r@ == bytes@.subrange(0, i as int),
        decreases bytes.len() - i,
    {
        r.push(bytes[i]);
        i = i + 1;
        assert(r@ =~= bytes@.subrange(0, i as int));
    }
    assert(r@ =~= bytes@);
    r
}

} // verus!
