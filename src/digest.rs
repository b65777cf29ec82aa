use vstd::prelude::*;
use std::marker::PhantomData;

verus! {

/// The SHA-256 digest of a byte string.
pub uninterp spec fn sha256_of(data: Seq<u8>) -> Seq<u8>;

/// Relies on sha2's `Sha256::digest`: the SHA-256 digest of the input, which is 32 bytes long.
#[verifier::external_body]
fn sha256(data: &[u8]) -> (r: Vec<u8>)
    ensures
        r@ == sha256_of(data@),
        r@.len() == 32,
{
    <sha2::Sha256 as sha2::Digest>::digest(data).to_vec()
}

/// Big-endian bytes of a 64-bit integer.
pub open spec fn be_u64(x: u64) -> Seq<u8> {
    seq![
        (x >> 56u64) as u8, (x >> 48u64) as u8, (x >> 40u64) as u8, (x >> 32u64) as u8,
        (x >> 24u64) as u8, (x >> 16u64) as u8, (x >> 8u64) as u8, x as u8,
    ]
}

/// The 64-bit integer whose big-endian bytes are `b` (eight of them).
pub open spec fn from_be_u64(b: Seq<u8>) -> u64 {
    ((b[0] as u64) << 56u64) | ((b[1] as u64) << 48u64) | ((b[2] as u64) << 40u64)
        | ((b[3] as u64) << 32u64) | ((b[4] as u64) << 24u64) | ((b[5] as u64) << 16u64)
        | ((b[6] as u64) << 8u64) | (b[7] as u64)
}

/// Big-endian bytes of a 128-bit integer: the high half, then the low half.
pub open spec fn be_u128(x: u128) -> Seq<u8> {
    be_u64((x >> 64u128) as u64) + be_u64(x as u64)
}

/// The 128-bit integer whose big-endian bytes are `b` (sixteen of them).
pub open spec fn from_be_u128(b: Seq<u8>) -> u128 {
    ((from_be_u64(b.subrange(0, 8)) as u128) << 64u128) | (from_be_u64(b.subrange(8, 16)) as u128)
}

/// Reading back the big-endian bytes of a 64-bit integer gives the integer.
pub proof fn lemma_be_u64_round_trip(x: u64)
    ensures
        be_u64(x).len() == 8,
        from_be_u64(be_u64(x)) == x,
{
    let b = be_u64(x);
    let (b0, b1, b2, b3) = (b[0], b[1], b[2], b[3]);
    let (b4, b5, b6, b7) = (b[4], b[5], b[6], b[7]);
    assert(b0 == (x >> 56u64) as u8 && b1 == (x >> 48u64) as u8 && b2 == (x >> 40u64) as u8
        && b3 == (x >> 32u64) as u8 && b4 == (x >> 24u64) as u8 && b5 == (x >> 16u64) as u8
        && b6 == (x >> 8u64) as u8 && b7 == x as u8);
    assert(((b0 as u64) << 56u64) | ((b1 as u64) << 48u64) | ((b2 as u64) << 40u64)
        | ((b3 as u64) << 32u64) | ((b4 as u64) << 24u64) | ((b5 as u64) << 16u64)
        | ((b6 as u64) << 8u64) | (b7 as u64) == x) by (bit_vector)
        requires
            b0 == (x >> 56u64) as u8 && b1 == (x >> 48u64) as u8 && b2 == (x >> 40u64) as u8
                && b3 == (x >> 32u64) as u8 && b4 == (x >> 24u64) as u8 && b5 == (x >> 16u64) as u8
                && b6 == (x >> 8u64) as u8 && b7 == x as u8,
    ;
}

/// Reading back the big-endian bytes of a 128-bit integer gives the integer.
pub proof fn lemma_be_u128_round_trip(x: u128)
    ensures
        be_u128(x).len() == 16,
        from_be_u128(be_u128(x)) == x,
{
    let hi = (x >> 64u128) as u64;
    let lo = x as u64;
    lemma_be_u64_round_trip(hi);
    lemma_be_u64_round_trip(lo);
    let b = be_u128(x);
    assert(b.subrange(0, 8) =~= be_u64(hi));
    assert(b.subrange(8, 16) =~= be_u64(lo));
    assert(((hi as u128) << 64u128) | (lo as u128) == x) by (bit_vector)
        requires
            hi == (x >> 64u128) as u64,
            lo == x as u64,
    ;
}

/// The big-endian bytes of `x`.
pub fn u64_to_be(x: u64) -> (r: Vec<u8>)
    ensures
        r@ == be_u64(x),
{
    let r = vec![
        (x >> 56u64) as u8, (x >> 48u64) as u8, (x >> 40u64) as u8, (x >> 32u64) as u8,
        (x >> 24u64) as u8, (x >> 16u64) as u8, (x >> 8u64) as u8, x as u8,
    ];
    assert(r@ =~= be_u64(x));
    r
}

/// The integer read from eight big-endian bytes.
pub fn u64_from_be(b: &[u8]) -> (r: u64)
    requires
        b@.len() == 8,
    ensures
        r == from_be_u64(b@),
{
    ((b[0] as u64) << 56u64) | ((b[1] as u64) << 48u64) | ((b[2] as u64) << 40u64)
        | ((b[3] as u64) << 32u64) | ((b[4] as u64) << 24u64) | ((b[5] as u64) << 16u64)
        | ((b[6] as u64) << 8u64) | (b[7] as u64)
}

/// The big-endian bytes of `x`.
pub fn u128_to_be(x: u128) -> (r: Vec<u8>)
    ensures
        r@ == be_u128(x),
{
    let mut r = u64_to_be((x >> 64u128) as u64);
    let mut lo = u64_to_be(x as u64);
    r.append(&mut lo);
    r
}

/// The integer read from sixteen big-endian bytes.
pub fn u128_from_be(b: &[u8]) -> (r: u128)
    requires
        b@.len() == 16,
    ensures
        r == from_be_u128(b@),
{
    let mut hi: Vec<u8> = Vec::new();
    let mut lo: Vec<u8> = Vec::new();
    let mut i: usize = 0;
    while i < 8
        invariant
            b@.len() == 16,
            0 <= i <= 8,
            hi@ == b@.subrange(0, i as int),
            lo@ == b@.subrange(8, 8 + i as int),
        decreases 8 - i,
    {
        hi.push(b[i]);
        lo.push(b[8 + i]);
        i = i + 1;
        assert(hi@ =~= b@.subrange(0, i as int));
        assert(lo@ =~= b@.subrange(8, 8 + i as int));
    }
    ((u64_from_be(hi.as_slice()) as u128) << 64u128) | (u64_from_be(lo.as_slice()) as u128)
}

/// A fixed-width content fingerprint: the SHA-256 digest of some encoding, tagged with the
/// kind of value it is the digest of. The tag is not stored.
pub struct Digest<Tag> {
    bytes: Vec<u8>,
    tag: PhantomData<Tag>,
}

impl<Tag> View for Digest<Tag> {
    type V = Seq<u8>;

    closed spec fn view(&self) -> Seq<u8> {
        self.bytes@
    }
}

impl<Tag> Digest<Tag> {
    /// The digest of `data`.
    pub fn from_bytes(data: &[u8]) -> (r: Digest<Tag>)
        ensures
            r@ == sha256_of(data@),
            r@.len() == 32,
    {
        Digest { bytes: sha256(data), tag: PhantomData }
    }

    /// The digest of nothing: that of the empty byte string.
    pub fn empty() -> (r: Digest<Tag>)
        ensures
            r@ == sha256_of(Seq::<u8>::empty()),
            r@.len() == 32,
    {
        let none: Vec<u8> = Vec::new();
        Digest::from_bytes(none.as_slice())
    }

    /// A digest with the given raw bytes.
    pub fn from_raw(bytes: Vec<u8>) -> (r: Digest<Tag>)
        ensures
            r@ == bytes@,
    {
        Digest { bytes, tag: PhantomData }
    }

    /// The same bytes, read as the digest of another kind of value.
    pub fn cast<Other>(self) -> (r: Digest<Other>)
        ensures
            r@ == self@,
    {
        Digest { bytes: self.bytes, tag: PhantomData }
    }

    /// The raw bytes of the digest.
    pub fn get_bytes(&self) -> (r: &[u8])
        ensures
            r@ == self@,
    {
        self.bytes.as_slice()
    }

    /// A copy of the raw bytes of the digest.
    pub fn to_vec(&self) -> (r: Vec<u8>)
        ensures
            r@ == self@,
    {
        self.bytes.clone()
    }

    pub fn clone_digest(&self) -> (r: Digest<Tag>)
        ensures
            r@ == self@,
    {
        Digest { bytes: self.bytes.clone(), tag: PhantomData }
    }
}

impl<Tag> Clone for Digest<Tag> {
    fn clone(&self) -> (r: Digest<Tag>)
        ensures
            r@ == self@,
    {
        self.clone_digest()
    }
}

impl<Tag> PartialEq for Digest<Tag> {
    fn eq(&self, other: &Digest<Tag>) -> (r: bool) {
        bytes_equal(self.bytes.as_slice(), other.bytes.as_slice())
    }
}

impl<Tag> vstd::std_specs::cmp::PartialEqSpecImpl for Digest<Tag> {
    open spec fn obeys_eq_spec() -> bool {
        true
    }

    open spec fn eq_spec(&self, other: &Digest<Tag>) -> bool {
        self@ == other@
    }
}

impl<Tag> Eq for Digest<Tag> {}

/// Whether two byte strings are equal.
pub fn bytes_equal(a: &[u8], b: &[u8]) -> (r: bool)
    ensures
        r == (a@ == b@),
{
    if a.len() != b.len() {
        return false;
    }
    let mut i: usize = 0;
    while i < a.len()
        invariant
            a@.len() == b@.len(),
            0 <= i <= a@.len(),
            a@.subrange(0, i as int) == b@.subrange(0, i as int),
        decreases a@.len() - i,
    {
        if a[i] != b[i] {
            assert(a@.subrange(0, i as int + 1)[i as int] != b@.subrange(0, i as int + 1)[i as int]);
            assert(a@ != b@) by {
                if a@ == b@ {
                    assert(a@[i as int] == b@[i as int]);
                }
            }
            return false;
        }
        assert(a@.subrange(0, i as int + 1) =~= a@.subrange(0, i as int).push(a@[i as int]));
        assert(b@.subrange(0, i as int + 1) =~= b@.subrange(0, i as int).push(b@[i as int]));
        i = i + 1;
    }
    assert(a@ =~= a@.subrange(0, a@.len() as int));
    assert(b@ =~= b@.subrange(0, b@.len() as int));
    true
}

/// Anything with a digest of its own content.
pub trait Hashable: Sized {
    /// The bytes of this value's digest.
    spec fn digest_spec(&self) -> Seq<u8>;

    fn hash(&self) -> (r: Digest<Self>)
        ensures
            r@ == self.digest_spec(),
    ;
}

/// The digest that combines the digests of a record's fields, in order.
pub open spec fn combine(parts: Seq<u8>) -> Seq<u8> {
    sha256_of(parts)
}

impl<Tag> Hashable for Digest<Tag> {
    open spec fn digest_spec(&self) -> Seq<u8> {
        self@
    }

    fn hash(&self) -> (r: Digest<Digest<Tag>>) {
        self.clone_digest().cast()
    }
}

impl Hashable for u8 {
    open spec fn digest_spec(&self) -> Seq<u8> {
        sha256_of(seq![*self])
    }

    fn hash(&self) -> (r: Digest<Self>) {
        let b = vec![*self];
        assert(b@ =~= seq![*self]);
        Digest::from_bytes(b.as_slice())
    }
}

impl Hashable for u64 {
    open spec fn digest_spec(&self) -> Seq<u8> {
        sha256_of(be_u64(*self))
    }

    fn hash(&self) -> (r: Digest<Self>) {
        let b = u64_to_be(*self);
        Digest::from_bytes(b.as_slice())
    }
}

impl Hashable for u128 {
    open spec fn digest_spec(&self) -> Seq<u8> {
        sha256_of(be_u128(*self))
    }

    fn hash(&self) -> (r: Digest<Self>) {
        let b = u128_to_be(*self);
        Digest::from_bytes(b.as_slice())
    }
}

impl Hashable for Vec<u8> {
    open spec fn digest_spec(&self) -> Seq<u8> {
        sha256_of(self@)
    }

    fn hash(&self) -> (r: Digest<Self>) {
        Digest::from_bytes(self.as_slice())
    }
}

} // verus!
