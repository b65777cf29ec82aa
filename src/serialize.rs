use vstd::prelude::*;
use crate::codec::{
    b58_decode, b58_decode_of, b58_encode, b58_encode_of, join, lemma_b58_word, lemma_words_single,
    words,
};
use crate::digest::{
    Digest, be_u64, be_u128, from_be_u64, from_be_u128, lemma_be_u64_round_trip,
    lemma_be_u128_round_trip, u128_from_be, u128_to_be, u64_from_be, u64_to_be,
};

verus! {

/// A value with a reversible text encoding.
pub trait Serializable: Sized + View {
    /// Whether the value is one that its decoder can produce.
    spec fn valid(&self) -> bool;

    /// The text of a value.
    spec fn encoding(v: Self::V) -> Seq<char>;

    /// The value that a text stands for, if any.
    spec fn decoding(s: Seq<char>) -> Option<Self::V>;

    /// The text of the value; a valid value is decoded back from it.
    fn serialize(&self) -> (r: String)
        ensures
            r@ == Self::encoding(self@),
            self.valid() ==> Self::decoding(r@) == Some(self@),
            self.valid() ==> Self::decoding(join(words(r@))) == Some(self@),
    ;

    fn deserialize(input: String) -> (r: Option<Self>)
        ensures
            match r {
                Some(v) => Self::decoding(input@) == Some(v@) && v.valid(),
                None => Self::decoding(input@) is None,
            },
    ;
}

/// Base-58 text is its own single word, or no word at all when empty.
proof fn token_normal(t: Seq<char>)
    requires
        forall|i: int| 0 <= i < t.len() ==> crate::codec::is_b58_char(#[trigger] t[i]),
    ensures
        join(words(t)) == t,
{
    if t.len() > 0 {
        lemma_b58_word(t);
        lemma_words_single(t);
    } else {
        assert(words(t) =~= Seq::<Seq<char>>::empty());
        assert(t =~= Seq::<char>::empty());
    }
}

impl Serializable for u64 {
    open spec fn valid(&self) -> bool {
        true
    }

    open spec fn encoding(v: u64) -> Seq<char> {
        b58_encode_of(be_u64(v))
    }

    open spec fn decoding(s: Seq<char>) -> Option<u64> {
        match b58_decode_of(s) {
            Some(b) => if b.len() == 8 { Some(from_be_u64(b)) } else { None },
            None => None,
        }
    }

    fn serialize(&self) -> (r: String) {
        let b = u64_to_be(*self);
        proof {
            lemma_be_u64_round_trip(*self);
        }
        let r = b58_encode(b.as_slice());
        proof {
            token_normal(r@);
        }
        r
    }

    fn deserialize(input: String) -> (r: Option<u64>) {
        match b58_decode(input.as_str()) {
            Some(b) => if b.len() == 8 { Some(u64_from_be(b.as_slice())) } else { None },
            None => None,
        }
    }
}

impl Serializable for u128 {
    open spec fn valid(&self) -> bool {
        true
    }

    open spec fn encoding(v: u128) -> Seq<char> {
        b58_encode_of(be_u128(v))
    }

    open spec fn decoding(s: Seq<char>) -> Option<u128> {
        match b58_decode_of(s) {
            Some(b) => if b.len() == 16 { Some(from_be_u128(b)) } else { None },
            None => None,
        }
    }

    fn serialize(&self) -> (r: String) {
        let b = u128_to_be(*self);
        proof {
            lemma_be_u128_round_trip(*self);
        }
        let r = b58_encode(b.as_slice());
        proof {
            token_normal(r@);
        }
        r
    }

    fn deserialize(input: String) -> (r: Option<u128>) {
        match b58_decode(input.as_str()) {
            Some(b) => if b.len() == 16 { Some(u128_from_be(b.as_slice())) } else { None },
            None => None,
        }
    }
}

impl Serializable for Vec<u8> {
    open spec fn valid(&self) -> bool {
        true
    }

    open spec fn encoding(v: Seq<u8>) -> Seq<char> {
        b58_encode_of(v)
    }

    open spec fn decoding(s: Seq<char>) -> Option<Seq<u8>> {
        b58_decode_of(s)
    }

    fn serialize(&self) -> (r: String) {
        let r = b58_encode(self.as_slice());
        proof {
            token_normal(r@);
        }
        r
    }

    fn deserialize(input: String) -> (r: Option<Vec<u8>>) {
        b58_decode(input.as_str())
    }
}

impl<Tag> Serializable for Digest<Tag> {
    /// A digest is 32 bytes long.
    open spec fn valid(&self) -> bool {
        self@.len() == 32
    }

    open spec fn encoding(v: Seq<u8>) -> Seq<char> {
        b58_encode_of(v)
    }

    open spec fn decoding(s: Seq<char>) -> Option<Seq<u8>> {
        match b58_decode_of(s) {
            Some(b) => if b.len() == 32 { Some(b) } else { None },
            None => None,
        }
    }

    fn serialize(&self) -> (r: String) {
        let r = b58_encode(self.get_bytes());
        proof {
            token_normal(r@);
        }
        r
    }

    fn deserialize(input: String) -> (r: Option<Digest<Tag>>) {
        match b58_decode(input.as_str()) {
            Some(b) => if b.len() == 32 { Some(Digest::from_raw(b)) } else { None },
            None => None,
        }
    }
}

} // verus!
