use vstd::prelude::*;
use crate::codec::{
    b58_encode, is_word, join, lemma_b58_word, lemma_words_are_words, lemma_words_join,
    lemma_words_single, lemma_words_split, space_join, split_words, text_equal, texts, words,
};
use crate::contracts::{Contract, UserId};
use crate::digest::{Digest, Hashable, combine, lemma_be_u64_round_trip, u64_to_be};
use crate::serialize::Serializable;

verus! {

/// The tag that starts the text of a license creation.
pub open spec fn creation_tag() -> Seq<char> {
    seq!['C', 'R', 'T']
}

/// The tag that starts the text of a license transfer.
pub open spec fn transfer_tag() -> Seq<char> {
    seq!['T', 'S', 'F']
}

/// An intent to mint a license; the seed tells otherwise equal creations apart.
#[derive(PartialEq, Eq, Structural)]
pub struct UnsignedLicenseCreation {
    pub seed: u64,
}

/// An intent to move an existing license to a recipient.
pub struct UnsignedLicenseTransfer {
    pub license: LicenseId,
    pub recipient: UserId,
}

/// A signed license creation.
pub type LicenseCreation = Contract<UnsignedLicenseCreation>;

/// A signed license transfer.
pub type LicenseTransfer = Contract<UnsignedLicenseTransfer>;

/// A license's identity: the digest of the whole signed contract that created it.
pub type LicenseId = Digest<LicenseCreation>;

/// The identity of the license that `creation` mints: the digest of the whole signed contract.
pub fn license_id(creation: &LicenseCreation) -> (r: LicenseId)
    ensures
        r@ == creation.digest_spec(),
{
    creation.hash()
}

impl View for UnsignedLicenseCreation {
    type V = u64;

    open spec fn view(&self) -> u64 {
        self.seed
    }
}

impl View for UnsignedLicenseTransfer {
    type V = (Seq<u8>, Seq<u8>);

    open spec fn view(&self) -> (Seq<u8>, Seq<u8>) {
        (self.license@, self.recipient@)
    }
}

impl Hashable for UnsignedLicenseCreation {
    open spec fn digest_spec(&self) -> Seq<u8> {
        combine(self.seed.digest_spec())
    }

    fn hash(&self) -> (r: Digest<Self>) {
        let d = self.seed.hash().to_vec();
        Digest::from_bytes(d.as_slice())
    }
}

impl Hashable for UnsignedLicenseTransfer {
    open spec fn digest_spec(&self) -> Seq<u8> {
        combine(self.license@ + self.recipient@)
    }

    fn hash(&self) -> (r: Digest<Self>) {
        let mut parts = self.license.to_vec();
        let mut rest = self.recipient.to_vec();
        parts.append(&mut rest);
        Digest::from_bytes(parts.as_slice())
    }
}

/// Each tag is a word.
proof fn lemma_tag_word(t: Seq<char>)
    requires
        t == creation_tag() || t == transfer_tag(),
    ensures
        is_word(t),
{
}

fn tag_text(creation: bool) -> (r: String)
    ensures
        r@ == if creation { creation_tag() } else { transfer_tag() },
{
    proof {
        reveal_strlit("CRT");
        reveal_strlit("TSF");
    }
    if creation {
        let r = "CRT".to_owned();
        assert(r@ =~= creation_tag());
        r
    } else {
        let r = "TSF".to_owned();
        assert(r@ =~= transfer_tag());
        r
    }
}

fn is_tag(w: &String, creation: bool) -> (r: bool)
    ensures
        r == (w@ == if creation { creation_tag() } else { transfer_tag() }),
{
    let t = tag_text(creation);
    text_equal(w.as_str(), t.as_str())
}

impl Serializable for UnsignedLicenseCreation {
    open spec fn valid(&self) -> bool {
        true
    }

    open spec fn encoding(v: u64) -> Seq<char> {
        creation_tag() + seq![' '] + <u64 as Serializable>::encoding(v)
    }

    open spec fn decoding(s: Seq<char>) -> Option<u64> {
        let ws = words(s);
        if ws.len() >= 2 && ws[0] == creation_tag() {
            <u64 as Serializable>::decoding(ws[1])
        } else {
            None
        }
    }

    fn serialize(&self) -> (r: String) {
        let b = u64_to_be(self.seed);
        let e = b58_encode(b.as_slice());
        let r = space_join(tag_text(true), e.as_str());
        proof {
            lemma_be_u64_round_trip(self.seed);
            lemma_b58_word(e@);
            lemma_words_single(e@);
            lemma_tag_word(creation_tag());
            lemma_words_single(creation_tag());
            lemma_words_split(creation_tag(), e@);
            let ws = words(r@);
            assert(ws =~= seq![creation_tag(), e@]);
            lemma_words_are_words(r@);
            lemma_words_join(ws);
        }
        r
    }

    fn deserialize(input: String) -> (r: Option<UnsignedLicenseCreation>) {
        let ws = split_words(input.as_str());
        if ws.len() < 2 {
            return None;
        }
        let ghost t = texts(ws@);
        assert(t[0] == ws@[0]@ && t[1] == ws@[1]@);
        if !is_tag(&ws[0], true) {
            return None;
        }
        match u64::deserialize(ws[1].clone()) {
            Some(seed) => Some(UnsignedLicenseCreation { seed }),
            None => None,
        }
    }
}

impl Serializable for UnsignedLicenseTransfer {
    open spec fn valid(&self) -> bool {
        self.license.valid() && self.recipient.valid()
    }

    open spec fn encoding(v: (Seq<u8>, Seq<u8>)) -> Seq<char> {
        transfer_tag() + seq![' '] + <LicenseId as Serializable>::encoding(v.0) + seq![' ']
            + <UserId as Serializable>::encoding(v.1)
    }

    open spec fn decoding(s: Seq<char>) -> Option<(Seq<u8>, Seq<u8>)> {
        let ws = words(s);
        if ws.len() >= 3 && ws[0] == transfer_tag() {
            match (<LicenseId as Serializable>::decoding(ws[1]), <UserId as Serializable>::decoding(ws[2])) {
                (Some(l), Some(r)) => Some((l, r)),
                _ => None,
            }
        } else {
            None
        }
    }

    fn serialize(&self) -> (r: String) {
        let e1 = b58_encode(self.license.get_bytes());
        let e2 = b58_encode(self.recipient.get_bytes());
        let a = space_join(tag_text(false), e1.as_str());
        let r = space_join(a, e2.as_str());
        proof {
            if self.valid() {
                lemma_b58_word(e1@);
                lemma_b58_word(e2@);
                lemma_words_single(e1@);
                lemma_words_single(e2@);
                lemma_tag_word(transfer_tag());
                lemma_words_single(transfer_tag());
                lemma_words_split(transfer_tag(), e1@);
                lemma_words_split(a@, e2@);
                let ws = words(r@);
                assert(ws =~= seq![transfer_tag(), e1@, e2@]);
                lemma_words_are_words(r@);
                lemma_words_join(ws);
            }
        }
        r
    }

    fn deserialize(input: String) -> (r: Option<UnsignedLicenseTransfer>) {
        let ws = split_words(input.as_str());
        if ws.len() < 3 {
            return None;
        }
        let ghost t = texts(ws@);
        assert(t[0] == ws@[0]@ && t[1] == ws@[1]@ && t[2] == ws@[2]@);
        if !is_tag(&ws[0], false) {
            return None;
        }
        let license = LicenseId::deserialize(ws[1].clone());
        let recipient = UserId::deserialize(ws[2].clone());
        match (license, recipient) {
            (Some(license), Some(recipient)) => Some(UnsignedLicenseTransfer { license, recipient }),
            _ => None,
        }
    }
}

/// The text of a transfer starts with its tag: its first word is not the creation tag.
pub proof fn lemma_transfer_text_first_word(v: (Seq<u8>, Seq<u8>))
    ensures
        words(join(words(UnsignedLicenseTransfer::encoding(v)))).len() > 0,
        words(join(words(UnsignedLicenseTransfer::encoding(v))))[0] == transfer_tag(),
{
    let e = UnsignedLicenseTransfer::encoding(v);
    let rest = <LicenseId as Serializable>::encoding(v.0) + seq![' '] + <UserId as Serializable>::encoding(
        v.1,
    );
    assert(e =~= transfer_tag() + seq![' '] + rest);
    lemma_tag_word(transfer_tag());
    lemma_words_single(transfer_tag());
    lemma_words_split(transfer_tag(), rest);
    lemma_words_are_words(e);
    lemma_words_join(words(e));
}

} // verus!
