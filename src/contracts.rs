use vstd::prelude::*;
use crate::codec::{
    b58_decode, b58_decode_of, b58_encode, b58_encode_of, join, join_from, lemma_b58_word,
    lemma_words_are_words, lemma_words_join, lemma_words_single, lemma_words_split, space_join,
    split_words, texts, words,
};
use crate::digest::{
    Digest, Hashable, be_u128, bytes_equal, combine, lemma_be_u128_round_trip,
    sha256_of, u128_to_be,
};
use crate::serialize::Serializable;

verus! {

/// Whether the bytes are the protobuf encoding of a public key.
pub uninterp spec fn public_key_ok(bytes: Seq<u8>) -> bool;

/// Whether `sig` is a valid signature of `msg` under the public key encoded as `key`.
pub uninterp spec fn signature_ok(key: Seq<u8>, msg: Seq<u8>, sig: Seq<u8>) -> bool;

#[verifier::external_type_specification]
#[verifier::external_body]
pub struct ExKeypair(libp2p::identity::Keypair);

/// Relies on libp2p's `PublicKey::try_decode_protobuf`: whether the bytes decode as a public key.
#[verifier::external_body]
fn check_public_key(bytes: &[u8]) -> (r: bool)
    ensures
        r == public_key_ok(bytes@),
{
    libp2p::identity::PublicKey::try_decode_protobuf(bytes).is_ok()
}

/// Relies on libp2p's `PublicKey::verify` on the key that `PublicKey::try_decode_protobuf`
/// reads from `key`: whether `sig` signs `msg`; false where `key` is no key.
#[verifier::external_body]
fn verify_signature(key: &[u8], msg: &[u8], sig: &[u8]) -> (r: bool)
    ensures
        r == signature_ok(key@, msg@, sig@),
{
    match libp2p::identity::PublicKey::try_decode_protobuf(key) {
        Ok(k) => k.verify(msg, sig),
        Err(_) => false,
    }
}

/// Relies on libp2p's `Keypair::generate_ed25519`: a fresh random Ed25519 key pair.
#[verifier::external_body]
fn generate_keypair() -> (r: libp2p::identity::Keypair) {
    libp2p::identity::Keypair::generate_ed25519()
}

/// Relies on libp2p's `Keypair::public` and `PublicKey::encode_protobuf`: the protobuf
/// encoding of the pair's public key, which is not empty and decodes as a public key.
#[verifier::external_body]
fn keypair_public(keypair: &libp2p::identity::Keypair) -> (r: Vec<u8>)
    ensures
        r@.len() > 0,
        public_key_ok(r@),
{
    keypair.public().encode_protobuf()
}

/// Relies on libp2p's `Keypair::sign`, which for an Ed25519 pair (the only kind built here)
/// always succeeds with a 64-byte signature that verifies under the pair's public key, and on
/// `Keypair::public` and `PublicKey::encode_protobuf` for that key's encoding.
#[verifier::external_body]
fn keypair_sign(keypair: &libp2p::identity::Keypair, msg: &[u8]) -> (r: (Vec<u8>, Vec<u8>))
    ensures
        r.0@.len() > 0,
        public_key_ok(r.0@),
        r.1@.len() == 64,
        signature_ok(r.0@, msg@, r.1@),
{
    (keypair.public().encode_protobuf(), keypair.sign(msg).expect("an Ed25519 key pair always signs"))
}

/// Relies on `Instant::elapsed`: the milliseconds measured at signing time.
#[verifier::external_body]
fn signing_time() -> (r: u128) {
    std::time::Instant::now().elapsed().as_millis()
}

/// A public key, held as its protobuf encoding.
pub struct PublicKey {
    key: Vec<u8>,
}

impl View for PublicKey {
    type V = Seq<u8>;

    closed spec fn view(&self) -> Seq<u8> {
        self.key@
    }
}

impl PublicKey {
    /// Whether `sig` is a valid signature of `msg` under this key.
    fn verify_bytes(&self, msg: &[u8], sig: &[u8]) -> (r: bool)
        ensures
            r == signature_ok(self@, msg@, sig@),
    {
        verify_signature(self.key.as_slice(), msg, sig)
    }

    pub fn clone_key(&self) -> (r: PublicKey)
        ensures
            r@ == self@,
    {
        PublicKey { key: self.key.clone() }
    }
}

impl PartialEq for PublicKey {
    fn eq(&self, other: &PublicKey) -> (r: bool) {
        bytes_equal(self.key.as_slice(), other.key.as_slice())
    }
}

impl vstd::std_specs::cmp::PartialEqSpecImpl for PublicKey {
    open spec fn obeys_eq_spec() -> bool {
        true
    }

    open spec fn eq_spec(&self, other: &PublicKey) -> bool {
        self@ == other@
    }
}

impl Eq for PublicKey {}

impl Hashable for PublicKey {
    open spec fn digest_spec(&self) -> Seq<u8> {
        sha256_of(self@)
    }

    fn hash(&self) -> (r: Digest<Self>) {
        Digest::from_bytes(self.key.as_slice())
    }
}

impl Serializable for PublicKey {
    open spec fn valid(&self) -> bool {
        self@.len() > 0 && public_key_ok(self@)
    }

    open spec fn encoding(v: Seq<u8>) -> Seq<char> {
        b58_encode_of(v)
    }

    open spec fn decoding(s: Seq<char>) -> Option<Seq<u8>> {
        match b58_decode_of(s) {
            Some(b) => if b.len() > 0 && public_key_ok(b) { Some(b) } else { None },
            None => None,
        }
    }

    fn serialize(&self) -> (r: String) {
        let r = b58_encode(self.key.as_slice());
        proof {
            if self.valid() {
                lemma_b58_word(r@);
                lemma_words_single(r@);
            }
        }
        r
    }

    fn deserialize(input: String) -> (r: Option<PublicKey>) {
        match b58_decode(input.as_str()) {
            Some(b) => if b.len() > 0 && check_public_key(b.as_slice()) {
                Some(PublicKey { key: b })
            } else {
                None
            },
            None => None,
        }
    }
}

/// A user's identity: the digest of their public key.
pub type UserId = Digest<PublicKey>;

/// The bytes a contract's signature covers: the content's digest, then the big-endian timestamp.
pub open spec fn signed_message(content_digest: Seq<u8>, timestamp: u128) -> Seq<u8> {
    content_digest + be_u128(timestamp)
}

fn message_bytes<Tag>(content_digest: &Digest<Tag>, timestamp: u128) -> (r: Vec<u8>)
    ensures
        r@ == signed_message(content_digest@, timestamp),
{
    let mut bytes = content_digest.to_vec();
    let mut ts = u128_to_be(timestamp);
    bytes.append(&mut ts);
    bytes
}

/// Signing key material, generated fresh and held in memory only.
pub struct PrivateKey {
    keypair: libp2p::identity::Keypair,
    public: Vec<u8>,
}

impl PrivateKey {
    #[verifier::type_invariant]
    closed spec fn wf(&self) -> bool {
        self.public@.len() > 0 && public_key_ok(self.public@)
    }

    /// The encoding of the matching public key.
    pub closed spec fn public_spec(&self) -> Seq<u8> {
        self.public@
    }

    /// A fresh random key.
    pub fn generate() -> (r: PrivateKey) {
        let keypair = generate_keypair();
        let public = keypair_public(&keypair);
        PrivateKey { keypair, public }
    }

    /// The matching public key.
    pub fn get_public(&self) -> (r: PublicKey)
        ensures
            r@ == self.public_spec(),
            r.valid(),
    {
        proof {
            use_type_invariant(self);
        }
        PublicKey { key: self.public.clone() }
    }

    /// Signs `content` as of the current signing time: the contract verifies.
    pub fn sign<T: Hashable>(&self, content: T) -> (r: Contract<T>)
        ensures
            r.is_signed(),
            r.signee.valid(),
            r.signature_spec().len() == 64,
            r.content == content,
    {
        let timestamp = signing_time();
        self.sign_at(content, timestamp)
    }

    /// Signs `content` as of `timestamp`: the contract verifies.
    pub fn sign_at<T: Hashable>(&self, content: T, timestamp: u128) -> (r: Contract<T>)
        ensures
            r.is_signed(),
            r.signee.valid(),
            r.signature_spec().len() == 64,
            r.timestamp == timestamp,
            r.content == content,
    {
        let digest = content.hash();
        let msg = message_bytes(&digest, timestamp);
        let (key, signature) = self.sign_bytes(msg.as_slice());
        Contract { signee: PublicKey { key }, signature, timestamp, content }
    }

    /// The public key's encoding and the signature of `msg`, which verifies under it.
    fn sign_bytes(&self, msg: &[u8]) -> (r: (Vec<u8>, Vec<u8>))
        ensures
            r.0@.len() > 0,
            public_key_ok(r.0@),
            r.1@.len() == 64,
            signature_ok(r.0@, msg@, r.1@),
    {
        keypair_sign(&self.keypair, msg)
    }
}

/// A payload bundled with its signer's public key, a signature and a timestamp.
pub struct Contract<T> {
    pub signee: PublicKey,
    pub signature: Vec<u8>,
    pub timestamp: u128,
    pub content: T,
}

impl<T: View> View for Contract<T> {
    type V = (Seq<u8>, Seq<u8>, u128, T::V);

    open spec fn view(&self) -> Self::V {
        (self.signee@, self.signature_spec(), self.timestamp, self.content@)
    }
}

impl<T> Contract<T> {
    /// The signature bytes.
    pub open spec fn signature_spec(&self) -> Seq<u8> {
        self.signature@
    }

    /// A copy of the signature bytes.
    pub fn signature(&self) -> (r: Vec<u8>)
        ensures
            r@ == self.signature_spec(),
    {
        self.signature.clone()
    }
}

impl<T: Hashable> Contract<T> {
    /// Whether the signature covers the content's digest and the timestamp under the signee's key.
    pub open spec fn is_signed(&self) -> bool {
        signature_ok(
            self.signee@,
            signed_message(self.content.digest_spec(), self.timestamp),
            self.signature_spec(),
        )
    }

    /// Checks the signature; true exactly when the contract is signed as it stands.
    pub fn verify(&self) -> (r: bool)
        ensures
            r == self.is_signed(),
    {
        let digest = self.content.hash();
        let msg = message_bytes(&digest, self.timestamp);
        self.signee.verify_bytes(msg.as_slice(), self.signature.as_slice())
    }
}

/// The digest of a contract: over the digests of its signee, signature, timestamp and content.
pub open spec fn contract_digest(
    signee: Seq<u8>,
    signature: Seq<u8>,
    timestamp: u128,
    content_digest: Seq<u8>,
) -> Seq<u8> {
    combine(sha256_of(signee) + sha256_of(signature) + sha256_of(be_u128(timestamp)) + content_digest)
}

impl<T: Hashable> Hashable for Contract<T> {
    open spec fn digest_spec(&self) -> Seq<u8> {
        contract_digest(self.signee@, self.signature_spec(), self.timestamp, self.content.digest_spec())
    }

    fn hash(&self) -> (r: Digest<Self>) {
        let mut parts = self.signee.hash().to_vec();
        let mut s = self.signature.hash().to_vec();
        let mut t = self.timestamp.hash().to_vec();
        let mut c = self.content.hash().to_vec();
        parts.append(&mut s);
        parts.append(&mut t);
        parts.append(&mut c);
        Digest::from_bytes(parts.as_slice())
    }
}

/// The text of a contract: its signee, signature and timestamp tokens, then its content's text.
pub open spec fn contract_text(
    signee: Seq<char>,
    signature: Seq<char>,
    timestamp: Seq<char>,
    content: Seq<char>,
) -> Seq<char> {
    signee + seq![' '] + signature + seq![' '] + timestamp + seq![' '] + content
}

impl<T: Hashable + Serializable> Contract<T> {
    /// The text of the contract; for a valid one, its first three words are the signee,
    /// signature and timestamp tokens and the rest are the content's words.
    pub fn text(&self) -> (r: String)
        ensures
            r@ == Self::encoding(self@),
            self.valid() ==> Self::decoding(r@) == Some(self@),
            self.valid() ==> Self::decoding(join(words(r@))) == Some(self@),
            self.valid() ==> words(r@).len() >= 3 && words(r@).subrange(3, words(r@).len() as int)
                == words(T::encoding(self.content@)),
    {
        let e0 = b58_encode(self.signee.key.as_slice());
        let e1 = b58_encode(self.signature.as_slice());
        let ts = u128_to_be(self.timestamp);
        let e2 = b58_encode(ts.as_slice());
        let e3 = self.content.serialize();
        let a = space_join(e0, e1.as_str());
        let b = space_join(a, e2.as_str());
        let r = space_join(b, e3.as_str());
        proof {
            assert(r@ =~= Self::encoding(self@));
            if self.valid() {
                lemma_be_u128_round_trip(self.timestamp);
                lemma_b58_word(e0@);
                lemma_b58_word(e1@);
                lemma_b58_word(e2@);
                lemma_words_single(e0@);
                lemma_words_single(e1@);
                lemma_words_single(e2@);
                lemma_words_split(e0@, e1@);
                lemma_words_split(a@, e2@);
                lemma_words_split(b@, e3@);
                let ws = words(r@);
                assert(ws =~= seq![e0@, e1@, e2@] + words(e3@));
                assert(ws.subrange(3, ws.len() as int) =~= words(e3@));
                assert(Self::decoding(r@) == Some(self@));
                lemma_words_are_words(r@);
                lemma_words_join(ws);
            }
        }
        r
    }
}

impl<T: Hashable + Serializable> Serializable for Contract<T> {
    open spec fn valid(&self) -> bool {
        self.signee.valid() && self.signature_spec().len() > 0 && self.content.valid()
    }

    open spec fn encoding(v: Self::V) -> Seq<char> {
        contract_text(
            <PublicKey as Serializable>::encoding(v.0),
            <Vec<u8> as Serializable>::encoding(v.1),
            <u128 as Serializable>::encoding(v.2),
            T::encoding(v.3),
        )
    }

    open spec fn decoding(s: Seq<char>) -> Option<Self::V> {
        let ws = words(s);
        if ws.len() < 3 {
            None
        } else {
            match (
                <PublicKey as Serializable>::decoding(ws[0]),
                <Vec<u8> as Serializable>::decoding(ws[1]),
                <u128 as Serializable>::decoding(ws[2]),
                T::decoding(join(ws.subrange(3, ws.len() as int))),
            ) {
                (Some(a), Some(b), Some(c), Some(d)) => if b.len() > 0 {
                    Some((a, b, c, d))
                } else {
                    None
                },
                _ => None,
            }
        }
    }

    fn serialize(&self) -> (r: String) {
        self.text()
    }

    fn deserialize(input: String) -> (r: Option<Contract<T>>) {
        let ws = split_words(input.as_str());
        if ws.len() < 3 {
            return None;
        }
        let ghost t = texts(ws@);
        assert(t[0] == ws@[0]@ && t[1] == ws@[1]@ && t[2] == ws@[2]@);
        let signee = match PublicKey::deserialize(ws[0].clone()) {
            Some(k) => k,
            None => return None,
        };
        let signature = match <Vec<u8> as Serializable>::deserialize(ws[1].clone()) {
            Some(s) => s,
            None => return None,
        };
        if signature.len() == 0 {
            return None;
        }
        let timestamp = match u128::deserialize(ws[2].clone()) {
            Some(t) => t,
            None => return None,
        };
        let rest = join_from(&ws, 3);
        let content = match T::deserialize(rest) {
            Some(c) => c,
            None => return None,
        };
        Some(Contract { signee, signature, timestamp, content })
    }
}

} // verus!
