//! Encoded keys and signatures.

use crate::text;
use crate::text_lemmas;
use base64::Engine;
use ed25519_dalek::{Signer, Verifier};
use vstd::prelude::*;

verus! {

// ---------------------------------------------------------------------------
// Base64
// ---------------------------------------------------------------------------

/// The character for six bits, in the alphabet for URLs.
pub open spec fn symbol(n: int) -> char {
    if n < 26 {
        (65 + n) as char
    } else if n < 52 {
        (71 + n) as char
    } else if n < 62 {
        (n - 4) as char
    } else if n == 62 {
        '-'
    } else {
        '_'
    }
}

/// The bytes in base64 with the alphabet for URLs, without padding: three bytes
/// make four characters, and what is left makes two or three.
pub open spec fn base64url(b: Seq<u8>) -> Seq<char>
    decreases b.len(),
{
    if b.len() == 0 {
        Seq::empty()
    } else if b.len() == 1 {
        seq![symbol(b[0] as int / 4), symbol((b[0] as int % 4) * 16)]
    } else if b.len() == 2 {
        seq![
            symbol(b[0] as int / 4),
            symbol((b[0] as int % 4) * 16 + b[1] as int / 16),
            symbol((b[1] as int % 16) * 4),
        ]
    } else {
        seq![
            symbol(b[0] as int / 4),
            symbol((b[0] as int % 4) * 16 + b[1] as int / 16),
            symbol((b[1] as int % 16) * 4 + b[2] as int / 64),
            symbol(b[2] as int % 64),
        ] + base64url(b.skip(3))
    }
}

/// The bytes that a text stands for, where it is their encoded form.
pub open spec fn decoded(s: Seq<char>) -> Option<Seq<u8>> {
    if exists|b: Seq<u8>| #[trigger] base64url(b) == s {
        Some(choose|b: Seq<u8>| #[trigger] base64url(b) == s)
    } else {
        None
    }
}

proof fn lemma_symbol(m: int, n: int)
    requires
        0 <= m < 64,
        0 <= n < 64,
        symbol(m) == symbol(n),
    ensures
        m == n,
{
}

/// How many characters the last group has, and how many in all.
proof fn lemma_length(b: Seq<u8>)
    ensures
        base64url(b).len() == b.len() / 3 * 4 + if b.len() % 3 == 0 {
            0
        } else {
            b.len() % 3 + 1
        },
    decreases b.len(),
{
    if b.len() >= 3 {
        lemma_length(b.skip(3));
    }
}

/// Two byte sequences with one encoded form are the same.
pub proof fn law_base64_is_unambiguous(a: Seq<u8>, b: Seq<u8>)
    requires
        base64url(a) == base64url(b),
    ensures
        a == b,
    decreases a.len(),
{
    lemma_length(a);
    lemma_length(b);
    assert(a.len() == b.len());
    let x = base64url(a);
    let y = base64url(b);
    if a.len() == 0 {
        assert(a =~= b);
    } else {
        assert(x[0] == symbol(a[0] as int / 4));
        assert(y[0] == symbol(b[0] as int / 4));
        lemma_symbol(a[0] as int / 4, b[0] as int / 4);
        if a.len() == 1 {
            assert(x[0] == y[0] && x[1] == y[1]);
            lemma_symbol((a[0] as int % 4) * 16, (b[0] as int % 4) * 16);
            assert(a =~= b);
        } else {
            assert(x[0] == y[0] && x[1] == y[1] && x[2] == y[2]);
            lemma_symbol(
                (a[0] as int % 4) * 16 + a[1] as int / 16,
                (b[0] as int % 4) * 16 + b[1] as int / 16,
            );
            if a.len() == 2 {
                lemma_symbol((a[1] as int % 16) * 4, (b[1] as int % 16) * 4);
                assert(a =~= b);
            } else {
                assert(x[3] == y[3]);
                lemma_symbol(
                    (a[1] as int % 16) * 4 + a[2] as int / 64,
                    (b[1] as int % 16) * 4 + b[2] as int / 64,
                );
                lemma_symbol(a[2] as int % 64, b[2] as int % 64);
                assert(x.skip(4) =~= base64url(a.skip(3)));
                assert(y.skip(4) =~= base64url(b.skip(3)));
                law_base64_is_unambiguous(a.skip(3), b.skip(3));
                assert forall|i: int| 0 <= i < a.len() implies a[i] == b[i] by {
                    if i >= 3 {
                        assert(a.skip(3)[i - 3] == b.skip(3)[i - 3]);
                    }
                }
                assert(a =~= b);
            }
        }
    }
}

/// Decoding gives back what was encoded.
pub proof fn law_base64_comes_back(b: Seq<u8>)
    ensures
        decoded(base64url(b)) == Some(b),
{
    let c = choose|c: Seq<u8>| #[trigger] base64url(c) == base64url(b);
    law_base64_is_unambiguous(c, b);
}

proof fn lemma_symbol_is_no_space(n: int)
    requires
        0 <= n < 64,
    ensures
        !text::is_space(symbol(n)),
{
}

proof fn lemma_no_space(b: Seq<u8>, i: int)
    requires
        0 <= i < base64url(b).len(),
    ensures
        !text::is_space(base64url(b)[i]),
    decreases b.len(),
{
    let x = base64url(b);
    lemma_symbol_is_no_space(b[0] as int / 4);
    if b.len() == 1 {
        lemma_symbol_is_no_space((b[0] as int % 4) * 16);
    } else {
        lemma_symbol_is_no_space((b[0] as int % 4) * 16 + b[1] as int / 16);
        if b.len() == 2 {
            lemma_symbol_is_no_space((b[1] as int % 16) * 4);
        } else {
            lemma_symbol_is_no_space((b[1] as int % 16) * 4 + b[2] as int / 64);
            lemma_symbol_is_no_space(b[2] as int % 64);
            if i >= 4 {
                assert(x[i] == base64url(b.skip(3))[i - 4]);
                lemma_no_space(b.skip(3), i - 4);
            }
        }
    }
}

/// An encoded form has no white space around it.
pub proof fn law_base64_is_trimmed(b: Seq<u8>)
    ensures
        text::trim(base64url(b)) == base64url(b),
{
    let x = base64url(b);
    if x.len() > 0 {
        lemma_no_space(b, 0);
        lemma_no_space(b, x.len() - 1);
    }
    text_lemmas::lemma_trim_noop(x, text::space());
}

/// Calls `base64::engine::general_purpose::URL_SAFE_NO_PAD.encode`, which
/// writes the bytes in the alphabet for URLs without padding.
#[verifier::external_body]
fn url_safe_encode(bytes: &[u8]) -> (r: String)
    ensures
        r@ == base64url(bytes@),
{
    base64::engine::general_purpose::URL_SAFE_NO_PAD.encode(bytes)
}

/// Calls `base64::engine::general_purpose::URL_SAFE_NO_PAD.decode`. It takes
/// only the encoded form itself: no padding, no other characters, and no bits
/// left over at the end.
#[verifier::external_body]
fn url_safe_decode(text: &str) -> (r: Option<Vec<u8>>)
    ensures
        match r {
            Some(b) => base64url(b@) == text@,
            None => forall|b: Seq<u8>| #[trigger] base64url(b) != text@,
        },
{
    base64::engine::general_purpose::URL_SAFE_NO_PAD.decode(text).ok()
}

/// The bytes in base64 for URLs.
pub fn encode_base64(bytes: &[u8]) -> (r: String)
    ensures
        r@ == base64url(bytes@),
{
    url_safe_encode(bytes)
}

/// The bytes that a text stands for.
pub fn decode_base64(text: &str) -> (r: Option<Vec<u8>>)
    ensures
        match r {
            Some(b) => decoded(text@) == Some(b@),
            None => decoded(text@) is None,
        },
{
    let r = url_safe_decode(text);
    proof {
        if r is Some {
            law_base64_comes_back(r.unwrap()@);
        }
    }
    r
}

// ---------------------------------------------------------------------------
// Ed25519
// ---------------------------------------------------------------------------

/// Bytes of a private or a public key.
pub const KEY_BYTES: usize = 32;

/// Bytes of a signature.
pub const SIGNATURE_BYTES: usize = 64;

/// The public key that `ed25519_dalek::SigningKey` derives from a private key.
pub uninterp spec fn public_key(private: Seq<u8>) -> Seq<u8>;

/// Whether `ed25519_dalek::VerifyingKey::from_bytes` takes the bytes.
pub uninterp spec fn is_public_key(bytes: Seq<u8>) -> bool;

/// The signature that `ed25519_dalek::SigningKey::sign` makes.
pub uninterp spec fn signature(private: Seq<u8>, message: Seq<char>) -> Seq<u8>;

/// Whether `ed25519_dalek::VerifyingKey::verify` accepts the signature.
pub uninterp spec fn accepts(public: Seq<u8>, message: Seq<char>, signature: Seq<u8>) -> bool;

/// Calls `ed25519_dalek::SigningKey::from_bytes` and takes the bytes of its
/// verifying key, which is always a valid public key.
#[verifier::external_body]
fn derive_public_key(private: &[u8; 32]) -> (r: [u8; 32])
    ensures
        r@ == public_key(private@),
        is_public_key(r@),
{
    ed25519_dalek::SigningKey::from_bytes(private).verifying_key().to_bytes()
}

/// Calls `ed25519_dalek::VerifyingKey::from_bytes` and tells whether it takes
/// the bytes. The answer depends on them alone.
#[verifier::external_body]
fn takes_public_key(bytes: &[u8; 32]) -> (r: bool)
    ensures
        r == is_public_key(bytes@),
{
    ed25519_dalek::VerifyingKey::from_bytes(bytes).is_ok()
}

/// Calls `ed25519_dalek::SigningKey::sign` on the bytes of the message. The
/// signature depends on the key and the message alone, and the public key of
/// the private one accepts it.
#[verifier::external_body]
fn sign_message(private: &[u8; 32], message: &str) -> (r: [u8; 64])
    ensures
        r@ == signature(private@, message@),
        accepts(public_key(private@), message@, r@),
{
    ed25519_dalek::SigningKey::from_bytes(private).sign(message.as_bytes()).to_bytes()
}

/// Calls `ed25519_dalek::VerifyingKey::verify` on the bytes of the message. The
/// answer depends on the key, the message and the signature alone.
#[verifier::external_body]
fn verify_message(public: &[u8; 32], message: &str, signature: &[u8; 64]) -> (r: bool)
    requires
        is_public_key(public@),
    ensures
        r == accepts(public@, message@, signature@),
{
    ed25519_dalek::VerifyingKey::from_bytes(public)
        .expect("the bytes are a public key")
        .verify(message.as_bytes(), &ed25519_dalek::Signature::from_bytes(signature))
        .is_ok()
}

fn key_array(bytes: &[u8]) -> (r: [u8; 32])
    requires
        bytes@.len() == 32,
    ensures
        r@ == bytes@,
{
    let mut out: [u8; 32] = [0u8; 32];
    let mut i: usize = 0;
    while i < 32
        invariant
            i <= 32,
            bytes@.len() == 32,
            forall|j: int| 0 <= j < i ==> out@[j] == bytes@[j],
        decreases 32 - i,
    {
        out[i] = bytes[i];
        i += 1;
    }
    assert(out@ =~= bytes@);
    out
}

fn signature_array(bytes: &[u8]) -> (r: [u8; 64])
    requires
        bytes@.len() == 64,
    ensures
        r@ == bytes@,
{
    let mut out: [u8; 64] = [0u8; 64];
    let mut i: usize = 0;
    while i < 64
        invariant
            i <= 64,
            bytes@.len() == 64,
            forall|j: int| 0 <= j < i ==> out@[j] == bytes@[j],
        decreases 64 - i,
    {
        out[i] = bytes[i];
        i += 1;
    }
    assert(out@ =~= bytes@);
    out
}

/// A private key.
pub struct PrivateKey {
    bytes: [u8; 32],
}

impl PrivateKey {
    /// The bytes of the key.
    pub closed spec fn bytes(self) -> Seq<u8> {
        self.bytes@
    }

    /// The key with these bytes, where there are as many as it takes.
    pub fn from_bytes(bytes: &[u8]) -> (r: Option<PrivateKey>)
        ensures
            match r {
                Some(key) => bytes@.len() == KEY_BYTES && key.bytes() == bytes@,
                None => bytes@.len() != KEY_BYTES,
            },
    {
        if bytes.len() != KEY_BYTES {
            return None;
        }
        Some(PrivateKey { bytes: key_array(bytes) })
    }

    /// The public key that belongs to it.
    pub fn public(&self) -> (r: PublicKey)
        ensures
            r.bytes() == public_key(self.bytes()),
    {
        PublicKey { bytes: derive_public_key(&self.bytes) }
    }

    /// The signature of a message, encoded.
    pub fn sign(&self, message: &str) -> (r: String)
        ensures
            r@ == base64url(signature(self.bytes(), message@)),
            signature(self.bytes(), message@).len() == SIGNATURE_BYTES,
            accepts(public_key(self.bytes()), message@, signature(self.bytes(), message@)),
    {
        let made = sign_message(&self.bytes, message);
        encode_base64(made.as_slice())
    }
}

/// A valid public key.
pub struct PublicKey {
    bytes: [u8; 32],
}

impl PublicKey {
    /// The bytes of the key.
    pub closed spec fn bytes(self) -> Seq<u8> {
        self.bytes@
    }

    #[verifier::type_invariant]
    spec fn valid(self) -> bool {
        is_public_key(self.bytes@)
    }

    /// The key with these bytes, where they are one.
    pub fn from_bytes(bytes: &[u8]) -> (r: Option<PublicKey>)
        ensures
            match r {
                Some(key) => bytes@.len() == KEY_BYTES && is_public_key(bytes@) && key.bytes()
                    == bytes@,
                None => bytes@.len() != KEY_BYTES || !is_public_key(bytes@),
            },
    {
        if bytes.len() != KEY_BYTES {
            return None;
        }
        let array = key_array(bytes);
        if takes_public_key(&array) {
            Some(PublicKey { bytes: array })
        } else {
            None
        }
    }

    /// The key, encoded.
    pub fn encoded(&self) -> (r: String)
        ensures
            r@ == base64url(self.bytes()),
    {
        encode_base64(self.bytes.as_slice())
    }

    /// Whether the key accepts the signature of a message.
    pub fn verify(&self, message: &str, signature: &[u8]) -> (r: bool)
        requires
            signature@.len() == SIGNATURE_BYTES,
        ensures
            r == accepts(self.bytes(), message@, signature@),
    {
        proof {
            use_type_invariant(self);
        }
        let array = signature_array(signature);
        verify_message(&self.bytes, message, &array)
    }
}

} // verus!
