//! Ed25519 keypair generation, signing and verification, delegated to
//! an audited implementation behind a small trusted boundary.
//!
//! Keys and signatures are held as their encoded bytes, so contracts
//! speak of plain byte strings: `vk_of` names the verifying key derived
//! from a secret key, `sig_of` the (deterministic) signature of a
//! message under a secret key, and `accepts` the verification outcome
//! for a key, message and signature triple.

use vstd::prelude::*;

use crate::hexcodec::hex_chars_of;

verus! {

/// Byte length of an encoded secret (signing) key.
pub const SECRET_KEY_LEN: usize = 32;

/// Byte length of an encoded public (verifying) key.
pub const PUBLIC_KEY_LEN: usize = 32;

/// Byte length of an encoded signature.
pub const SIGNATURE_LEN: usize = 64;

/// The verifying key derived from a 32-byte secret key.
pub uninterp spec fn vk_of(sk: Seq<u8>) -> Seq<u8>;

/// The signature of a message under a 32-byte secret key. Ed25519
/// signing is deterministic, so this is a function of the two alone.
pub uninterp spec fn sig_of(sk: Seq<u8>, msg: Seq<u8>) -> Seq<u8>;

/// The verification outcome for public-key bytes, a message and
/// signature bytes. Ed25519 verification is deterministic, so this is
/// a function of the three alone.
pub uninterp spec fn accepts(pk: Seq<u8>, msg: Seq<u8>, sig: Seq<u8>) -> bool;

/// Relies on `ed25519_dalek::SigningKey::generate` with `rand`'s
/// `OsRng`: it fills a 32-byte secret key from the operating system's
/// secure random source. Nothing is promised of the drawn bytes beyond
/// their length.
#[verifier::external_body]
fn generate_secret() -> (r: Vec<u8>)
    ensures
        r@.len() == SECRET_KEY_LEN,
{
    let mut csprng = rand::rngs::OsRng;
    let key = ed25519_dalek::SigningKey::generate(&mut csprng);
    key.to_bytes().to_vec()
}

/// Relies on `ed25519_dalek::SigningKey::verifying_key`: the verifying
/// key is derived from the secret key bytes alone and encodes to 32
/// bytes.
#[verifier::external_body]
fn derive_public(sk: &Vec<u8>) -> (r: Vec<u8>)
    requires
        sk@.len() == SECRET_KEY_LEN,
    ensures
        r@ == vk_of(sk@),
        r@.len() == PUBLIC_KEY_LEN,
{
    let arr: [u8; 32] = sk.as_slice().try_into().unwrap();
    let key = ed25519_dalek::SigningKey::from_bytes(&arr);
    key.verifying_key().to_bytes().to_vec()
}

/// Relies on `ed25519_dalek`'s `Signer::sign` for `SigningKey`:
/// Ed25519 signing is deterministic in the secret key and message,
/// never fails for a 32-byte key, returns a 64-byte signature, and that
/// signature verifies under the verifying key derived from the same
/// secret key.
#[verifier::external_body]
fn sign_bytes(sk: &Vec<u8>, msg: &Vec<u8>) -> (r: Vec<u8>)
    requires
        sk@.len() == SECRET_KEY_LEN,
    ensures
        r@ == sig_of(sk@, msg@),
        r@.len() == SIGNATURE_LEN,
        accepts(vk_of(sk@), msg@, r@),
{
    let arr: [u8; 32] = sk.as_slice().try_into().unwrap();
    let key = ed25519_dalek::SigningKey::from_bytes(&arr);
    let sig = ed25519_dalek::Signer::sign(&key, msg.as_slice());
    sig.to_bytes().to_vec()
}

/// Relies on `ed25519_dalek::VerifyingKey::from_bytes` and
/// `Verifier::verify`: the outcome depends on the key bytes, message
/// and signature bytes alone; bytes that decode to no valid key accept
/// no signature; a well-formed but wrong triple is a plain `false`,
/// never a panic.
#[verifier::external_body]
fn verify_bytes(pk: &Vec<u8>, msg: &Vec<u8>, sig: &Vec<u8>) -> (r: bool)
    requires
        pk@.len() == PUBLIC_KEY_LEN,
        sig@.len() == SIGNATURE_LEN,
    ensures
        r == accepts(pk@, msg@, sig@),
{
    let pk_arr: [u8; 32] = pk.as_slice().try_into().unwrap();
    let sig_arr: [u8; 64] = sig.as_slice().try_into().unwrap();
    match ed25519_dalek::VerifyingKey::from_bytes(&pk_arr) {
        Ok(key) => {
            let sig = ed25519_dalek::Signature::from_bytes(&sig_arr);
            ed25519_dalek::Verifier::verify(&key, msg.as_slice(), &sig).is_ok()
        },
        Err(_) => false,
    }
}

/// An encoded Ed25519 verifying key: 32 bytes.
pub struct PublicKey {
    bytes: Vec<u8>,
}

/// An encoded Ed25519 signature: 64 bytes.
pub struct Signature {
    bytes: Vec<u8>,
}

/// An Ed25519 keypair: a 32-byte secret key and the verifying key
/// derived from it.
pub struct Keypair {
    secret: Vec<u8>,
    public: PublicKey,
}

impl View for PublicKey {
    type V = Seq<u8>;

    closed spec fn view(&self) -> Seq<u8> {
        self.bytes@
    }
}

impl View for Signature {
    type V = Seq<u8>;

    closed spec fn view(&self) -> Seq<u8> {
        self.bytes@
    }
}

impl PublicKey {
    /// A public key is well formed when it holds exactly 32 bytes.
    pub open spec fn wf(&self) -> bool {
        self@.len() == PUBLIC_KEY_LEN
    }

    /// Wrap encoded verifying-key bytes; rejects any length but 32.
    pub fn new(bytes: Vec<u8>) -> (r: Option<PublicKey>)
        ensures
            r is Some <==> bytes@.len() == PUBLIC_KEY_LEN,
            r matches Some(pk) ==> pk.wf() && pk@ == bytes@,
    {
        if bytes.len() == PUBLIC_KEY_LEN {
            Some(PublicKey { bytes })
        } else {
            None
        }
    }

    /// The encoded key bytes.
    pub fn as_bytes(&self) -> (r: &Vec<u8>)
        ensures
            r@ == self@,
    {
        &self.bytes
    }

    /// The key as a lowercase hex string, two digits per byte.
    pub fn to_hex(&self) -> (s: String)
        ensures
            s@ == hex_chars_of(self@),
    {
        crate::hexcodec::hex_encode(&self.bytes)
    }

    /// Check a signature over a payload against this key. True exactly
    /// when the scheme accepts the triple; wrong or malformed signature
    /// bytes give a plain `false`.
    pub fn verify(&self, payload: &Vec<u8>, signature: &Signature) -> (ok: bool)
        requires
            self.wf(),
            signature.wf(),
        ensures
            ok == accepts(self@, payload@, signature@),
    {
        verify_bytes(&self.bytes, payload, &signature.bytes)
    }
}

impl Signature {
    /// A signature is well formed when it holds exactly 64 bytes.
    pub open spec fn wf(&self) -> bool {
        self@.len() == SIGNATURE_LEN
    }

    /// Wrap encoded signature bytes; rejects any length but 64.
    pub fn new(bytes: Vec<u8>) -> (r: Option<Signature>)
        ensures
            r is Some <==> bytes@.len() == SIGNATURE_LEN,
            r matches Some(sig) ==> sig.wf() && sig@ == bytes@,
    {
        if bytes.len() == SIGNATURE_LEN {
            Some(Signature { bytes })
        } else {
            None
        }
    }

    /// The encoded signature bytes.
    pub fn as_bytes(&self) -> (r: &Vec<u8>)
        ensures
            r@ == self@,
    {
        &self.bytes
    }

    /// The signature as a lowercase hex string, two digits per byte.
    pub fn to_hex(&self) -> (s: String)
        ensures
            s@ == hex_chars_of(self@),
    {
        crate::hexcodec::hex_encode(&self.bytes)
    }
}

impl Keypair {
    /// The secret key bytes. Kept abstract: nothing outside this module
    /// reads them.
    pub closed spec fn sk(&self) -> Seq<u8> {
        self.secret@
    }

    /// The encoded verifying key bytes.
    pub closed spec fn pk(&self) -> Seq<u8> {
        self.public@
    }

    /// A keypair is well formed when the secret key holds 32 bytes and
    /// the public component is the verifying key derived from it.
    pub open spec fn wf(&self) -> bool {
        &&& self.sk().len() == SECRET_KEY_LEN
        &&& self.pk() == vk_of(self.sk())
        &&& self.pk().len() == PUBLIC_KEY_LEN
    }

    /// Generate a keypair from the operating system's secure random
    /// source.
    pub fn generate() -> (kp: Keypair)
        ensures
            kp.wf(),
    {
        let secret = generate_secret();
        let bytes = derive_public(&secret);
        Keypair { secret, public: PublicKey { bytes } }
    }

    /// The public half of the keypair.
    pub fn public_key(&self) -> (pk: &PublicKey)
        ensures
            pk@ == self.pk(),
            self.wf() ==> pk.wf(),
    {
        &self.public
    }

    /// Sign a payload. Signing is deterministic and the signature
    /// verifies under this keypair's public key.
    pub fn sign(&self, payload: &Vec<u8>) -> (sig: Signature)
        requires
            self.wf(),
        ensures
            sig.wf(),
            sig@ == sig_of(self.sk(), payload@),
            accepts(self.pk(), payload@, sig@),
    {
        let bytes = sign_bytes(&self.secret, payload);
        Signature { bytes }
    }
}

/// Check a signature over a payload against a public key. True exactly
/// when the scheme accepts the triple.
pub fn check_auth(public_key: &PublicKey, payload: &Vec<u8>, signature: &Signature) -> (ok: bool)
    requires
        public_key.wf(),
        signature.wf(),
    ensures
        ok == accepts(public_key@, payload@, signature@),
{
    public_key.verify(payload, signature)
}

/// Sign-then-verify law: a signature made by a freshly generated
/// keypair over any payload is accepted by the matching public key, so
/// this self-test can never return `false`.
pub fn sign_then_verify(payload: &Vec<u8>) -> (ok: bool)
    ensures
        ok,
{
    let kp = Keypair::generate();
    let sig = kp.sign(payload);
    let pk = kp.public_key();
    check_auth(pk, payload, &sig)
}

/// Determinism law: the signature is a function of the secret key and
/// payload alone, so signing the same payload twice with the same
/// keypair gives byte-identical signatures.
pub proof fn lemma_sign_deterministic(kp: Keypair, payload: Seq<u8>, s1: Seq<u8>, s2: Seq<u8>)
    requires
        s1 == sig_of(kp.sk(), payload),
        s2 == sig_of(kp.sk(), payload),
    ensures
        s1 == s2,
{
}

} // verus!
