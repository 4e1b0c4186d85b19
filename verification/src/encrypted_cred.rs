//! A credential that is kept encrypted while the process holds it.
//!
//! The text is sealed with AES-256-GCM under a key and a nonce made for it
//! alone. What is proved here: a credential always opens again, and to the
//! text it was made from.

use aes_gcm::aead::{Aead, OsRng};
use aes_gcm::{AeadCore, Aes256Gcm, KeyInit, Nonce};
use vstd::prelude::*;
use vstd::string::*;
use vstd::utf8::{decode_utf8, encode_utf8, encode_utf8_decode_utf8, encode_utf8_valid_utf8, valid_utf8};

verus! {

/// Bytes in a key.
pub const KEY_LEN: usize = 32;

/// Bytes in a nonce.
pub const NONCE_LEN: usize = 12;

/// The longest text, in bytes, that can be sealed.
pub const MAX_CREDENTIAL_LEN: u64 = 0x10_0000_0000;

/// What `Aes256Gcm::decrypt` gives for a key of 32 bytes, a nonce of 12 bytes
/// and a ciphertext: the plaintext, or `None` where it rejects the ciphertext.
pub uninterp spec fn opened(key: Seq<u8>, nonce: Seq<u8>, ciphertext: Seq<u8>) -> Option<Seq<u8>>;

/// The bytes of an optional byte vector.
pub open spec fn option_bytes(o: Option<Vec<u8>>) -> Option<Seq<u8>> {
    match o {
        Some(v) => Some(v@),
        None => None,
    }
}

/// A credential, encrypted. Its view is the text it was made from.
pub struct EncryptedCredential {
    cred: Vec<u8>,
    key: Vec<u8>,
    nonce: Vec<u8>,
}

impl View for EncryptedCredential {
    type V = Seq<char>;

    closed spec fn view(&self) -> Seq<char> {
        decode_utf8(opened(self.key@, self.nonce@, self.cred@)->0)
    }
}

impl EncryptedCredential {
    #[verifier::type_invariant]
    spec fn opens_to_text(self) -> bool {
        &&& self.key.len() == KEY_LEN
        &&& self.nonce.len() == NONCE_LEN
        &&& opened(self.key@, self.nonce@, self.cred@) is Some
        &&& valid_utf8(opened(self.key@, self.nonce@, self.cred@)->0)
    }

    /// Encrypts `credential` under a fresh key and a fresh nonce.
    pub fn new(credential: String) -> (r: EncryptedCredential)
        requires
            encode_utf8(credential@).len() <= MAX_CREDENTIAL_LEN,
        ensures
            r@ == credential@,
    {
        let key = fresh_key();
        let nonce = fresh_nonce();
        let plaintext = credential.as_str().as_bytes();
        proof {
            encode_utf8_valid_utf8(credential@);
            encode_utf8_decode_utf8(credential@);
        }
        match seal(&key, &nonce, plaintext) {
            Some(cred) => EncryptedCredential { cred, key, nonce },
            None => {
                proof {
                    assert(false);
                }
                EncryptedCredential { cred: Vec::new(), key, nonce }
            },
        }
    }

    /// The credential as it is kept: encrypted.
    pub closed spec fn spec_ciphertext(&self) -> Seq<u8> {
        self.cred@
    }

    /// The credential as it is kept: encrypted. This is what may be shown of
    /// a credential.
    pub fn ciphertext(&self) -> (r: &Vec<u8>)
        ensures
            r@ == self.spec_ciphertext(),
    {
        &self.cred
    }

    /// The text of the credential.
    pub fn value(&self) -> (r: String)
        ensures
            r@ == self@,
    {
        proof {
            use_type_invariant(self);
        }
        match open(&self.key, &self.nonce, self.cred.as_slice()) {
            Some(plaintext) => match text_of(plaintext) {
                Some(text) => text,
                None => {
                    proof {
                        assert(false);
                    }
                    String::new()
                },
            },
            None => {
                proof {
                    assert(false);
                }
                String::new()
            },
        }
    }
}

impl Clone for EncryptedCredential {
    fn clone(&self) -> (r: Self)
        ensures
            r@ == self@,
    {
        proof {
            use_type_invariant(self);
        }
        let cred = self.cred.clone();
        let key = self.key.clone();
        let nonce = self.nonce.clone();
        assert(cred@ =~= self.cred@ && key@ =~= self.key@ && nonce@ =~= self.nonce@);
        EncryptedCredential { cred, key, nonce }
    }
}

/// A key from `Aes256Gcm::generate_key` with the random numbers of the
/// operating system. Claimed: the key has 32 bytes, the key size of AES-256.
#[verifier::external_body]
fn fresh_key() -> (key: Vec<u8>)
    ensures
        key.len() == KEY_LEN,
{
    Aes256Gcm::generate_key(OsRng).to_vec()
}

/// A nonce from `Aes256Gcm::generate_nonce` with the random numbers of the
/// operating system. Claimed: the nonce has 12 bytes, the nonce size of
/// `Aes256Gcm`.
#[verifier::external_body]
fn fresh_nonce() -> (nonce: Vec<u8>)
    ensures
        nonce.len() == NONCE_LEN,
{
    Aes256Gcm::generate_nonce(OsRng).to_vec()
}

/// `Aes256Gcm::encrypt` without associated data. Claimed: a plaintext of at
/// most 2^36 bytes is encrypted, and what comes out is a ciphertext that
/// `Aes256Gcm::decrypt` turns back into the plaintext under the same key and
/// nonce.
#[verifier::external_body]
fn seal(key: &Vec<u8>, nonce: &Vec<u8>, plaintext: &[u8]) -> (r: Option<Vec<u8>>)
    requires
        key.len() == KEY_LEN,
        nonce.len() == NONCE_LEN,
    ensures
        plaintext@.len() <= MAX_CREDENTIAL_LEN ==> r is Some,
        r matches Some(ciphertext) ==> opened(key@, nonce@, ciphertext@) == Some(plaintext@),
{
    let cipher = Aes256Gcm::new_from_slice(key).ok()?;
    cipher.encrypt(Nonce::from_slice(nonce), plaintext).ok()
}

/// `Aes256Gcm::decrypt` without associated data: the plaintext, or `None`
/// where the ciphertext is rejected.
#[verifier::external_body]
fn open(key: &Vec<u8>, nonce: &Vec<u8>, ciphertext: &[u8]) -> (r: Option<Vec<u8>>)
    requires
        key.len() == KEY_LEN,
        nonce.len() == NONCE_LEN,
    ensures
        option_bytes(r) == opened(key@, nonce@, ciphertext@),
{
    let cipher = Aes256Gcm::new_from_slice(key).ok()?;
    cipher.decrypt(Nonce::from_slice(nonce), ciphertext).ok()
}

/// `String::from_utf8`: the text that `bytes` encode, or `None` where they are
/// not UTF-8.
#[verifier::external_body]
fn text_of(bytes: Vec<u8>) -> (r: Option<String>)
    ensures
        valid_utf8(bytes@) ==> r is Some && r->0@ == decode_utf8(bytes@),
        !valid_utf8(bytes@) ==> r is None,
{
    String::from_utf8(bytes).ok()
}

} // verus!
