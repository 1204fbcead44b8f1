//! Authenticated encryption of credentials at rest with XChaCha20-Poly1305.
//!
//! The cipher itself is the `chacha20poly1305` crate. What the library proves
//! is everything around it: the key file must hold exactly 32 bytes, a nonce
//! must hold exactly 24, decryption hands back the text whose encryption is
//! the ciphertext, and each failure is reported as the error the caller sees.
use vstd::prelude::*;
use chacha20poly1305::aead::{Aead, KeyInit};
use vstd::utf8::{decode_utf8, encode_utf8, valid_utf8};
use crate::text::{cat, decimal, decimal_string};

verus! {

broadcast use vstd::utf8::group_utf8_lib;

/// Length of an XChaCha20-Poly1305 nonce in bytes.
pub const NONCE_LEN: usize = 24;

/// Length of the secret key in bytes.
pub const KEY_LEN: usize = 32;

#[verifier::external_type_specification]
#[verifier::external_body]
pub struct ExAeadError(chacha20poly1305::aead::Error);

/// The ciphertext (with its authentication tag) that XChaCha20-Poly1305
/// produces for `plaintext` under `key` and `nonce`.
pub uninterp spec fn aead_seal(key: Seq<u8>, nonce: Seq<u8>, plaintext: Seq<u8>) -> Seq<u8>;

/// The cipher works on messages of fewer than `u32::MAX` blocks of 64 bytes.
pub open spec fn fits_cipher(len: nat) -> bool {
    len / 64 < u32::MAX
}

/// `XChaCha20Poly1305::encrypt`: succeeds on every message of fewer than
/// `u32::MAX` blocks, and its output is the sealed message: the encrypted
/// bytes, as many as the message has, followed by the 16-byte Poly1305 tag.
#[verifier::external_body]
fn seal(key: &[u8; 32], nonce: &[u8; 24], plaintext: &[u8]) -> (r: Result<Vec<u8>, chacha20poly1305::aead::Error>)
    ensures
        r is Ok <==> fits_cipher(plaintext@.len()),
        r matches Ok(c) ==> c@ == aead_seal(key@, nonce@, plaintext@) && c@.len() == plaintext@.len() + 16,
{
    let cipher = chacha20poly1305::XChaCha20Poly1305::new(key.into());
    cipher.encrypt(nonce.into(), plaintext)
}

/// `XChaCha20Poly1305::decrypt`: what it returns is a message of a size the
/// cipher accepts that seals to the ciphertext, and every such message is what
/// it returns. Authentication failure is an error.
#[verifier::external_body]
fn open(key: &[u8; 32], nonce: &[u8; 24], ciphertext: &[u8]) -> (r: Result<Vec<u8>, chacha20poly1305::aead::Error>)
    ensures
        r matches Ok(p) ==> fits_cipher(p@.len()) && aead_seal(key@, nonce@, p@) == ciphertext@,
        forall|p: Seq<u8>|
            fits_cipher(p.len()) && #[trigger] aead_seal(key@, nonce@, p) == ciphertext@
                ==> r == Ok::<Vec<u8>, chacha20poly1305::aead::Error>(r->Ok_0) && r->Ok_0@ == p,
{
    let cipher = chacha20poly1305::XChaCha20Poly1305::new(key.into());
    cipher.decrypt(nonce.into(), ciphertext)
}

/// `getrandom::getrandom` on a buffer of `len` bytes; on failure, the text
/// of the error. Which bytes come back is left open.
#[verifier::external_body]
fn random_bytes(len: usize) -> (r: Result<Vec<u8>, String>)
    ensures
        r matches Ok(v) ==> v@.len() == len,
{
    let mut buf = vec![0u8; len];
    match getrandom::getrandom(&mut buf) {
        Ok(()) => Ok(buf),
        Err(e) => Err(format!("{e}")),
    }
}

/// `String::from_utf8`: succeeds exactly on valid UTF-8, and the string then
/// holds those bytes; on failure, the text of the error.
#[verifier::external_body]
pub(crate) fn string_from_utf8(bytes: Vec<u8>) -> (r: Result<String, String>)
    ensures
        r is Ok <==> valid_utf8(bytes@),
        r matches Ok(s) ==> encode_utf8(s@) == bytes@,
{
    match String::from_utf8(bytes) {
        Ok(s) => Ok(s),
        Err(e) => Err(format!("{e}")),
    }
}

/// Errors that can occur during encryption or decryption.
#[derive(Debug)]
pub enum EncryptionError {
    /// The secret key could not be read, generated or accepted.
    KeyError(String),
    /// Decryption failed (wrong key, wrong nonce or tampered ciphertext).
    DecryptionFailed,
    /// The decrypted bytes are not valid UTF-8.
    InvalidUtf8(String),
}

/// The text of an error, as it is shown to users.
pub open spec fn encryption_error_text(e: EncryptionError) -> Seq<char> {
    match e {
        EncryptionError::KeyError(m) => "secret key error: "@ + m@,
        EncryptionError::DecryptionFailed => "decryption failed: aead::Error"@,
        EncryptionError::InvalidUtf8(m) => "decrypted value is not valid UTF-8: "@ + m@,
    }
}

impl EncryptionError {
    /// The text of the error, as it is shown to users.
    pub fn message(&self) -> (r: String)
        ensures
            r@ == encryption_error_text(*self),
    {
        match self {
            EncryptionError::KeyError(m) => cat("secret key error: ", m.as_str()),
            EncryptionError::DecryptionFailed => "decryption failed: aead::Error".to_string(),
            EncryptionError::InvalidUtf8(m) => cat("decrypted value is not valid UTF-8: ", m.as_str()),
        }
    }
}

/// The message of a key file of the wrong size.
pub open spec fn key_size_message(len: nat) -> Seq<char> {
    "secret key file must be exactly 32 bytes, got "@ + decimal(len)
}

/// The message of a failure of the random number source.
pub open spec fn random_failure_message(detail: Seq<char>) -> Seq<char> {
    "failed to generate random bytes: "@ + detail
}

/// `text` is what decrypting `ciphertext` under `key` and `nonce` gives back:
/// the nonce has the right size and the text's UTF-8 bytes seal to the ciphertext.
pub open spec fn recovers(key: Seq<u8>, nonce: Seq<u8>, ciphertext: Seq<u8>, text: Seq<char>) -> bool {
    &&& nonce.len() == NONCE_LEN
    &&& fits_cipher(encode_utf8(text).len())
    &&& aead_seal(key, nonce, encode_utf8(text)) == ciphertext
}

/// The local secret key used for encryption.
#[derive(Clone)]
pub struct EncryptionKey {
    key: [u8; 32],
}

impl View for EncryptionKey {
    type V = Seq<u8>;

    closed spec fn view(&self) -> Seq<u8> {
        self.key@
    }
}

fn array_of_24(v: &[u8]) -> (a: [u8; 24])
    requires
        v@.len() == 24,
    ensures
        a@ == v@,
{
    let mut a = [0u8; 24];
    for i in 0..24
        invariant
            v@.len() == 24,
            forall|j: int| 0 <= j < i ==> a@[j] == v@[j],
    {
        a[i] = v[i];
    }
    assert(a@ =~= v@);
    a
}

impl EncryptionKey {
    /// Accepts the contents of a key file, which must be exactly 32 bytes.
    pub fn from_bytes(data: &[u8]) -> (r: Result<EncryptionKey, EncryptionError>)
        ensures
            data@.len() == KEY_LEN ==> (r matches Ok(k) && k@ == data@),
            data@.len() != KEY_LEN ==> (r matches Err(EncryptionError::KeyError(m))
                && m@ == key_size_message(data@.len())),
    {
        if data.len() != KEY_LEN {
            let n = decimal_string(data.len() as u64);
            return Err(EncryptionError::KeyError(
                cat("secret key file must be exactly 32 bytes, got ", n.as_str()),
            ));
        }
        let mut key = [0u8; 32];
        for i in 0..32
            invariant
                data@.len() == 32,
                forall|j: int| 0 <= j < i ==> key@[j] == data@[j],
        {
            key[i] = data[i];
        }
        assert(key@ =~= data@);
        Ok(EncryptionKey { key })
    }

    /// Encrypts `plaintext` under the given 24-byte nonce and returns
    /// `(nonce, ciphertext)`.
    pub fn encrypt_with_nonce(&self, nonce: Vec<u8>, plaintext: &str) -> (r: Result<(Vec<u8>, Vec<u8>), EncryptionError>)
        requires
            nonce@.len() == NONCE_LEN,
        ensures
            fits_cipher(encode_utf8(plaintext@).len()) ==> (r matches Ok((n, c))
                && n@ == nonce@
                && c@ == aead_seal(self@, nonce@, encode_utf8(plaintext@))
                && c@.len() == encode_utf8(plaintext@).len() + 16
                && recovers(self@, n@, c@, plaintext@)),
            !fits_cipher(encode_utf8(plaintext@).len()) ==> r matches Err(EncryptionError::DecryptionFailed),
    {
        let n = array_of_24(nonce.as_slice());
        match seal(&self.key, &n, plaintext.as_bytes()) {
            Ok(c) => Ok((nonce, c)),
            Err(_) => Err(EncryptionError::DecryptionFailed),
        }
    }

    /// Encrypts `plaintext` under a fresh random 24-byte nonce and returns
    /// `(nonce, ciphertext)`. Decrypting the pair gives back the plaintext.
    pub fn encrypt(&self, plaintext: &str) -> (r: Result<(Vec<u8>, Vec<u8>), EncryptionError>)
        ensures
            r matches Ok((n, c)) ==> n@.len() == NONCE_LEN
                && c@ == aead_seal(self@, n@, encode_utf8(plaintext@))
                && c@.len() == encode_utf8(plaintext@).len() + 16
                && recovers(self@, n@, c@, plaintext@),
            r matches Err(EncryptionError::DecryptionFailed) ==> !fits_cipher(encode_utf8(plaintext@).len()),
            r matches Err(EncryptionError::KeyError(m)) ==> exists|d: Seq<char>| m@ == random_failure_message(d),
            !(r matches Err(EncryptionError::InvalidUtf8(_))),
    {
        match random_bytes(NONCE_LEN) {
            Ok(nonce) => self.encrypt_with_nonce(nonce, plaintext),
            Err(e) => {
                let m = cat("failed to generate random bytes: ", e.as_str());
                assert(m@ == random_failure_message(e@));
                Err(EncryptionError::KeyError(m))
            },
        }
    }

    /// Decrypts `ciphertext` with the given nonce.
    ///
    /// The result is the text whose encryption under this key and nonce is
    /// the ciphertext; when there is none, or the nonce is not 24 bytes long,
    /// decryption fails; when the decrypted bytes are not UTF-8, that is the error.
    pub fn decrypt(&self, nonce: &[u8], ciphertext: &[u8]) -> (r: Result<String, EncryptionError>)
        ensures
            r matches Ok(s) ==> recovers(self@, nonce@, ciphertext@, s@),
            forall|t: Seq<char>| #[trigger] recovers(self@, nonce@, ciphertext@, t)
                ==> (r matches Ok(s) && s@ == t),
            nonce@.len() != NONCE_LEN ==> r matches Err(EncryptionError::DecryptionFailed),
            r matches Err(EncryptionError::DecryptionFailed) ==> nonce@.len() != NONCE_LEN
                || forall|p: Seq<u8>| fits_cipher(p.len()) ==> #[trigger] aead_seal(self@, nonce@, p) != ciphertext@,
            r matches Err(EncryptionError::InvalidUtf8(_)) ==> nonce@.len() == NONCE_LEN
                && exists|p: Seq<u8>| !valid_utf8(p) && #[trigger] aead_seal(self@, nonce@, p) == ciphertext@,
            !(r matches Err(EncryptionError::KeyError(_))),
    {
        if nonce.len() != NONCE_LEN {
            proof {
                assert forall|t: Seq<char>| !recovers(self@, nonce@, ciphertext@, t) by {}
            }
            return Err(EncryptionError::DecryptionFailed);
        }
        let n = array_of_24(nonce);
        match open(&self.key, &n, ciphertext) {
            Err(e) => {
                proof {
                    assert forall|t: Seq<char>| !recovers(self@, nonce@, ciphertext@, t) by {
                        if recovers(self@, nonce@, ciphertext@, t) {
                            assert(aead_seal(self.key@, n@, encode_utf8(t)) == ciphertext@);
                        }
                    }
                }
                Err(EncryptionError::DecryptionFailed)
            },
            Ok(bytes) => {
                let ghost p = bytes@;
                match string_from_utf8(bytes) {
                    Ok(s) => {
                        proof {
                            assert(decode_utf8(encode_utf8(s@)) == s@);
                            assert forall|t: Seq<char>| #[trigger] recovers(self@, nonce@, ciphertext@, t)
                                implies s@ == t by {
                                assert(aead_seal(self.key@, n@, encode_utf8(t)) == ciphertext@);
                                assert(decode_utf8(encode_utf8(t)) == t);
                            }
                        }
                        Ok(s)
                    },
                    Err(m) => {
                        proof {
                            assert(n@ == nonce@);
                            assert(!valid_utf8(p) && aead_seal(self@, nonce@, p) == ciphertext@);
                            assert forall|t: Seq<char>| !recovers(self@, nonce@, ciphertext@, t) by {
                                if recovers(self@, nonce@, ciphertext@, t) {
                                    assert(aead_seal(self.key@, n@, encode_utf8(t)) == ciphertext@);
                                }
                            }
                        }
                        Err(EncryptionError::InvalidUtf8(m))
                    },
                }
            },
        }
    }
}

/// Draws a fresh random 32-byte key, the contents of a new key file.
pub fn generate_key_bytes() -> (r: Result<Vec<u8>, EncryptionError>)
    ensures
        r matches Ok(v) ==> v@.len() == KEY_LEN,
        r matches Err(e) ==> (e matches EncryptionError::KeyError(m)
            && exists|d: Seq<char>| m@ == random_failure_message(d)),
{
    match random_bytes(KEY_LEN) {
        Ok(v) => Ok(v),
        Err(e) => {
            let m = cat("failed to generate random bytes: ", e.as_str());
            assert(m@ == random_failure_message(e@));
            Err(EncryptionError::KeyError(m))
        },
    }
}

/// Encrypting and then decrypting with the same key and nonce gives back the
/// text: the text recovers from its own ciphertext.
pub proof fn lemma_round_trip(key: Seq<u8>, nonce: Seq<u8>, text: Seq<char>)
    requires
        nonce.len() == NONCE_LEN,
        fits_cipher(encode_utf8(text).len()),
    ensures
        recovers(key, nonce, aead_seal(key, nonce, encode_utf8(text)), text),
{
}

} // verus!
