//! The stored Steam login: the username in clear, the password encrypted
//! under the local secret key.
use vstd::prelude::*;
use vstd::utf8::encode_utf8;

use crate::encryption::{aead_seal, fits_cipher, recovers, EncryptionError, EncryptionKey};
use crate::installer::GameServerError;

verus! {

/// The encryption scheme version written with new credentials.
pub const ENC_VERSION: i32 = 1;

/// A stored Steam login.
#[derive(Debug)]
pub struct SteamCredential {
    pub id: i32,
    pub username: String,
    pub enc_version: i32,
    pub nonce: Vec<u8>,
    pub ciphertext: Vec<u8>,
}

/// The login to store for `username` and `password`: the password encrypted
/// under `key` with a fresh nonce, tagged with the current scheme version.
/// Reading it back with the same key gives the password.
pub fn seal_login(key: &EncryptionKey, id: i32, username: String, password: &str) -> (r: Result<SteamCredential, EncryptionError>)
    ensures
        r matches Ok(c) ==> c.id == id && c.username == username && c.enc_version == ENC_VERSION
            && c.ciphertext@ == aead_seal(key@, c.nonce@, encode_utf8(password@))
            && recovers(key@, c.nonce@, c.ciphertext@, password@),
        r matches Err(EncryptionError::DecryptionFailed) ==> !fits_cipher(encode_utf8(password@).len()),
        !(r matches Err(EncryptionError::InvalidUtf8(_))),
{
    match key.encrypt(password) {
        Ok((nonce, ciphertext)) => Ok(SteamCredential { id, username, enc_version: ENC_VERSION, nonce, ciphertext }),
        Err(e) => Err(e),
    }
}

/// The username and password of a stored login, decrypting the password with
/// `key`; a failed decryption is reported as a credentials error.
pub fn open_login(record: &SteamCredential, key: &EncryptionKey) -> (r: Result<(String, String), GameServerError>)
    ensures
        r matches Ok((u, p)) ==> u == record.username && recovers(key@, record.nonce@, record.ciphertext@, p@),
        forall|t: Seq<char>| #[trigger] recovers(key@, record.nonce@, record.ciphertext@, t)
            ==> (r matches Ok((u, p)) && u == record.username && p@ == t),
        r matches Err(e) ==> e is SteamCredentials,
{
    match key.decrypt(record.nonce.as_slice(), record.ciphertext.as_slice()) {
        Ok(password) => Ok((record.username.clone(), password)),
        Err(e) => Err(GameServerError::SteamCredentials(e)),
    }
}

} // verus!
