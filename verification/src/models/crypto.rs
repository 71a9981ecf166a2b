//! Decryption of the passwords that the settings hold: base64 text that
//! hides AES-256-CBC with PKCS#7 padding.

use aes::cipher::{BlockDecryptMut, KeyIvInit};
use aes::cipher::block_padding::Pkcs7;
use crate::text::string_from_utf8;
use vstd::prelude::*;
use vstd::string::{StringExecFns, StringSliceAdditionalSpecFns, StrSliceExecFns};
use vstd::utf8::{decode_utf8, valid_utf8};

verus! {

/// Why a text could not be decrypted.
#[derive(Debug)]
pub enum DecryptError {
    /// The text is no base64.
    Base64DecodeError,
    /// The cipher refused the bytes; with the cipher's own words.
    DecryptionError(String),
    /// A key, an initialisation vector or a text of the wrong shape.
    InvalidInput(String),
    /// The decrypted bytes are no UTF-8.
    Utf8Error,
}

/// A key of 32 bytes and an initialisation vector of 16.
pub struct CryptoService {
    key: Vec<u8>,
    iv: Vec<u8>,
}

/// The key and the vector as they are configured.
#[derive(Debug)]
pub struct CryptoConfig {
    pub secret_key: String,
    pub iv: String,
}

/// The bytes that the standard base64 alphabet, with padding, decodes a
/// text to; nothing where the text is no such base64.
pub uninterp spec fn base64_decoded(text: Seq<char>) -> Option<Seq<u8>>;

/// The plain bytes that AES-256 in CBC mode, with PKCS#7 padding taken
/// off, makes of `data` under a key and an initialisation vector; nothing
/// where the cipher refuses them.
pub uninterp spec fn aes256_cbc_decrypted(key: Seq<u8>, iv: Seq<u8>, data: Seq<u8>) -> Option<
    Seq<u8>,
>;

#[verifier::external_type_specification]
#[verifier::external_body]
pub struct ExDecodeError(base64::DecodeError);

/// Trusted: `decode` of the base64 crate's `STANDARD` engine. The result is
/// named, not described.
#[verifier::external_body]
pub(crate) fn base64_decode(text: &str) -> (r: Result<Vec<u8>, base64::DecodeError>)
    ensures
        r is Ok <==> base64_decoded(text@) is Some,
        r matches Ok(bytes) ==> Some(bytes@) == base64_decoded(text@),
{
    base64::Engine::decode(&base64::engine::general_purpose::STANDARD, text)
}

/// Trusted: `cbc::Decryptor<aes::Aes256>`, made by `new_from_slices` and
/// run by `decrypt_padded_mut` with `Pkcs7`. The plain bytes are named, not
/// described; the error is the cipher's own text.
#[verifier::external_body]
fn aes256_cbc_decrypt(key: &[u8], iv: &[u8], data: Vec<u8>) -> (r: Result<Vec<u8>, String>)
    ensures
        r is Ok <==> aes256_cbc_decrypted(key@, iv@, data@) is Some,
        r matches Ok(plain) ==> Some(plain@) == aes256_cbc_decrypted(key@, iv@, data@),
{
    let mut buf = data;
    match cbc::Decryptor::<aes::Aes256>::new_from_slices(key, iv) {
        Ok(cipher) => match cipher.decrypt_padded_mut::<Pkcs7>(&mut buf) {
            Ok(plain) => Ok(plain.to_vec()),
            Err(e) => Err(e.to_string()),
        },
        Err(e) => Err(e.to_string()),
    }
}

/// What the decryption of a text comes to, as far as the text and the
/// cipher decide it.
pub enum Decrypted {
    Text(Seq<char>),
    Empty,
    NoBase64,
    Refused,
    NoUtf8,
}

/// The text that plain bytes stand for.
pub open spec fn text_of_plain(plain: Seq<u8>) -> Decrypted {
    if valid_utf8(plain) {
        Decrypted::Text(decode_utf8(plain))
    } else {
        Decrypted::NoUtf8
    }
}

/// The text that encrypted bytes stand for.
pub open spec fn text_of_bytes(key: Seq<u8>, iv: Seq<u8>, data: Seq<u8>) -> Decrypted {
    match aes256_cbc_decrypted(key, iv, data) {
        Some(plain) => text_of_plain(plain),
        None => Decrypted::Refused,
    }
}

/// The text that an encrypted text stands for.
pub open spec fn text_of(key: Seq<u8>, iv: Seq<u8>, encrypted_text: Seq<char>) -> Decrypted {
    if encrypted_text.len() == 0 {
        Decrypted::Empty
    } else {
        match base64_decoded(encrypted_text) {
            Some(data) => text_of_bytes(key, iv, data),
            None => Decrypted::NoBase64,
        }
    }
}

/// Whether a result says what `expected` says.
pub open spec fn tells(r: Result<String, DecryptError>, expected: Decrypted) -> bool {
    match expected {
        Decrypted::Text(t) => r matches Ok(s) && s@ == t,
        Decrypted::Empty => r matches Err(DecryptError::InvalidInput(m)) && m@
            == "Encrypted text cannot be empty"@,
        Decrypted::NoBase64 => r matches Err(DecryptError::Base64DecodeError),
        Decrypted::Refused => r matches Err(DecryptError::DecryptionError(_)),
        Decrypted::NoUtf8 => r matches Err(DecryptError::Utf8Error),
    }
}

/// The text of decrypted bytes.
pub fn plain_text(plain: Vec<u8>) -> (r: Result<String, DecryptError>)
    ensures
        tells(r, text_of_plain(plain@)),
{
    match string_from_utf8(plain) {
        Some(text) => Ok(text),
        None => Err(DecryptError::Utf8Error),
    }
}

impl CryptoService {
    /// The key of the service.
    pub closed spec fn key(&self) -> Seq<u8> {
        self.key@
    }

    /// The initialisation vector of the service.
    pub closed spec fn iv(&self) -> Seq<u8> {
        self.iv@
    }

    /// A service with the bytes of `secret_key` as its key and those of `iv`
    /// as its vector. A key that is not 32 bytes long, or a vector that is
    /// not 16, is refused, the key first.
    pub fn new(secret_key: &str, iv: &str) -> (r: Result<Self, DecryptError>)
        ensures
            secret_key.spec_bytes().len() != 32 ==> (r matches Err(DecryptError::InvalidInput(m))
                && m@ == "SECRET_KEY must be 32 characters long"@),
            secret_key.spec_bytes().len() == 32 && iv.spec_bytes().len() != 16 ==> (r matches Err(
                DecryptError::InvalidInput(m),
            ) && m@ == "IV must be 16 characters long"@),
            secret_key.spec_bytes().len() == 32 && iv.spec_bytes().len() == 16 ==> (r matches Ok(s)
                && s.key() == secret_key.spec_bytes() && s.iv() == iv.spec_bytes()),
    {
        if secret_key.as_bytes().len() != 32 {
            return Err(
                DecryptError::InvalidInput(
                    String::from_str("SECRET_KEY must be 32 characters long"),
                ),
            );
        }
        if iv.as_bytes().len() != 16 {
            return Err(DecryptError::InvalidInput(String::from_str("IV must be 16 characters long")));
        }
        Ok(CryptoService { key: secret_key.as_bytes_vec(), iv: iv.as_bytes_vec() })
    }

    /// Decrypts bytes and reads them as text.
    pub fn decrypt_bytes(&self, data: Vec<u8>) -> (r: Result<String, DecryptError>)
        ensures
            tells(r, text_of_bytes(self.key(), self.iv(), data@)),
    {
        match aes256_cbc_decrypt(self.key.as_slice(), self.iv.as_slice(), data) {
            Ok(plain) => plain_text(plain),
            Err(why) => Err(DecryptError::DecryptionError(why)),
        }
    }

    /// Decrypts a base64 text. An empty text is refused before anything is
    /// decoded.
    pub fn decrypt(&self, encrypted_text: &str) -> (r: Result<String, DecryptError>)
        ensures
            tells(r, text_of(self.key(), self.iv(), encrypted_text@)),
    {
        if encrypted_text.is_empty() {
            return Err(
                DecryptError::InvalidInput(String::from_str("Encrypted text cannot be empty")),
            );
        }
        match base64_decode(encrypted_text) {
            Ok(data) => self.decrypt_bytes(data),
            Err(_) => Err(DecryptError::Base64DecodeError),
        }
    }
}

impl DecryptError {
    /// The error in words.
    pub fn message(&self) -> (r: String)
        ensures
            r@ == match *self {
                DecryptError::Base64DecodeError => "Failed to decode base64"@,
                DecryptError::DecryptionError(m) => "Decryption failed: "@ + m@,
                DecryptError::InvalidInput(m) => "Invalid input: "@ + m@,
                DecryptError::Utf8Error => "UTF-8 conversion failed"@,
            },
    {
        match self {
            DecryptError::Base64DecodeError => String::from_str("Failed to decode base64"),
            DecryptError::DecryptionError(m) => {
                let mut s = String::from_str("Decryption failed: ");
                s.append(m.as_str());
                s
            },
            DecryptError::InvalidInput(m) => {
                let mut s = String::from_str("Invalid input: ");
                s.append(m.as_str());
                s
            },
            DecryptError::Utf8Error => String::from_str("UTF-8 conversion failed"),
        }
    }
}

} // verus!
