//! Encryption of stored secrets (AES-256-GCM, key from SHA-256) and startup password hashes.
use vstd::prelude::*;
use vstd::utf8::{decode_utf8, encode_utf8, valid_utf8};
use vstd::string::StringSliceAdditionalSpecFns;

use crate::error::{concat_str, AppError, AppResult};

verus! {

/// SHA-256 digest of a byte string.
pub uninterp spec fn sha256(data: Seq<u8>) -> Seq<u8>;

/// HMAC-SHA256 of a message under a key.
pub uninterp spec fn hmac_sha256(key: Seq<u8>, msg: Seq<u8>) -> Seq<u8>;

/// HMAC-SHA256 (`hmac::Hmac<sha2::Sha256>`): the 32-byte tag of `msg` under `key`. The
/// MAC accepts keys of any length.
#[verifier::external_body]
pub(crate) fn hmac_sha256_tag(key: &[u8], msg: &[u8]) -> (r: Vec<u8>)
    ensures
        r@ == hmac_sha256(key@, msg@),
        r@.len() == 32,
{
    let mut mac = <hmac::Hmac<sha2::Sha256> as hmac::Mac>::new_from_slice(key).expect("HMAC takes keys of any length");
    hmac::Mac::update(&mut mac, msg);
    hmac::Mac::finalize(mac).into_bytes().to_vec()
}

/// 16 random bytes from the operating system (`aes_gcm::aead::OsRng`); nothing is
/// promised of their values.
#[verifier::external_body]
pub(crate) fn random_salt() -> (r: [u8; 16]) {
    let mut n = [0u8; 16];
    rand::RngCore::fill_bytes(&mut aes_gcm::aead::OsRng, &mut n);
    n
}

/// AES-256-GCM encryption of `plaintext` under `key` and `nonce` (ciphertext with tag),
/// or `None` where the cipher refuses.
pub uninterp spec fn aead_seal(key: Seq<u8>, nonce: Seq<u8>, plaintext: Seq<u8>) -> Option<Seq<u8>>;

/// AES-256-GCM decryption of `ciphertext`, or `None` where authentication fails.
pub uninterp spec fn aead_open(key: Seq<u8>, nonce: Seq<u8>, ciphertext: Seq<u8>) -> Option<Seq<u8>>;

/// Standard Base64 (with padding) of a byte string.
pub uninterp spec fn base64_text(data: Seq<u8>) -> Seq<char>;

/// Bytes that standard Base64 decoding gives for a text, or `None` where it refuses.
pub uninterp spec fn base64_bytes(text: Seq<char>) -> Option<Seq<u8>>;

/// Lower-case hexadecimal digit of a nibble.
pub open spec fn hex_digit(n: u8) -> char {
    if n < 10 { (('0' as u8) + n) as char } else { (('a' as u8) + (n - 10)) as char }
}

/// Lower-case hexadecimal text of a byte string, two digits per byte.
pub open spec fn hex_lower(b: Seq<u8>) -> Seq<char>
    decreases b.len(),
{
    if b.len() == 0 {
        Seq::empty()
    } else {
        hex_lower(b.drop_last()).push(hex_digit(b.last() / 16)).push(hex_digit(b.last() % 16))
    }
}

/// SHA-256 of the data (`sha2::Sha256`).
#[verifier::external_body]
pub(crate) fn sha256_digest(data: &[u8]) -> (r: [u8; 32])
    ensures
        r@ == sha256(data@),
{
    let mut out = [0u8; 32];
    out.copy_from_slice(&<sha2::Sha256 as sha2::Digest>::digest(data));
    out
}

/// Lower-case hex text of bytes (`hex::encode`), two digits per byte, high nibble first.
#[verifier::external_body]
pub(crate) fn hex_encode(data: &[u8]) -> (r: String)
    ensures
        r@ == hex_lower(data@),
{
    hex::encode(data)
}

/// Constant-time equality of byte strings (`subtle::ConstantTimeEq::ct_eq`).
#[verifier::external_body]
fn bytes_ct_eq(a: &[u8], b: &[u8]) -> (r: bool)
    ensures
        r == (a@ == b@),
{
    subtle::ConstantTimeEq::ct_eq(a, b).into()
}

/// Random bytes from the operating system (`aes_gcm::aead::OsRng`); nothing is promised
/// of their values.
#[verifier::external_body]
pub(crate) fn random_nonce() -> (r: [u8; 12]) {
    let mut n = [0u8; 12];
    rand::RngCore::fill_bytes(&mut aes_gcm::aead::OsRng, &mut n);
    n
}

/// Random key bytes from the operating system (`aes_gcm::aead::OsRng`); nothing is
/// promised of their values.
#[verifier::external_body]
fn random_key() -> (r: [u8; 32]) {
    let mut k = [0u8; 32];
    rand::RngCore::fill_bytes(&mut aes_gcm::aead::OsRng, &mut k);
    k
}

/// The longest plaintext AES-GCM encrypts, in bytes (`aes_gcm::P_MAX`, 2^36).
pub open spec fn aes_gcm_max_plaintext() -> int {
    0x10_0000_0000
}

/// AES-256-GCM encryption (`aes_gcm::Aes256Gcm::encrypt`); the error is its message. The
/// crate refuses a plaintext longer than `P_MAX` bytes and encrypts any other (the tag is
/// appended to a `Vec`, which never fails).
#[verifier::external_body]
pub(crate) fn aes_gcm_encrypt(key: &[u8; 32], nonce: &[u8; 12], plaintext: &[u8]) -> (r: Result<Vec<u8>, String>)
    ensures
        match r {
            Ok(c) => aead_seal(key@, nonce@, plaintext@) == Some(c@),
            Err(_) => aead_seal(key@, nonce@, plaintext@) is None,
        },
        r matches Ok(c) ==> c@.len() == plaintext@.len() + 16,
        r is Ok <==> plaintext@.len() <= aes_gcm_max_plaintext(),
{
    let cipher = <aes_gcm::Aes256Gcm as aes_gcm::aead::KeyInit>::new(key.into());
    aes_gcm::aead::Aead::encrypt(&cipher, aes_gcm::Nonce::from_slice(nonce), plaintext).map_err(|e| e.to_string())
}

/// AES-256-GCM decryption (`aes_gcm::Aes256Gcm::decrypt`); the error is its message.
/// Decrypting what encryption produced under the same key and nonce gives the plaintext back.
#[verifier::external_body]
pub(crate) fn aes_gcm_decrypt(key: &[u8; 32], nonce: &[u8], ciphertext: &[u8]) -> (r: Result<Vec<u8>, String>)
    requires
        nonce@.len() == 12,
    ensures
        match r {
            Ok(p) => aead_open(key@, nonce@, ciphertext@) == Some(p@),
            Err(_) => aead_open(key@, nonce@, ciphertext@) is None,
        },
        r is Ok || forall|p: Seq<u8>| #[trigger] aead_seal(key@, nonce@, p) != Some(ciphertext@),
        r matches Ok(q) ==> forall|p: Seq<u8>| #[trigger] aead_seal(key@, nonce@, p) == Some(ciphertext@) ==> q@ == p,
{
    let cipher = <aes_gcm::Aes256Gcm as aes_gcm::aead::KeyInit>::new(key.into());
    aes_gcm::aead::Aead::decrypt(&cipher, aes_gcm::Nonce::from_slice(nonce), ciphertext).map_err(|e| e.to_string())
}

/// Standard Base64 encoding (`base64::engine::general_purpose::STANDARD`).
#[verifier::external_body]
pub(crate) fn base64_encode(data: &[u8]) -> (r: String)
    ensures
        r@ == base64_text(data@),
{
    base64::Engine::encode(&base64::engine::general_purpose::STANDARD, data)
}

/// Standard Base64 decoding; the error is its message. Decoding an encoding gives the
/// bytes back.
#[verifier::external_body]
pub(crate) fn base64_decode(text: &str) -> (r: Result<Vec<u8>, String>)
    ensures
        match r {
            Ok(b) => base64_bytes(text@) == Some(b@),
            Err(_) => base64_bytes(text@) is None,
        },
        r is Ok || forall|b: Seq<u8>| #[trigger] base64_text(b) != text@,
        r matches Ok(d) ==> forall|b: Seq<u8>| #[trigger] base64_text(b) == text@ ==> d@ == b,
{
    base64::Engine::decode(&base64::engine::general_purpose::STANDARD, text).map_err(|e| e.to_string())
}

/// UTF-8 decoding of bytes (`String::from_utf8`): text exactly when the bytes are valid UTF-8.
#[verifier::external_body]
fn utf8_decode(bytes: Vec<u8>) -> (r: Result<String, String>)
    ensures
        match r {
            Ok(s) => valid_utf8(bytes@) && s@ == decode_utf8(bytes@),
            Err(_) => !valid_utf8(bytes@),
        },
{
    String::from_utf8(bytes).map_err(|e| e.to_string())
}

/// `encoded` is the Base64 of a 12-byte nonce followed by the AES-GCM encryption of
/// `plaintext` under `key` and that nonce (the plaintext's length plus a 16-byte tag).
pub open spec fn sealed(key: Seq<u8>, encoded: Seq<char>, plaintext: Seq<u8>) -> bool {
    exists|nonce: Seq<u8>, ct: Seq<u8>|
        #![trigger aead_seal(key, nonce, plaintext), base64_text(nonce + ct)]
        nonce.len() == 12 && aead_seal(key, nonce, plaintext) == Some(ct) && ct.len() == plaintext.len() + 16
            && encoded == base64_text(nonce + ct)
}

/// The stored hash of a startup password: hex of SHA-256 of its UTF-8 bytes.
pub open spec fn hashed_password(password: Seq<char>) -> Seq<char> {
    hex_lower(sha256(encode_utf8(password)))
}

/// Encryption service for passwords, cookies and other secrets.
pub struct CryptoService {
    key: [u8; 32],
}

impl CryptoService {
    /// The AES-256 key in use.
    pub closed spec fn key(&self) -> Seq<u8> {
        self.key@
    }

    /// A service whose key is the SHA-256 of the given bytes.
    pub fn new(key: &[u8]) -> (s: Self)
        ensures
            s.key() == sha256(key@),
    {
        CryptoService { key: sha256_digest(key) }
    }

    /// A service keyed by a password.
    pub fn from_password(password: &str) -> (s: Self)
        ensures
            s.key() == sha256(encode_utf8(password@)),
    {
        Self::new(password.as_bytes())
    }

    /// A service keyed by a device identifier.
    pub fn from_device_id(device_id: &str) -> (s: Self)
        ensures
            s.key() == sha256(encode_utf8(device_id@)),
    {
        Self::new(device_id.as_bytes())
    }

    /// A random 32-byte key.
    pub fn generate_key() -> (r: [u8; 32]) {
        random_key()
    }

    /// Encrypts with a fresh random nonce; the result is the Base64 of the nonce followed
    /// by the ciphertext.
    pub fn encrypt(&self, plaintext: &[u8]) -> (r: AppResult<String>)
        ensures
            r matches Ok(s) ==> sealed(self.key(), s@, plaintext@),
            r is Ok <==> plaintext@.len() <= aes_gcm_max_plaintext(),
            r matches Err(e) ==> e is Crypto,
    {
        let nonce = random_nonce();
        match aes_gcm_encrypt(&self.key, &nonce, plaintext) {
            Ok(ct) => {
                let mut data: Vec<u8> = Vec::new();
                let mut i: usize = 0;
                while i < 12
                    invariant
                        i <= 12,
                        nonce@.len() == 12,
                        data@ == nonce@.take(i as int),
                    decreases 12 - i,
                {
                    data.push(nonce[i]);
                    i = i + 1;
                    assert(data@ =~= nonce@.take(i as int));
                }
                let mut j: usize = 0;
                while j < ct.len()
                    invariant
                        j <= ct.len(),
                        nonce@.len() == 12,
                        data@ == nonce@ + ct@.take(j as int),
                    decreases ct.len() - j,
                {
                    data.push(ct[j]);
                    j = j + 1;
                    assert(data@ =~= nonce@ + ct@.take(j as int));
                }
                assert(nonce@.take(12) =~= nonce@);
                assert(ct@.take(ct.len() as int) =~= ct@);
                let out = base64_encode(data.as_slice());
                assert(sealed(self.key(), out@, plaintext@));
                Ok(out)
            },
            Err(e) => Err(AppError::Crypto(concat_str("加密失败: ", e.as_str()))),
        }
    }

    /// Decrypts the Base64 of a nonce followed by a ciphertext. Text that encryption under
    /// this key produced decrypts to the encrypted bytes.
    pub fn decrypt(&self, encoded: &str) -> (r: AppResult<Vec<u8>>)
        ensures
            forall|p: Seq<u8>| sealed(self.key(), encoded@, p) ==> (r matches Ok(q) && q@ == p),
            r matches Ok(q) ==> base64_bytes(encoded@) matches Some(d) && d.len() >= 12
                && aead_open(self.key(), d.take(12), d.skip(12)) == Some(q@),
            r matches Err(e) ==> e is Crypto,
    {
        let data = match base64_decode(encoded) {
            Ok(d) => d,
            Err(e) => {
                return Err(AppError::Crypto(concat_str("Base64解码失败: ", e.as_str())));
            },
        };
        if data.len() < 12 {
            proof {
                assert forall|p: Seq<u8>| !sealed(self.key(), encoded@, p) by {
                    if sealed(self.key(), encoded@, p) {
                        let (n, c) = choose|n: Seq<u8>, c: Seq<u8>| n.len() == 12 && aead_seal(self.key(), n, p) == Some(c) && encoded@ == base64_text(n + c);
                        assert(base64_text(n + c) == encoded@);
                    }
                }
            }
            return Err(AppError::Crypto("密文数据过短".to_string()));
        }
        let nonce = crate::text::slice_u8(&data, 0, 12);
        let ct = crate::text::slice_u8(&data, 12, data.len());
        let res = aes_gcm_decrypt(&self.key, nonce.as_slice(), ct.as_slice());
        proof {
            assert forall|p: Seq<u8>| sealed(self.key(), encoded@, p) implies (res matches Ok(q) && q@ == p) by {
                let (n, c) = choose|n: Seq<u8>, c: Seq<u8>| n.len() == 12 && aead_seal(self.key(), n, p) == Some(c) && encoded@ == base64_text(n + c);
                assert(base64_text(n + c) == encoded@);
                assert(data@ == n + c);
                assert(nonce@ =~= n);
                assert(ct@ =~= c);
                assert(aead_seal(self.key(), nonce@, p) == Some(ct@));
            }
        }
        match res {
            Ok(p) => Ok(p),
            Err(e) => Err(AppError::Crypto(concat_str("解密失败: ", e.as_str()))),
        }
    }

    /// Encrypts the UTF-8 bytes of a text.
    pub fn encrypt_string(&self, plaintext: &str) -> (r: AppResult<String>)
        ensures
            r matches Ok(s) ==> sealed(self.key(), s@, encode_utf8(plaintext@)),
            r is Ok <==> encode_utf8(plaintext@).len() <= aes_gcm_max_plaintext(),
            r matches Err(e) ==> e is Crypto,
    {
        self.encrypt(plaintext.as_bytes())
    }

    /// Decrypts to a text. Text that `encrypt_string` produced under this key decrypts to
    /// the original text.
    pub fn decrypt_string(&self, encoded: &str) -> (r: AppResult<String>)
        ensures
            forall|t: Seq<char>| sealed(self.key(), encoded@, encode_utf8(t)) ==> (r matches Ok(s) && s@ == t),
            r matches Err(e) ==> e is Crypto,
    {
        let bytes = match self.decrypt(encoded) {
            Ok(b) => b,
            Err(e) => {
                return Err(e);
            },
        };
        proof {
            assert forall|t: Seq<char>| sealed(self.key(), encoded@, encode_utf8(t)) implies bytes@ == encode_utf8(t) && valid_utf8(bytes@) && decode_utf8(bytes@) == t by {
                vstd::utf8::encode_utf8_valid_utf8(t);
                vstd::utf8::encode_utf8_decode_utf8(t);
            }
        }
        match utf8_decode(bytes) {
            Ok(s) => Ok(s),
            Err(e) => Err(AppError::Crypto(concat_str("UTF-8解码失败: ", e.as_str()))),
        }
    }

    /// Hex SHA-256 of the UTF-8 bytes of a password.
    pub fn hash_password(password: &str) -> (r: String)
        ensures
            r@ == hashed_password(password@),
    {
        let digest = sha256_digest(password.as_bytes());
        hex_encode(&digest)
    }

    /// The password hashes to the stored hash (compared in constant time).
    pub fn verify_password(password: &str, hash: &str) -> (b: bool)
        ensures
            b == (hash@ == hashed_password(password@)),
    {
        let computed = Self::hash_password(password);
        let r = bytes_ct_eq(computed.as_str().as_bytes(), hash.as_bytes());
        proof {
            vstd::utf8::encode_utf8_decode_utf8(computed@);
            vstd::utf8::encode_utf8_decode_utf8(hash@);
        }
        r
    }
}

} // verus!
