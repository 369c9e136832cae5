//! Stored credentials: sealed with AES-256-GCM under a device key and
//! written as text, so that no password lies on disk in the clear.

use vstd::prelude::*;
use vstd::string::{StrSliceExecFns, StringExecFns, StringSliceAdditionalSpecFns};
use vstd::utf8::encode_utf8;
use aes_gcm::aead::Aead;
use aes_gcm::KeyInit;
use base64::Engine;
use rand_core::RngCore;
use crate::text::{chars_of, decode_lossy, string_of, text_of, utf8_lossy};

verus! {

/// Length of the device key in bytes.
pub const KEY_LEN: usize = 32;

/// Length of the nonce of one sealed value in bytes.
pub const NONCE_LEN: usize = 12;

/// Why a credential could not be sealed or read back.
#[derive(Debug, Clone, Copy, PartialEq, Eq, Structural)]
pub enum SecretError {
    /// The system gave no random bytes.
    Random,
    /// The cipher refused to seal the value.
    Cipher,
    /// The stored text is not of the form that sealing writes.
    Malformed,
}

#[verifier::external_type_specification]
#[verifier::external_body]
pub struct ExCipherError(aes_gcm::Error);

#[verifier::external_type_specification]
#[verifier::external_body]
pub struct ExDecodeError(base64::DecodeError);

#[verifier::external_type_specification]
#[verifier::external_body]
pub struct ExRandomError(rand_core::Error);

/// What AES-256-GCM makes of `plaintext` under `key` and `nonce`, without
/// associated data: the ciphertext with its tag, or nothing where the
/// cipher refuses.
pub uninterp spec fn sealed(key: Seq<u8>, nonce: Seq<u8>, plaintext: Seq<u8>) -> Option<Seq<u8>>;

/// What AES-256-GCM recovers from `ciphertext` under `key` and `nonce`,
/// without associated data: the plaintext, or nothing where the tag does
/// not fit.
pub uninterp spec fn opened(key: Seq<u8>, nonce: Seq<u8>, ciphertext: Seq<u8>) -> Option<Seq<u8>>;

/// The standard base64 text of `bytes`, without padding.
pub uninterp spec fn base64_of(bytes: Seq<u8>) -> Seq<char>;

/// The bytes that the unpadded standard base64 text `text` stands for, or
/// nothing where it is no such text.
pub uninterp spec fn base64_bytes(text: Seq<char>) -> Option<Seq<u8>>;

/// `rand_core::OsRng::try_fill_bytes` fills a buffer with random bytes from
/// the operating system, or reports that it has none. The bytes differ from
/// call to call; only their number is known.
#[verifier::external_body]
pub(crate) fn random_bytes(n: usize) -> (r: Result<Vec<u8>, rand_core::Error>)
    ensures
        r matches Ok(v) ==> v@.len() == n,
{
    let mut buf = vec![0u8; n];
    rand_core::OsRng.try_fill_bytes(&mut buf)?;
    Ok(buf)
}

/// `Aead::encrypt` of `aes_gcm::Aes256Gcm` seals the plaintext under the
/// key and the nonce. The result depends on these three alone.
#[verifier::external_body]
fn seal(key: &[u8; 32], nonce: &[u8; 12], plaintext: &Vec<u8>) -> (r: Result<
    Vec<u8>,
    aes_gcm::Error,
>)
    ensures
        match r {
            Ok(c) => sealed(key@, nonce@, plaintext@) == Some(c@),
            Err(_) => sealed(key@, nonce@, plaintext@) is None,
        },
{
    let cipher = aes_gcm::Aes256Gcm::new(aes_gcm::Key::<aes_gcm::Aes256Gcm>::from_slice(key));
    cipher.encrypt(aes_gcm::Nonce::from_slice(nonce), plaintext.as_slice())
}

/// `Aead::decrypt` of `aes_gcm::Aes256Gcm` checks the tag of the
/// ciphertext under the key and the nonce and gives the plaintext back.
/// The result depends on these three alone.
#[verifier::external_body]
fn open(key: &[u8; 32], nonce: &Vec<u8>, ciphertext: &Vec<u8>) -> (r: Result<
    Vec<u8>,
    aes_gcm::Error,
>)
    requires
        nonce@.len() == NONCE_LEN,
    ensures
        match r {
            Ok(p) => opened(key@, nonce@, ciphertext@) == Some(p@),
            Err(_) => opened(key@, nonce@, ciphertext@) is None,
        },
{
    let cipher = aes_gcm::Aes256Gcm::new(aes_gcm::Key::<aes_gcm::Aes256Gcm>::from_slice(key));
    cipher.decrypt(aes_gcm::Nonce::from_slice(nonce), ciphertext.as_slice())
}

/// `Engine::encode` of `base64::engine::general_purpose::STANDARD_NO_PAD`
/// writes bytes as standard base64 without padding.
#[verifier::external_body]
fn base64_encode(bytes: &[u8]) -> (s: String)
    ensures
        s@ == base64_of(bytes@),
{
    base64::engine::general_purpose::STANDARD_NO_PAD.encode(bytes)
}

/// `Engine::decode` of `base64::engine::general_purpose::STANDARD_NO_PAD`
/// reads unpadded standard base64, or reports why the text is none.
#[verifier::external_body]
fn base64_decode(text: &str) -> (r: Result<Vec<u8>, base64::DecodeError>)
    ensures
        match r {
            Ok(b) => base64_bytes(text@) == Some(b@),
            Err(_) => base64_bytes(text@) is None,
        },
{
    base64::engine::general_purpose::STANDARD_NO_PAD.decode(text)
}

/// The text under which a sealed value is stored: `v1:`, the nonce in
/// base64, a colon, and the ciphertext in base64.
pub open spec fn framed(nonce: Seq<u8>, ciphertext: Seq<u8>) -> Seq<char> {
    seq!['v', '1', ':'] + base64_of(nonce) + seq![':'] + base64_of(ciphertext)
}

/// The stored form of `plaintext` sealed under `key` with `nonce`. The
/// empty text is stored as it is.
pub open spec fn encrypted(key: Seq<u8>, nonce: Seq<u8>, plaintext: Seq<char>) -> Result<
    Seq<char>,
    SecretError,
> {
    if plaintext.len() == 0 {
        Ok(Seq::empty())
    } else {
        match sealed(key, nonce, encode_utf8(plaintext)) {
            Some(c) => Ok(framed(nonce, c)),
            None => Err(SecretError::Cipher),
        }
    }
}

/// The index of the first colon in `s`, or the length of `s` if it has
/// none.
pub open spec fn first_colon(s: Seq<char>) -> int
    decreases s.len(),
{
    if s.len() == 0 {
        0
    } else if s[0] == ':' {
        0
    } else {
        1 + first_colon(s.drop_first())
    }
}

/// Whether `s` begins with `v1:`.
pub open spec fn is_sealed(s: Seq<char>) -> bool {
    s.len() >= 3 && s[0] == 'v' && s[1] == '1' && s[2] == ':'
}

/// What a stored value reads back to under `key`.
///
/// No value and the empty text are read as they are. A text that begins
/// with `v1:` holds, up to the next colon, the nonce and, after it, the
/// ciphertext, both in base64; it is malformed if either is not base64 or
/// the nonce has not 12 bytes. Where the tag does not fit there is no
/// value; where it fits the plaintext is decoded as UTF-8. Any other text
/// was stored before values were sealed and is the value itself.
pub open spec fn decrypted(key: Seq<u8>, stored: Option<Seq<char>>) -> Result<
    Option<Seq<char>>,
    SecretError,
> {
    match stored {
        None => Ok(None),
        Some(v) => if v.len() == 0 {
            Ok(Some(v))
        } else if is_sealed(v) {
            let rest = v.skip(3);
            let colon = first_colon(rest);
            let nonce_text = rest.take(colon);
            let data_text = if colon < rest.len() {
                rest.skip(colon + 1)
            } else {
                Seq::empty()
            };
            match (base64_bytes(nonce_text), base64_bytes(data_text)) {
                (Some(nonce), Some(data)) => if nonce.len() == NONCE_LEN {
                    match opened(key, nonce, data) {
                        Some(p) => Ok(Some(utf8_lossy(p))),
                        None => Ok(None),
                    }
                } else {
                    Err(SecretError::Malformed)
                },
                _ => Err(SecretError::Malformed),
            }
        } else {
            Ok(Some(v))
        },
    }
}

/// The device key held in `bytes`: they are the key if they are 32.
pub open spec fn key_in(bytes: Seq<u8>) -> Option<Seq<u8>> {
    if bytes.len() == KEY_LEN {
        Some(bytes)
    } else {
        None
    }
}

/// The stored form of `plaintext` sealed under `key` with the nonce
/// `nonce`.
pub fn encrypt_with_nonce(key: &[u8; 32], nonce: &[u8; 12], plaintext: &str) -> (r: Result<
    String,
    SecretError,
>)
    ensures
        match r {
            Ok(s) => encrypted(key@, nonce@, plaintext@) == Ok::<Seq<char>, SecretError>(s@),
            Err(e) => encrypted(key@, nonce@, plaintext@) == Err::<Seq<char>, SecretError>(e),
        },
{
    if plaintext.is_empty() {
        return Ok(String::new());
    }
    let bytes = plaintext.as_bytes_vec();
    match seal(key, nonce, &bytes) {
        Ok(ciphertext) => {
            proof {
                reveal_strlit("v1:");
                reveal_strlit(":");
                assert("v1:"@ =~= seq!['v', '1', ':']);
                assert(":"@ =~= seq![':']);
            }
            let text = String::from_str("v1:").concat(base64_encode(nonce).as_str()).concat(
                ":",
            ).concat(base64_encode(ciphertext.as_slice()).as_str());
            Ok(text)
        },
        Err(_) => Err(SecretError::Cipher),
    }
}

/// The stored form of `plaintext` sealed under `key` with a nonce drawn at
/// random. Two calls give different texts; each is the sealing with some
/// nonce of 12 bytes.
pub fn encrypt(key: &[u8; 32], plaintext: &str) -> (r: Result<String, SecretError>)
    ensures
        match r {
            Ok(s) => exists|nonce: Seq<u8>|
                nonce.len() == NONCE_LEN && #[trigger] encrypted(key@, nonce, plaintext@) == Ok::<
                    Seq<char>,
                    SecretError,
                >(s@),
            Err(e) => e == SecretError::Random || exists|nonce: Seq<u8>|
                nonce.len() == NONCE_LEN && #[trigger] encrypted(key@, nonce, plaintext@) == Err::<
                    Seq<char>,
                    SecretError,
                >(e),
        },
        plaintext@.len() == 0 ==> r is Ok,
{
    if plaintext.is_empty() {
        let ghost nonce = Seq::new(NONCE_LEN as nat, |i: int| 0u8);
        assert(encrypted(key@, nonce, plaintext@) == Ok::<Seq<char>, SecretError>(Seq::empty()));
        return Ok(String::new());
    }
    match random_bytes(NONCE_LEN) {
        Ok(bytes) => {
            let mut nonce = [0u8; 12];
            let mut i: usize = 0;
            while i < 12
                invariant
                    i <= 12,
                    bytes.len() == 12,
                decreases 12 - i,
            {
                nonce[i] = bytes[i];
                i = i + 1;
            }
            encrypt_with_nonce(key, &nonce, plaintext)
        },
        Err(_) => Err(SecretError::Random),
    }
}

/// The index of the first colon in `v[from..]`, counted from `from`.
fn find_colon(v: &Vec<char>, from: usize) -> (k: usize)
    requires
        from <= v.len(),
    ensures
        from + k <= v.len(),
        k == first_colon(v@.skip(from as int)),
{
    let mut k: usize = 0;
    while from + k < v.len() && v[from + k] != ':'
        invariant
            from + k <= v.len(),
            first_colon(v@.skip(from as int)) == k + first_colon(v@.skip(from + k)),
        decreases v.len() - from - k,
    {
        assert(v@.skip(from + k).drop_first() =~= v@.skip(from + k + 1));
        k = k + 1;
    }
    k
}

/// What the stored value `stored` reads back to under `key`.
pub fn decrypt(key: &[u8; 32], stored: &Option<String>) -> (r: Result<Option<String>, SecretError>)
    ensures
        match r {
            Ok(v) => decrypted(key@, text_of(*stored)) == Ok::<Option<Seq<char>>, SecretError>(
                text_of(v),
            ),
            Err(e) => decrypted(key@, text_of(*stored)) == Err::<Option<Seq<char>>, SecretError>(e),
        },
{
    let value = match stored {
        None => {
            return Ok(None);
        },
        Some(v) => v,
    };
    let v = chars_of(value.as_str());
    let n = v.len();
    if n == 0 {
        return Ok(Some(value.clone()));
    }
    if !(n >= 3 && v[0] == 'v' && v[1] == '1' && v[2] == ':') {
        return Ok(Some(value.clone()));
    }
    let colon = find_colon(&v, 3);
    let nonce_text = string_of(&v, 3, 3 + colon);
    let data_text = if 3 + colon < n {
        string_of(&v, 3 + colon + 1, n)
    } else {
        String::new()
    };
    proof {
        let rest = v@.skip(3);
        assert(rest.take(colon as int) =~= v@.subrange(3, 3 + colon));
        if 3 + colon < n {
            assert(rest.skip(colon + 1) =~= v@.subrange(3 + colon + 1, n as int));
        }
    }
    let nonce = match base64_decode(nonce_text.as_str()) {
        Ok(b) => b,
        Err(_) => {
            return Err(SecretError::Malformed);
        },
    };
    let data = match base64_decode(data_text.as_str()) {
        Ok(b) => b,
        Err(_) => {
            return Err(SecretError::Malformed);
        },
    };
    if nonce.len() != NONCE_LEN {
        return Err(SecretError::Malformed);
    }
    match open(key, &nonce, &data) {
        Ok(plain) => Ok(Some(decode_lossy(&plain))),
        Err(_) => Ok(None),
    }
}

/// The device key held in `bytes`, if they are one.
pub fn usable_key(bytes: &Vec<u8>) -> (r: Option<[u8; 32]>)
    ensures
        match r {
            Some(k) => key_in(bytes@) == Some(k@),
            None => key_in(bytes@) is None,
        },
{
    if bytes.len() != KEY_LEN {
        return None;
    }
    let mut key = [0u8; 32];
    let mut i: usize = 0;
    while i < 32
        invariant
            i <= 32,
            bytes.len() == 32,
            forall|j: int| 0 <= j < i ==> key@[j] == bytes@[j],
        decreases 32 - i,
    {
        key[i] = bytes[i];
        i = i + 1;
    }
    assert(key@ =~= bytes@);
    Some(key)
}

/// A new device key, drawn at random.
pub fn new_key() -> (r: Result<[u8; 32], SecretError>)
    ensures
        r matches Err(e) ==> e == SecretError::Random,
{
    match random_bytes(KEY_LEN) {
        Ok(bytes) => match usable_key(&bytes) {
            Some(k) => Ok(k),
            None => Err(SecretError::Random),
        },
        Err(_) => Err(SecretError::Random),
    }
}

} // verus!
