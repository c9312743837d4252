//! End-to-end encryption of a message body: AES-256-GCM under the topic's
//! key, framed as a version byte, the nonce and the sealed bytes, and
//! written as base64 text.

use vstd::prelude::*;
use aes_gcm::aead::{Aead, KeyInit};
use base64::Engine;
use rand::Rng;
use crate::error::Error;

verus! {

/// The version byte that a framed payload starts with.
pub const PAYLOAD_VERSION: u8 = 1;

/// The length of an AES-256 key, in bytes.
pub const KEY_LEN: usize = 32;

/// The length of a nonce, in bytes.
pub const NONCE_LEN: usize = 12;

/// The length of the tag that AES-GCM appends, in bytes.
pub const TAG_LEN: usize = 16;

/// The longest plaintext that AES-GCM takes, in bytes.
pub const MAX_PLAINTEXT_LEN: u64 = 0x10_0000_0000;

/// The standard base64 text, with padding, of `bytes`.
pub uninterp spec fn base64_text(bytes: Seq<u8>) -> Seq<char>;

/// The bytes that `text` is the standard base64 form of, if it is one.
pub uninterp spec fn base64_bytes(text: Seq<char>) -> Option<Seq<u8>>;

/// What AES-256-GCM makes of a plaintext under a key and a nonce, with no
/// associated data: the ciphertext followed by the tag.
pub uninterp spec fn aes256_gcm_sealed(key: Seq<u8>, nonce: Seq<u8>, plaintext: Seq<u8>) -> Seq<u8>;

/// The plaintext that AES-256-GCM recovers from sealed bytes under a key and
/// a nonce, with no associated data; none where the tag does not fit.
pub uninterp spec fn aes256_gcm_opened(key: Seq<u8>, nonce: Seq<u8>, sealed: Seq<u8>) -> Option<
    Seq<u8>,
>;

/// The bytes of an optional byte vector.
pub open spec fn bytes_of(bytes: Option<Vec<u8>>) -> Option<Seq<u8>> {
    match bytes {
        Some(b) => Some(b@),
        None => None,
    }
}

/// Whether the base64 text of `len` bytes can be allocated on this machine.
pub open spec fn encodable_len(len: nat) -> bool {
    4 * ((len + 2) / 3) <= isize::MAX
}

/// Whether a plaintext of `len` bytes can be sealed and framed: the cipher
/// takes no more than 2^36 bytes, and the text must fit in memory.
pub open spec fn sealable_len(len: nat) -> bool {
    len <= MAX_PLAINTEXT_LEN && len <= isize::MAX / 2
}

/// Encodes with `base64::engine::general_purpose::STANDARD.encode`. The
/// contract names the text and adds what the crate exists for: decoding it
/// gives the bytes back. Left out by `requires`: a length whose encoded
/// size the crate refuses to compute or allocate.
#[verifier::external_body]
pub(crate) fn encode_base64(bytes: &Vec<u8>) -> (text: String)
    requires
        encodable_len(bytes@.len()),
    ensures
        text@ == base64_text(bytes@),
        base64_bytes(text@) == Some(bytes@),
{
    base64::engine::general_purpose::STANDARD.encode(bytes)
}

/// Decodes with `base64::engine::general_purpose::STANDARD.decode`; a text
/// that the crate refuses gives `None`.
#[verifier::external_body]
pub(crate) fn decode_base64(text: &str) -> (bytes: Option<Vec<u8>>)
    ensures
        bytes_of(bytes) == base64_bytes(text@),
{
    match base64::engine::general_purpose::STANDARD.decode(text) {
        Ok(bytes) => Some(bytes),
        Err(_) => None,
    }
}

/// Seals with `Aes256Gcm::encrypt` of the `aes-gcm` crate. As its source
/// shows, the call fails exactly on a plaintext of more than 2^36 bytes, and
/// the result is 16 bytes longer than the plaintext; opening the result
/// under the same key and nonce gives the plaintext back. Left out by
/// `requires`: a key or a nonce of another length, on which the crate
/// panics, and a result too long to allocate.
#[verifier::external_body]
pub(crate) fn seal(key: &Vec<u8>, nonce: &Vec<u8>, plaintext: &Vec<u8>) -> (sealed: Option<Vec<u8>>)
    requires
        key@.len() == KEY_LEN,
        nonce@.len() == NONCE_LEN,
        plaintext@.len() + TAG_LEN <= isize::MAX,
    ensures
        sealed is Some <==> plaintext@.len() <= MAX_PLAINTEXT_LEN,
        sealed matches Some(s) ==> {
            &&& s@ == aes256_gcm_sealed(key@, nonce@, plaintext@)
            &&& s@.len() == plaintext@.len() + TAG_LEN
            &&& aes256_gcm_opened(key@, nonce@, s@) == Some(plaintext@)
        },
{
    let cipher = aes_gcm::Aes256Gcm::new(aes_gcm::Key::<aes_gcm::Aes256Gcm>::from_slice(key));
    match cipher.encrypt(aes_gcm::Nonce::from_slice(nonce), plaintext.as_slice()) {
        Ok(sealed) => Some(sealed),
        Err(_) => None,
    }
}

/// Opens with `Aes256Gcm::decrypt` of the `aes-gcm` crate; `None` where the
/// crate refuses the bytes. Left out by `requires`: a key or a nonce of
/// another length, on which the crate panics.
#[verifier::external_body]
pub(crate) fn open(key: &Vec<u8>, nonce: &Vec<u8>, sealed: &Vec<u8>) -> (plaintext: Option<Vec<u8>>)
    requires
        key@.len() == KEY_LEN,
        nonce@.len() == NONCE_LEN,
    ensures
        bytes_of(plaintext) == aes256_gcm_opened(key@, nonce@, sealed@),
{
    let cipher = aes_gcm::Aes256Gcm::new(aes_gcm::Key::<aes_gcm::Aes256Gcm>::from_slice(key));
    match cipher.decrypt(aes_gcm::Nonce::from_slice(nonce), sealed.as_slice()) {
        Ok(plaintext) => Some(plaintext),
        Err(_) => None,
    }
}

/// Draws 12 bytes with `rand::thread_rng().fill`. Nothing is claimed of
/// the bytes but their number. The call panics where the operating system
/// can supply no randomness.
#[verifier::external_body]
pub(crate) fn fresh_nonce() -> (nonce: Vec<u8>)
    ensures
        nonce@.len() == NONCE_LEN,
{
    let mut bytes = [0u8; 12];
    rand::thread_rng().fill(&mut bytes);
    bytes.to_vec()
}

/// The framed payload: the version byte, the nonce, the sealed bytes.
pub open spec fn framed(nonce: Seq<u8>, sealed: Seq<u8>) -> Seq<u8> {
    seq![PAYLOAD_VERSION] + nonce + sealed
}

/// The key that `key_text` writes: its base64 bytes, if they are exactly 32.
pub open spec fn key_of(key_text: Seq<char>) -> Option<Seq<u8>> {
    match base64_bytes(key_text) {
        Some(key) => if key.len() == KEY_LEN {
            Some(key)
        } else {
            None
        },
        None => None,
    }
}

/// The text that sealing `plaintext` under `key` and `nonce` gives.
pub open spec fn sealed_text(key: Seq<u8>, nonce: Seq<u8>, plaintext: Seq<u8>) -> Seq<char> {
    base64_text(framed(nonce, aes256_gcm_sealed(key, nonce, plaintext)))
}

/// The plaintext that a payload text holds under a key text: the payload
/// is decoded from base64, its first byte must be the version, its next 12
/// bytes are the nonce, and the rest is opened with the key. A key or a
/// payload that does not have this form holds none.
pub open spec fn opened_text(key_text: Seq<char>, payload_text: Seq<char>) -> Option<Seq<u8>> {
    match (key_of(key_text), base64_bytes(payload_text)) {
        (Some(key), Some(payload)) => if payload.len() >= 1 + NONCE_LEN && payload[0]
            == PAYLOAD_VERSION {
            aes256_gcm_opened(
                key,
                payload.subrange(1, 1 + NONCE_LEN as int),
                payload.subrange(1 + NONCE_LEN as int, payload.len() as int),
            )
        } else {
            None
        },
        _ => None,
    }
}

/// Reads a topic key: base64 text of exactly 32 bytes.
pub fn read_key(key_text: &str) -> (key: Option<Vec<u8>>)
    ensures
        bytes_of(key) == key_of(key_text@),
{
    match decode_base64(key_text) {
        Some(bytes) => if bytes.len() == KEY_LEN {
            Some(bytes)
        } else {
            None
        },
        None => None,
    }
}

/// Puts the version byte, the nonce and the sealed bytes in a row.
pub fn frame(nonce: &Vec<u8>, sealed: &Vec<u8>) -> (payload: Vec<u8>)
    requires
        1 + nonce@.len() + sealed@.len() <= usize::MAX,
    ensures
        payload@ == framed(nonce@, sealed@),
{
    let mut payload: Vec<u8> = Vec::new();
    payload.push(PAYLOAD_VERSION);
    let mut i: usize = 0;
    while i < nonce.len()
        invariant
            i <= nonce.len(),
            payload@ == seq![PAYLOAD_VERSION] + nonce@.subrange(0, i as int),
        decreases nonce.len() - i,
    {
        payload.push(nonce[i]);
        i = i + 1;
        assert(payload@ =~= seq![PAYLOAD_VERSION] + nonce@.subrange(0, i as int));
    }
    assert(nonce@.subrange(0, i as int) =~= nonce@);
    let mut j: usize = 0;
    while j < sealed.len()
        invariant
            j <= sealed.len(),
            payload@ == seq![PAYLOAD_VERSION] + nonce@ + sealed@.subrange(0, j as int),
        decreases sealed.len() - j,
    {
        payload.push(sealed[j]);
        j = j + 1;
        assert(payload@ =~= seq![PAYLOAD_VERSION] + nonce@ + sealed@.subrange(0, j as int));
    }
    assert(sealed@.subrange(0, j as int) =~= sealed@);
    payload
}

fn part(bytes: &Vec<u8>, from: usize, to: usize) -> (out: Vec<u8>)
    requires
        from <= to <= bytes@.len(),
    ensures
        out@ == bytes@.subrange(from as int, to as int),
{
    let mut out: Vec<u8> = Vec::new();
    let mut i: usize = from;
    while i < to
        invariant
            from <= i <= to <= bytes@.len(),
            out@ == bytes@.subrange(from as int, i as int),
        decreases to - i,
    {
        out.push(bytes[i]);
        i = i + 1;
        assert(out@ =~= bytes@.subrange(from as int, i as int));
    }
    out
}

/// Seals `plaintext` under the key that `key_text` writes, with `nonce`,
/// and gives the payload text.
///
/// The answer is `BadKey` where the key text is not base64 of exactly 32
/// bytes, and `EncryptionFailed` where the plaintext is too long to seal.
/// In every other case the payload text is given, and opening it with the
/// same key text gives the plaintext back.
pub fn seal_message(key_text: &str, nonce: &Vec<u8>, plaintext: &Vec<u8>) -> (r: Result<
    String,
    Error,
>)
    requires
        nonce@.len() == NONCE_LEN,
    ensures
        key_of(key_text@) is None ==> r == Err::<String, Error>(Error::BadKey),
        key_of(key_text@) is Some && !sealable_len(plaintext@.len()) ==> r == Err::<String, Error>(
            Error::EncryptionFailed,
        ),
        key_of(key_text@) is Some && sealable_len(plaintext@.len()) ==> {
            &&& r matches Ok(text)
            &&& text@ == sealed_text(key_of(key_text@)->0, nonce@, plaintext@)
            &&& opened_text(key_text@, text@) == Some(plaintext@)
        },
{
    let key = match read_key(key_text) {
        Some(key) => key,
        None => { return Err(Error::BadKey); },
    };
    if plaintext.len() as u64 > MAX_PLAINTEXT_LEN || plaintext.len() > (isize::MAX as usize) / 2 {
        return Err(Error::EncryptionFailed);
    }
    match seal(&key, nonce, plaintext) {
        None => Err(Error::EncryptionFailed),
        Some(sealed) => {
            let payload = frame(nonce, &sealed);
            let text = encode_base64(&payload);
            proof {
                assert(payload@.subrange(1, 1 + NONCE_LEN as int) =~= nonce@);
                assert(payload@.subrange(1 + NONCE_LEN as int, payload@.len() as int) =~= sealed@);
            }
            Ok(text)
        },
    }
}

/// Opens a payload text with the key that `key_text` writes and gives the
/// plaintext; `None` where the key text or the payload does not have the
/// form that [`seal_message`] gives, or the payload was made under another
/// key or altered.
pub fn open_message(key_text: &str, payload_text: &str) -> (r: Option<Vec<u8>>)
    ensures
        bytes_of(r) == opened_text(key_text@, payload_text@),
{
    let key = match read_key(key_text) {
        Some(key) => key,
        None => { return None; },
    };
    let payload = match decode_base64(payload_text) {
        Some(payload) => payload,
        None => { return None; },
    };
    if payload.len() < 1 + NONCE_LEN || payload[0] != PAYLOAD_VERSION {
        return None;
    }
    let nonce = part(&payload, 1, 1 + NONCE_LEN);
    let sealed = part(&payload, 1 + NONCE_LEN, payload.len());
    open(&key, &nonce, &sealed)
}

} // verus!
