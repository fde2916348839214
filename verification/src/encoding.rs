//! Base64 and keyed hashes.

use base64::engine::general_purpose::{STANDARD, URL_SAFE, URL_SAFE_NO_PAD};
use base64::Engine;
use hmac::{Hmac, KeyInit, Mac};
use sha1::{Digest, Sha1};
use sha2::Sha256;
use vstd::prelude::*;

verus! {

/// Optional bytes, as their view.
pub open spec fn opt_bytes(value: Option<Vec<u8>>) -> Option<Seq<u8>> {
    match value {
        Some(bytes) => Some(bytes@),
        None => None,
    }
}

/// Bytes or the text of an error, as views.
pub open spec fn bytes_or_error(value: Result<Vec<u8>, String>) -> Result<Seq<u8>, Seq<char>> {
    match value {
        Ok(bytes) => Ok(bytes@),
        Err(error) => Err(error@),
    }
}

/// The bytes that a text in base64 with the standard alphabet and padding stands for, or the text
/// of the error.
pub uninterp spec fn base64_bytes(text: Seq<char>) -> Result<Seq<u8>, Seq<char>>;

/// `base64::Engine::decode` of the `STANDARD` engine: what a text decodes to, and the error where
/// it is no base64, depend on the text alone.
#[verifier::external_body]
pub(crate) fn decode_base64(text: &str) -> (bytes: Result<Vec<u8>, String>)
    ensures
        bytes_or_error(bytes) == base64_bytes(text@),
{
    STANDARD.decode(text).map_err(|error| error.to_string())
}

/// The base64 text of bytes, in the standard alphabet with padding.
pub uninterp spec fn base64_text(bytes: Seq<u8>) -> Seq<char>;

/// `base64::Engine::encode` of the `STANDARD` engine: the text depends on the bytes alone. No slice
/// is long enough for the length of the text not to fit a machine word.
#[verifier::external_body]
pub(crate) fn encode_base64(bytes: &[u8]) -> (text: String)
    ensures
        text@ == base64_text(bytes@),
{
    STANDARD.encode(bytes)
}

/// The bytes that a text in base64 with the URL alphabet and no padding stands for.
pub uninterp spec fn base64_url_unpadded_bytes(text: Seq<char>) -> Option<Seq<u8>>;

/// `base64::Engine::decode` of the `URL_SAFE_NO_PAD` engine: what a text decodes to, and whether
/// it does, depend on the text alone.
#[verifier::external_body]
pub(crate) fn decode_base64_url_unpadded(text: &str) -> (bytes: Option<Vec<u8>>)
    ensures
        opt_bytes(bytes) == base64_url_unpadded_bytes(text@),
{
    URL_SAFE_NO_PAD.decode(text).ok()
}

/// The bytes that a text in base64 with the URL alphabet and padding stands for.
pub uninterp spec fn base64_url_bytes(text: Seq<char>) -> Option<Seq<u8>>;

/// `base64::Engine::decode` of the `URL_SAFE` engine: what a text decodes to, and whether it does,
/// depend on the text alone.
#[verifier::external_body]
pub(crate) fn decode_base64_url(text: &str) -> (bytes: Option<Vec<u8>>)
    ensures
        opt_bytes(bytes) == base64_url_bytes(text@),
{
    URL_SAFE.decode(text).ok()
}

/// The HMAC-SHA-256 of a message under a key, where the key has a length that HMAC takes.
pub uninterp spec fn hmac_sha256_of(key: Seq<u8>, message: Seq<char>) -> Option<Seq<u8>>;

/// `hmac::Hmac::<Sha256>` over the UTF-8 bytes of a message: what comes out depends on the key and
/// the message alone, and is 32 bytes long.
#[verifier::external_body]
pub(crate) fn hmac_sha256(key: &[u8], message: &str) -> (code: Option<Vec<u8>>)
    ensures
        opt_bytes(code) == hmac_sha256_of(key@, message@),
        code matches Some(bytes) ==> bytes@.len() == 32,
{
    let mut mac = Hmac::<Sha256>::new_from_slice(key).ok()?;
    mac.update(message.as_bytes());
    Some(mac.finalize().into_bytes().to_vec())
}

/// The SHA-1 digest of bytes.
pub uninterp spec fn sha1_of(bytes: Seq<u8>) -> Seq<u8>;

/// `sha1::Sha1::digest`: the digest depends on the bytes alone, and is 20 bytes long.
#[verifier::external_body]
pub(crate) fn sha1(bytes: &[u8]) -> (digest: Vec<u8>)
    ensures
        digest@ == sha1_of(bytes@),
        digest@.len() == 20,
{
    Sha1::digest(bytes).to_vec()
}

/// A key of HMAC with SHA-1, brought to the length of a block: hashed where it is longer, filled up
/// with zeros where it is shorter.
pub open spec fn block_key(key: Seq<u8>) -> Seq<u8> {
    let short = if key.len() > 64 {
        sha1_of(key)
    } else {
        key
    };
    short + Seq::new((64 - short.len()) as nat, |k: int| 0u8)
}

/// The bytes of a block, each combined with one and the same byte.
pub open spec fn padded(block: Seq<u8>, pad: u8) -> Seq<u8> {
    block.map_values(|byte: u8| byte ^ pad)
}

/// The HMAC of a message under a key, with SHA-1.
pub open spec fn hmac_sha1_of(key: Seq<u8>, message: Seq<u8>) -> Seq<u8> {
    let block = block_key(key);
    sha1_of(padded(block, 0x5c) + sha1_of(padded(block, 0x36) + message))
}

fn normalize_key(key: &[u8]) -> (block: Vec<u8>)
    ensures
        block@ == block_key(key@),
        block@.len() == 64,
{
    let mut block: Vec<u8> = if key.len() > 64 {
        sha1(key)
    } else {
        slice_to_vec(key)
    };
    let ghost short = block@;
    while block.len() < 64
        invariant
            short.len() <= block@.len() <= 64,
            block@ == short + Seq::new((block@.len() - short.len()) as nat, |k: int| 0u8),
        decreases 64 - block@.len(),
    {
        block.push(0);
        assert(block@ =~= short + Seq::new((block@.len() - short.len()) as nat, |k: int| 0u8));
    }
    block
}

fn slice_to_vec(bytes: &[u8]) -> (copy: Vec<u8>)
    ensures
        copy@ == bytes@,
{
    let mut copy: Vec<u8> = Vec::new();
    let mut i: usize = 0;
    while i < bytes.len()
        invariant
            i <= bytes@.len(),
            copy@ == bytes@.take(i as int),
        decreases bytes@.len() - i,
    {
        copy.push(bytes[i]);
        i = i + 1;
        assert(copy@ =~= bytes@.take(i as int));
    }
    assert(bytes@.take(bytes@.len() as int) =~= bytes@);
    copy
}

/// The padded block with bytes after it.
fn pad_and_append(block: &Vec<u8>, pad: u8, rest: &[u8]) -> (bytes: Vec<u8>)
    ensures
        bytes@ == padded(block@, pad) + rest@,
{
    let mut bytes: Vec<u8> = Vec::new();
    let mut i: usize = 0;
    while i < block.len()
        invariant
            i <= block@.len(),
            bytes@ == padded(block@, pad).take(i as int),
        decreases block@.len() - i,
    {
        bytes.push(block[i] ^ pad);
        i = i + 1;
        assert(bytes@ =~= padded(block@, pad).take(i as int));
    }
    assert(padded(block@, pad).take(block@.len() as int) =~= padded(block@, pad));
    let mut j: usize = 0;
    assert(bytes@ =~= padded(block@, pad) + rest@.take(0));
    while j < rest.len()
        invariant
            j <= rest@.len(),
            bytes@ == padded(block@, pad) + rest@.take(j as int),
        decreases rest@.len() - j,
    {
        bytes.push(rest[j]);
        j = j + 1;
        assert(bytes@ =~= padded(block@, pad) + rest@.take(j as int));
    }
    assert(rest@.take(rest@.len() as int) =~= rest@);
    bytes
}

pub fn hmac_sha1(key: &[u8], message: &[u8]) -> (code: Vec<u8>)
    ensures
        code@ == hmac_sha1_of(key@, message@),
        code@.len() == 20,
{
    let block = normalize_key(key);
    let inner = sha1(pad_and_append(&block, 0x36, message).as_slice());
    sha1(pad_and_append(&block, 0x5c, inner.as_slice()).as_slice())
}

} // verus!
