//! The API key of a model: an HMAC-SHA256 of its id, in base64.

use vstd::prelude::*;
use vstd::string::*;

use base64::Engine as _;
use hmac::Mac;

use crate::text::append2;

verus! {

/// The HMAC-SHA256 of a message under a key, as the `hmac` and `sha2` crates
/// compute it.
pub uninterp spec fn hmac_sha256_of(key: Seq<u8>, message: Seq<u8>) -> Seq<u8>;

/// The letter of base64 for six bits.
pub open spec fn base64_letter(bits: int) -> char {
    "ABCDEFGHIJKLMNOPQRSTUVWXYZabcdefghijklmnopqrstuvwxyz0123456789+/"@[bits]
}

/// The four letters of base64 for the bits of three bytes, the highest first.
pub open spec fn base64_group(a: u8, b: u8, c: u8) -> Seq<char> {
    let bits = a * 65536 + b * 256 + c;
    seq![
        base64_letter(bits / 262144),
        base64_letter(bits / 4096 % 64),
        base64_letter(bits / 64 % 64),
        base64_letter(bits % 64),
    ]
}

/// Bytes in base64 with the standard alphabet: four letters for every three bytes.
/// In the last group `=` stands where there are no bytes any more.
pub open spec fn base64_of(bytes: Seq<u8>) -> Seq<char>
    decreases bytes.len(),
{
    if bytes.len() == 0 {
        Seq::empty()
    } else if bytes.len() == 1 {
        base64_group(bytes[0], 0, 0).take(2) + seq!['=', '=']
    } else if bytes.len() == 2 {
        base64_group(bytes[0], bytes[1], 0).take(3) + seq!['=']
    } else {
        base64_group(bytes[0], bytes[1], bytes[2]) + base64_of(bytes.skip(3))
    }
}

/// `Hmac::<Sha256>::new_from_slice`, `update` and `finalize`: the code of the
/// message under the key. A key of any length is taken, and the code has 32
/// bytes.
#[verifier::external_body]
fn hmac_sha256(key: &[u8], message: &[u8]) -> (r: Result<Vec<u8>, String>)
    ensures
        match r {
            Ok(code) => code@ == hmac_sha256_of(key@, message@) && code@.len() == 32,
            Err(_) => false,
        },
{
    let mut mac = hmac::Hmac::<sha2::Sha256>::new_from_slice(key).map_err(|e| e.to_string())?;
    mac.update(message);
    Ok(mac.finalize().into_bytes().to_vec())
}

/// `encode` of `base64::engine::general_purpose::STANDARD`: the bytes in base64 with
/// the standard alphabet, padded. Lengths whose encoding has no `usize` length are
/// left out.
#[verifier::external_body]
fn base64_encode(bytes: &[u8]) -> (r: String)
    requires
        (bytes@.len() + 2) / 3 * 4 <= usize::MAX,
    ensures
        r@ == base64_of(bytes@),
{
    base64::engine::general_purpose::STANDARD.encode(bytes)
}

/// The length of a text in base64.
proof fn lemma_base64_len(bytes: Seq<u8>)
    ensures
        base64_of(bytes).len() == (bytes.len() + 2) / 3 * 4,
    decreases bytes.len(),
{
    if bytes.len() > 2 {
        lemma_base64_len(bytes.skip(3));
    }
}

/// The API key of a model under a secret.
pub open spec fn api_key_of(model_id: Seq<char>, api_secret: Seq<char>) -> Seq<char> {
    base64_of(
        hmac_sha256_of(
            vstd::utf8::encode_utf8(api_secret),
            vstd::utf8::encode_utf8(model_id),
        ),
    )
}

/// The API key of a model: every model id and every secret has one.
pub fn generate_api_key(model_id: String, api_secret: String) -> (r: Result<String, String>)
    ensures
        match r {
            Ok(key) => key@ == api_key_of(model_id@, api_secret@) && key@.len() == 44,
            Err(_) => false,
        },
{
    match hmac_sha256(api_secret.as_str().as_bytes(), model_id.as_str().as_bytes()) {
        Ok(code) => {
            proof {
                lemma_base64_len(code@);
            }
            Ok(base64_encode(code.as_slice()))
        },
        Err(e) => Err(append2("Invalid key length: ", e.as_str())),
    }
}

} // verus!
