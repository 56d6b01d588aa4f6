//! The compute part of the shared-key-signed HTTP sink: the canonical
//! string to hash and the `SharedKey` authorization value, with the base64
//! codec and the HMAC-SHA256 digest taken from their crates behind trusted
//! wrappers.

use crate::text::dec_chars;
use base64::Engine;
use hmac::Mac;
use vstd::prelude::*;
use vstd::string::StringExecFns;

verus! {

/// What base64 decoding of the standard alphabet yields for a text, if the
/// text is valid base64.
pub uninterp spec fn b64_decode_of(s: Seq<char>) -> Option<Seq<u8>>;

/// Relies on base64's `BASE64_STANDARD.decode`: the outcome is a function
/// of the text alone.
#[verifier::external_body]
fn base64_decode(s: &str) -> (r: Option<Vec<u8>>)
    ensures
        match r {
            Some(v) => b64_decode_of(s@) == Some(v@),
            None => b64_decode_of(s@) is None,
        },
{
    base64::prelude::BASE64_STANDARD.decode(s).ok()
}

/// The standard-alphabet base64 rendering of a byte string.
pub uninterp spec fn b64_encode_of(b: Seq<u8>) -> Seq<char>;

/// Relies on base64's `BASE64_STANDARD.encode`: the rendering is a function
/// of the bytes alone.
#[verifier::external_body]
fn base64_encode(b: &Vec<u8>) -> (r: String)
    ensures
        r@ == b64_encode_of(b@),
{
    base64::prelude::BASE64_STANDARD.encode(b)
}

/// The HMAC-SHA256 digest of a message under a key.
pub uninterp spec fn hmac_sha256_of(key: Seq<u8>, data: Seq<u8>) -> Seq<u8>;

/// Relies on hmac's `Hmac::<Sha256>::new_from_slice`, `update` and
/// `finalize`: the digest is a function of key and message alone, a key of
/// any length is accepted, and the output is 32 bytes.
#[verifier::external_body]
fn hmac_sha256(key: &Vec<u8>, data: &[u8]) -> (r: Vec<u8>)
    ensures
        r@ == hmac_sha256_of(key@, data@),
        r@.len() == 32,
{
    let mut mac = hmac::Hmac::<sha2::Sha256>::new_from_slice(key).unwrap();
    mac.update(data);
    mac.finalize().into_bytes().to_vec()
}

/// The canonical block of request properties that the shared key signs.
pub open spec fn string_to_hash_chars(
    method: Seq<char>,
    content_length: int,
    content_type: Seq<char>,
    date: Seq<char>,
    resource: Seq<char>,
) -> Seq<char> {
    method + "\n"@ + dec_chars(content_length) + "\n"@ + content_type + "\n"@ + "x-ms-date:"@
        + date + "\n"@ + resource
}

/// The authorization value of one signed request.
pub open spec fn signature_chars(
    key: Seq<char>,
    workspace_id: Seq<char>,
    method: Seq<char>,
    content_length: int,
    content_type: Seq<char>,
    date: Seq<char>,
    resource: Seq<char>,
) -> Seq<char> {
    "SharedKey "@ + workspace_id + ":"@ + b64_encode_of(
        hmac_sha256_of(
            b64_decode_of(key)->Some_0,
            vstd::utf8::encode_utf8(
                string_to_hash_chars(method, content_length, content_type, date, resource),
            ),
        ),
    )
}

/// Builds the `SharedKey` authorization value for one request to the
/// ingestion endpoint: the canonical header block is HMAC-SHA256-signed
/// under the base64-decoded shared key and rendered back as base64. `None`
/// exactly when the shared key is not valid base64.
pub fn build_signature(
    key: &str,
    workspace_id: &str,
    date: &str,
    content_length: usize,
    method: &str,
    content_type: &str,
    resource: &str,
) -> (r: Option<String>)
    ensures
        (r is Some) == (b64_decode_of(key@) is Some),
        r matches Some(s) ==> s@ == signature_chars(
            key@,
            workspace_id@,
            method@,
            content_length as int,
            content_type@,
            date@,
            resource@,
        ),
{
    let mut string_to_hash = String::new();
    string_to_hash.append(method);
    string_to_hash.append("\n");
    string_to_hash.append(crate::text::usize_to_string(content_length).as_str());
    string_to_hash.append("\n");
    string_to_hash.append(content_type);
    string_to_hash.append("\n");
    string_to_hash.append("x-ms-date:");
    string_to_hash.append(date);
    string_to_hash.append("\n");
    string_to_hash.append(resource);
    assert(string_to_hash@ =~= string_to_hash_chars(
        method@,
        content_length as int,
        content_type@,
        date@,
        resource@,
    ));
    let decoded_key = match base64_decode(key) {
        Some(v) => v,
        None => {
            return None;
        },
    };
    let bytes_to_hash = string_to_hash.as_str().as_bytes();
    let code_bytes = hmac_sha256(&decoded_key, bytes_to_hash);
    let b = base64_encode(&code_bytes);
    let mut authorization = String::new();
    authorization.append("SharedKey ");
    authorization.append(workspace_id);
    authorization.append(":");
    authorization.append(b.as_str());
    assert(authorization@ =~= signature_chars(
        key@,
        workspace_id@,
        method@,
        content_length as int,
        content_type@,
        date@,
        resource@,
    ));
    Some(authorization)
}

} // verus!
