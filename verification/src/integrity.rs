//! The integrity check of a transferred file. A server may send, with a
//! file, the MD5 digest of its bytes in base64; a file whose bytes do not
//! give that text is not kept.
use vstd::prelude::*;

verus! {

/// The MD5 digest of a sequence of bytes.
pub uninterp spec fn md5_digest(data: Seq<u8>) -> Seq<u8>;

/// The standard base64 text, with padding, of a sequence of bytes.
pub uninterp spec fn base64_text(data: Seq<u8>) -> Seq<char>;

/// Calls `md5::compute` and hands out the 16 bytes of the digest it
/// returns. The digest is a function of the bytes alone; nothing else is
/// claimed of it here.
#[verifier::external_body]
fn md5_of(data: &[u8]) -> (digest: Vec<u8>)
    ensures
        digest@ == md5_digest(data@),
        digest@.len() == 16,
{
    md5::compute(data).0.to_vec()
}

/// Calls `base64::encode`, which writes its input in the standard
/// alphabet with padding. It panics where the length of the text would not
/// fit the machine's word, which the bound on the input rules out.
#[verifier::external_body]
fn base64_of(data: &[u8]) -> (text: String)
    requires
        data@.len() <= 0x3000_0000,
    ensures
        text@ == base64_text(data@),
{
    base64::encode(data)
}

/// The checksum text of a payload: its MD5 digest in base64.
pub open spec fn checksum_of(data: Seq<u8>) -> Seq<char> {
    base64_text(md5_digest(data))
}

/// Whether a computed checksum meets what the server announced. Without an
/// announcement there is nothing to meet.
pub open spec fn checksum_meets(computed: Seq<char>, announced: Option<Seq<char>>) -> bool {
    match announced {
        Some(text) => text == computed,
        None => true,
    }
}

/// Whether a payload is accepted under what the server announced.
pub open spec fn payload_accepted(data: Seq<u8>, announced: Option<Seq<char>>) -> bool {
    checksum_meets(checksum_of(data), announced)
}

/// The announced checksum as plain characters.
pub open spec fn announced_text(announced: Option<String>) -> Option<Seq<char>> {
    match announced {
        Some(text) => Some(text@),
        None => None,
    }
}

/// The checksum text of `data`.
pub fn content_checksum(data: &[u8]) -> (text: String)
    ensures
        text@ == checksum_of(data@),
{
    let digest = md5_of(data);
    base64_of(digest.as_slice())
}

/// Whether the checksum `computed` meets the announced one.
pub fn checksum_matches(computed: &String, announced: &Option<String>) -> (ok: bool)
    ensures
        ok == checksum_meets(computed@, announced_text(*announced)),
{
    match announced {
        Some(text) => *text == *computed,
        None => true,
    }
}

/// Whether `data` is accepted under the announced checksum: always where
/// none was announced, else exactly when the checksum of `data` is the
/// announced text.
pub fn verify_payload(data: &[u8], announced: &Option<String>) -> (ok: bool)
    ensures
        ok == payload_accepted(data@, announced_text(*announced)),
{
    match announced {
        Some(_) => {
            let computed = content_checksum(data);
            checksum_matches(&computed, announced)
        },
        None => true,
    }
}

/// Whether the status of a reply says that the request succeeded.
pub open spec fn is_success(status: u16) -> bool {
    200 <= status < 300
}

/// Whether a transferred file is accepted: the reply says that the request
/// succeeded, and the payload is accepted under the announced checksum.
pub open spec fn transfer_accepted(
    status: u16,
    data: Seq<u8>,
    announced: Option<Seq<char>>,
) -> bool {
    is_success(status) && payload_accepted(data, announced)
}

/// Whether a transferred file is accepted, by the status of the reply and
/// by the checksum that was announced with it.
pub fn accept_transfer(status: u16, data: &[u8], announced: &Option<String>) -> (ok: bool)
    ensures
        ok == transfer_accepted(status, data@, announced_text(*announced)),
{
    if status < 200 || status >= 300 {
        return false;
    }
    verify_payload(data, announced)
}

} // verus!
