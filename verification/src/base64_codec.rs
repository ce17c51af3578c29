//! Base64 text in the standard and the URL-safe alphabet, both padded.

use vstd::prelude::*;
use vstd::string::*;

verus! {

/// The padded base64 text of `bytes`, in the URL-safe alphabet where
/// `url_safe` holds and in the standard one where it does not.
pub uninterp spec fn base64_encoding(bytes: Seq<u8>, url_safe: bool) -> Seq<char>;

/// The bytes that the decoder reads out of `text` as base64 of the given
/// alphabet, or nothing where it refuses `text`.
pub uninterp spec fn base64_decoding(text: Seq<char>, url_safe: bool) -> Option<Seq<u8>>;

/// Whether the encoder can size the text for `len` bytes within `usize`.
pub open spec fn base64_encodable_len(len: int) -> bool {
    (len / 3) * 4 + 4 <= usize::MAX
}

/// Whether the decoder can size the bytes for a text of `len` bytes within
/// `usize`.
pub open spec fn base64_decodable_len(len: int) -> bool {
    len + 3 <= usize::MAX
}

/// `base64::DecodeError`: why the decoder refused a text. Nothing is read
/// out of it.
#[verifier::external_type_specification]
#[verifier::external_body]
pub struct ExDecodeError(base64::DecodeError);

/// `base64::encode_config` with `STANDARD` or `URL_SAFE`: the result is the
/// padded base64 text of the bytes in that alphabet, and decoding it in the
/// same alphabet gives the bytes back. The call panics where the length of
/// the text overflows `usize`, which the precondition leaves out.
#[verifier::external_body]
pub(crate) fn base64_encode(bytes: &[u8], url_safe: bool) -> (text: String)
    requires
        base64_encodable_len(bytes@.len() as int),
    ensures
        text@ == base64_encoding(bytes@, url_safe),
        base64_decoding(text@, url_safe) == Some(bytes@),
{
    base64::encode_config(bytes, if url_safe { base64::URL_SAFE } else { base64::STANDARD })
}

/// `base64::decode_config` with `STANDARD` or `URL_SAFE`: what it gives for
/// a text depends on the text and the alphabet alone, and is named here. The call panics where the length of the text plus three
/// overflows `usize`, which the precondition leaves out.
#[verifier::external_body]
pub(crate) fn base64_decode(text: &str, url_safe: bool) -> (bytes: Result<
    Vec<u8>,
    base64::DecodeError,
>)
    requires
        base64_decodable_len(text.spec_bytes().len() as int),
    ensures
        bytes is Ok <==> base64_decoding(text@, url_safe) is Some,
        bytes is Ok ==> Some(bytes->Ok_0@) == base64_decoding(text@, url_safe),
{
    base64::decode_config(text, if url_safe { base64::URL_SAFE } else { base64::STANDARD })
}

} // verus!
