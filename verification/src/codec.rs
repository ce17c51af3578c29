//! From text to bytes to blocks, and back.

use vstd::prelude::*;
use vstd::slice::*;
use vstd::string::*;

use crate::base64_codec::{
    base64_decodable_len, base64_decode, base64_decoding, base64_encodable_len, base64_encode,
    base64_encoding,
};
use crate::block::Block;
use crate::block_size::BlockSize;
use crate::encoding::{Encoding, EncodingOption};
use crate::hex_codec::{
    hex_decode, hex_decoding, hex_encode, hex_encoding, is_hex_text, lemma_hex_round_trip,
};
use crate::url_codec::{percent_encoding, url_decoding, url_encode};

verus! {

/// Why a text could not be turned into bytes.
#[derive(Clone, Copy, Debug, PartialEq, Eq, Structural)]
pub enum TextError {
    /// No supported encoding reads the text.
    UnsupportedEncoding,
    /// The text was said to be hexadecimal and is not.
    InvalidHex,
    /// The text was said to be base64 and is not.
    InvalidBase64,
    /// The text was said to be URL-safe base64 and is not.
    InvalidBase64Url,
    /// The text is too long for the base64 decoder to size its result.
    TooLong,
}

/// The bytes do not fill a whole number of blocks.
#[derive(Clone, Copy, Debug, PartialEq, Eq, Structural)]
pub struct SplitError {
    pub byte_count: usize,
    pub block_size: BlockSize,
}

/// The bytes that `text` stands for in `encoding`, if it is a text of that
/// encoding.
pub open spec fn decoded_as(text: Seq<char>, encoding: Encoding) -> Option<Seq<u8>> {
    match encoding {
        Encoding::Hex => if is_hex_text(text) {
            Some(hex_decoding(text))
        } else {
            None
        },
        Encoding::Base64 => base64_decoding(text, false),
        Encoding::Base64Url => base64_decoding(text, true),
    }
}

/// The error for a text that is not of the encoding it was said to be of.
pub open spec fn invalid_for(encoding: Encoding) -> TextError {
    match encoding {
        Encoding::Hex => TextError::InvalidHex,
        Encoding::Base64 => TextError::InvalidBase64,
        Encoding::Base64Url => TextError::InvalidBase64Url,
    }
}

/// Whether the base64 decoder cannot take `text` for its length.
pub open spec fn too_long_for_base64(text: Seq<char>) -> bool {
    !base64_decodable_len(vstd::utf8::encode_utf8(text).len() as int)
}

/// What decoding `text` under `option` gives: with `Auto` the first of
/// hexadecimal, base64 and URL-safe base64 that reads it, else the encoding
/// that the option fixes.
pub open spec fn decoding(text: Seq<char>, option: EncodingOption) -> Result<
    (Seq<u8>, Encoding),
    TextError,
> {
    match option {
        EncodingOption::Auto => {
            if decoded_as(text, Encoding::Hex) is Some {
                Ok((decoded_as(text, Encoding::Hex)->0, Encoding::Hex))
            } else if too_long_for_base64(text) {
                Err(TextError::TooLong)
            } else if decoded_as(text, Encoding::Base64) is Some {
                Ok((decoded_as(text, Encoding::Base64)->0, Encoding::Base64))
            } else if decoded_as(text, Encoding::Base64Url) is Some {
                Ok((decoded_as(text, Encoding::Base64Url)->0, Encoding::Base64Url))
            } else {
                Err(TextError::UnsupportedEncoding)
            }
        },
        EncodingOption::Hex => forced_decoding(text, Encoding::Hex),
        EncodingOption::Base64 => forced_decoding(text, Encoding::Base64),
        EncodingOption::Base64Url => forced_decoding(text, Encoding::Base64Url),
    }
}

/// What decoding `text` gives where the encoding is fixed.
pub open spec fn forced_decoding(text: Seq<char>, encoding: Encoding) -> Result<
    (Seq<u8>, Encoding),
    TextError,
> {
    if encoding != Encoding::Hex && too_long_for_base64(text) {
        Err(TextError::TooLong)
    } else {
        match decoded_as(text, encoding) {
            Some(bytes) => Ok((bytes, encoding)),
            None => Err(invalid_for(encoding)),
        }
    }
}

/// The text of `bytes` in `encoding`, before any URL-encoding.
pub open spec fn inner_encoding(bytes: Seq<u8>, encoding: Encoding) -> Seq<char> {
    match encoding {
        Encoding::Hex => hex_encoding(bytes),
        Encoding::Base64 => base64_encoding(bytes, false),
        Encoding::Base64Url => base64_encoding(bytes, true),
    }
}

/// The text of `bytes` in `encoding`, percent-encoded where `url_encoded`
/// holds.
pub open spec fn text_encoding(bytes: Seq<u8>, encoding: Encoding, url_encoded: bool) -> Seq<
    char,
> {
    let inner = inner_encoding(bytes, encoding);
    if url_encoded {
        percent_encoding(vstd::utf8::encode_utf8(inner))
    } else {
        inner
    }
}

/// The text under a URL-encoding: `input` itself where URL-encoding is
/// switched off or `input` does not decode, else what it decodes to.
pub open spec fn url_stripped(input: Seq<char>, no_url_encode: bool) -> Seq<char> {
    if no_url_encode {
        input
    } else {
        match url_decoding(input) {
            Some(decoded) => decoded,
            None => input,
        }
    }
}

/// `bytes` cut into consecutive blocks of `size` bytes.
pub open spec fn blocks_of(bytes: Seq<u8>, size: nat) -> Seq<Seq<u8>> {
    Seq::new(
        bytes.len() / size,
        |i: int| bytes.subrange(i * size as int, (i + 1) * size as int),
    )
}

/// Blocks of `size` bytes each, laid end to end.
pub open spec fn joined(blocks: Seq<Seq<u8>>, size: nat) -> Seq<u8> {
    Seq::new(blocks.len() * size, |i: int| blocks[i / size as int][i % size as int])
}

/// The views of a list of blocks.
pub open spec fn block_views(blocks: Seq<Block>) -> Seq<Seq<u8>> {
    Seq::new(blocks.len(), |i: int| blocks[i]@)
}

/// Whether every block in the list has `size` bytes.
pub open spec fn all_of_size(blocks: Seq<Block>, size: BlockSize) -> bool {
    forall|i: int| 0 <= i < blocks.len() ==> (#[trigger] blocks[i]).spec_block_size() == size
}

fn decode_forced(input: &str, encoding: Encoding) -> (decoded: Result<
    (Vec<u8>, Encoding),
    TextError,
>)
    ensures
        decoded is Ok <==> forced_decoding(input@, encoding) is Ok,
        decoded is Ok ==> forced_decoding(input@, encoding)->Ok_0 == (
            decoded->Ok_0.0@,
            decoded->Ok_0.1,
        ),
        decoded is Err ==> forced_decoding(input@, encoding) == Err::<
            (Seq<u8>, Encoding),
            TextError,
        >(decoded->Err_0),
{
    match encoding {
        Encoding::Hex => match hex_decode(input) {
            Ok(bytes) => Ok((bytes, Encoding::Hex)),
            Err(_) => Err(TextError::InvalidHex),
        },
        Encoding::Base64 => {
            if input.as_bytes().len() > usize::MAX - 3 {
                return Err(TextError::TooLong);
            }
            match base64_decode(input, false) {
                Ok(bytes) => Ok((bytes, Encoding::Base64)),
                Err(_) => Err(TextError::InvalidBase64),
            }
        },
        Encoding::Base64Url => {
            if input.as_bytes().len() > usize::MAX - 3 {
                return Err(TextError::TooLong);
            }
            match base64_decode(input, true) {
                Ok(bytes) => Ok((bytes, Encoding::Base64Url)),
                Err(_) => Err(TextError::InvalidBase64Url),
            }
        },
    }
}

fn decode_auto(input: &str) -> (decoded: Result<(Vec<u8>, Encoding), TextError>)
    ensures
        decoded is Ok <==> decoding(input@, EncodingOption::Auto) is Ok,
        decoded is Ok ==> decoding(input@, EncodingOption::Auto)->Ok_0 == (
            decoded->Ok_0.0@,
            decoded->Ok_0.1,
        ),
        decoded is Err ==> decoding(input@, EncodingOption::Auto) == Err::<
            (Seq<u8>, Encoding),
            TextError,
        >(decoded->Err_0),
{
    if let Ok(bytes) = hex_decode(input) {
        return Ok((bytes, Encoding::Hex));
    }
    if input.as_bytes().len() > usize::MAX - 3 {
        return Err(TextError::TooLong);
    }
    if let Ok(bytes) = base64_decode(input, false) {
        return Ok((bytes, Encoding::Base64));
    }
    if let Ok(bytes) = base64_decode(input, true) {
        return Ok((bytes, Encoding::Base64Url));
    }
    Err(TextError::UnsupportedEncoding)
}

/// Turns text into bytes and says which encoding read it. With `Auto` the
/// encodings are tried in the order hexadecimal, base64, URL-safe base64 and
/// the first that reads the text wins; any other option is enforced.
pub fn decode(input: &str, option: &EncodingOption) -> (decoded: Result<
    (Vec<u8>, Encoding),
    TextError,
>)
    ensures
        decoded is Ok <==> decoding(input@, *option) is Ok,
        decoded is Ok ==> decoding(input@, *option)->Ok_0 == (decoded->Ok_0.0@, decoded->Ok_0.1),
        decoded is Err ==> decoding(input@, *option) == Err::<(Seq<u8>, Encoding), TextError>(
            decoded->Err_0,
        ),
{
    match option {
        EncodingOption::Auto => decode_auto(input),
        EncodingOption::Hex => decode_forced(input, Encoding::Hex),
        EncodingOption::Base64 => decode_forced(input, Encoding::Base64),
        EncodingOption::Base64Url => decode_forced(input, Encoding::Base64Url),
    }
}

/// Writes bytes as text in `encoding`, percent-encoded where `url_encoded`
/// holds. The text reads back: forced to `encoding` it decodes to the same
/// bytes, after URL-decoding where it was URL-encoded.
pub fn encode(bytes: &[u8], encoding: &Encoding, url_encoded: bool) -> (text: String)
    requires
        base64_encodable_len(bytes@.len() as int),
    ensures
        text@ == text_encoding(bytes@, *encoding, url_encoded),
        decoded_as(inner_encoding(bytes@, *encoding), *encoding) == Some(bytes@),
        url_encoded ==> url_decoding(text@) == Some(inner_encoding(bytes@, *encoding)),
{
    let inner = match encoding {
        Encoding::Hex => {
            proof {
                lemma_hex_round_trip(bytes@);
            }
            hex_encode(bytes)
        },
        Encoding::Base64 => base64_encode(bytes, false),
        Encoding::Base64Url => base64_encode(bytes, true),
    };
    if url_encoded {
        url_encode(inner.as_str())
    } else {
        inner
    }
}

/// Cuts bytes into blocks of the given size; bytes that do not fill a whole
/// number of blocks are refused.
pub fn split_into_blocks(bytes: &[u8], block_size: BlockSize) -> (blocks: Result<
    Vec<Block>,
    SplitError,
>)
    ensures
        blocks is Ok <==> bytes@.len() % block_size.spec_len() == 0,
        blocks is Ok ==> block_views(blocks->Ok_0@) == blocks_of(bytes@, block_size.spec_len())
            && all_of_size(blocks->Ok_0@, block_size),
        blocks is Ok ==> joined(block_views(blocks->Ok_0@), block_size.spec_len()) == bytes@,
        blocks is Err ==> blocks->Err_0 == (SplitError {
            byte_count: bytes@.len() as usize,
            block_size,
        }),
{
    let size = block_size.as_usize();
    let byte_count = bytes.len();
    if byte_count % size != 0 {
        return Err(SplitError { byte_count, block_size });
    }
    let count = byte_count / size;
    let mut blocks: Vec<Block> = Vec::new();
    let mut i: usize = 0;
    while i < count
        invariant
            size == block_size.spec_len(),
            byte_count == bytes@.len(),
            count == byte_count / size,
            byte_count % size == 0,
            i <= count,
            blocks@.len() == i,
            all_of_size(blocks@, block_size),
            forall|j: int|
                0 <= j < i ==> (#[trigger] blocks@[j])@ == bytes@.subrange(
                    j * size as int,
                    (j + 1) * size as int,
                ),
        decreases count - i,
    {
        assert((i + 1) * size <= byte_count) by (nonlinear_arith)
            requires
                i < count,
                count == byte_count / size,
                byte_count % size == 0,
                size > 0,
        ;
        assert(i * size <= (i + 1) * size) by (nonlinear_arith);
        let chunk = slice_subrange(bytes, i * size, (i + 1) * size);
        assert(chunk@.len() == size) by (nonlinear_arith)
            requires
                chunk@.len() == (i + 1) * size - i * size,
        ;
        let block = Block::from_bytes(chunk);
        proof {
            block.lemma_len();
        }
        blocks.push(block);
        i += 1;
    }
    assert(block_views(blocks@) =~= blocks_of(bytes@, block_size.spec_len()));
    proof {
        lemma_joined_of_split(bytes@, block_size.spec_len());
    }
    Ok(blocks)
}

/// Lays blocks of one size end to end.
pub fn join_blocks(blocks: &[Block], block_size: BlockSize) -> (bytes: Vec<u8>)
    requires
        all_of_size(blocks@, block_size),
    ensures
        bytes@ == joined(block_views(blocks@), block_size.spec_len()),
        bytes@.len() == blocks@.len() * block_size.spec_len(),
{
    let ghost size = block_size.spec_len() as int;
    let count = blocks.len();
    let mut bytes: Vec<u8> = Vec::new();
    let mut i: usize = 0;
    while i < count
        invariant
            size == block_size.spec_len(),
            count == blocks@.len(),
            all_of_size(blocks@, block_size),
            i <= count,
            bytes@.len() == i * size,
            forall|k: int|
                0 <= k < i * size ==> #[trigger] bytes@[k] == blocks@[k / size]@[k % size],
        decreases count - i,
    {
        let block = &blocks[i];
        proof {
            block.lemma_len();
        }
        let chunk = block.to_bytes();
        let ghost before = bytes@;
        bytes.extend_from_slice(chunk.as_slice());
        proof {
            assert(bytes@ =~= before + chunk@);
            assert((i + 1) * size == i * size + size) by (nonlinear_arith);
            assert forall|k: int| 0 <= k < (i + 1) * size implies #[trigger] bytes@[k]
                == blocks@[k / size]@[k % size] by {
                if k >= i * size {
                    lemma_position(k, i as int, size);
                    assert(bytes@[k] == chunk@[k - i * size]);
                }
            }
        }
        i += 1;
    }
    assert(bytes@ =~= joined(block_views(blocks@), block_size.spec_len()));
    bytes
}

/// Where byte `k` lies once blocks of `size` bytes are laid end to end.
proof fn lemma_position(k: int, block: int, size: int)
    requires
        size > 0,
        block * size <= k < (block + 1) * size,
    ensures
        k / size == block,
        k % size == k - block * size,
{
    assert(k / size == block && k % size == k - block * size) by (nonlinear_arith)
        requires
            size > 0,
            block * size <= k < (block + 1) * size,
    ;
}

/// Cutting what was joined gives the blocks back.
pub proof fn lemma_split_of_joined(blocks: Seq<Seq<u8>>, size: nat)
    requires
        size > 0,
        forall|i: int| 0 <= i < blocks.len() ==> (#[trigger] blocks[i]).len() == size,
    ensures
        joined(blocks, size).len() % size == 0,
        blocks_of(joined(blocks, size), size) == blocks,
{
    let bytes = joined(blocks, size);
    let n = blocks.len() as int;
    let s = size as int;
    assert((n * s) % s == 0 && (n * s) / s == n) by (nonlinear_arith)
        requires
            s > 0,
    ;
    assert forall|i: int| 0 <= i < n implies #[trigger] blocks_of(bytes, size)[i] == blocks[i] by {
        assert(i * s + s == (i + 1) * s) by (nonlinear_arith);
        assert(0 <= i * s && (i + 1) * s <= n * s) by (nonlinear_arith)
            requires
                0 <= i < n,
                s > 0,
        ;
        let chunk = bytes.subrange(i * s, (i + 1) * s);
        assert forall|j: int| 0 <= j < s implies chunk[j] == blocks[i][j] by {
            lemma_position(i * s + j, i, s);
        }
        assert(chunk =~= blocks[i]);
    }
    assert(blocks_of(bytes, size) =~= blocks);
}

/// Joining what was cut gives the bytes back.
pub proof fn lemma_joined_of_split(bytes: Seq<u8>, size: nat)
    requires
        size > 0,
        bytes.len() % size == 0,
    ensures
        joined(blocks_of(bytes, size), size) == bytes,
{
    let s = size as int;
    let n = bytes.len() as int / s;
    assert(n * s == bytes.len()) by (nonlinear_arith)
        requires
            s > 0,
            bytes.len() % (s as nat) == 0,
            n == bytes.len() as int / s,
    ;
    let blocks = blocks_of(bytes, size);
    assert forall|k: int| 0 <= k < bytes.len() implies joined(blocks, size)[k] == bytes[k] by {
        let i = k / s;
        assert(0 <= i < n && i * s <= k < (i + 1) * s && k % s == k - i * s) by (nonlinear_arith)
            requires
                s > 0,
                0 <= k < n * s,
                i == k / s,
        ;
        assert(0 <= i * s && (i + 1) * s <= n * s && (i + 1) * s == i * s + s) by (nonlinear_arith)
            requires
                0 <= i < n,
                s > 0,
        ;
        assert(blocks[i] == bytes.subrange(i * s, (i + 1) * s));
        assert(blocks[i][k % s] == bytes[i * s + k % s]);
        assert(blocks.len() * size == bytes.len());
    }
    assert(joined(blocks, size).len() == bytes.len());
    assert(joined(blocks, size) =~= bytes);
}

} // verus!
