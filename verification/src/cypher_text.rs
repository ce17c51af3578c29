//! A ciphertext as the attack sees it: blocks, and how they were written.

use vstd::prelude::*;
use vstd::string::*;

use crate::base64_codec::base64_encodable_len;
use crate::block::{zero_bytes, Block};
use crate::block_size::BlockSize;
use crate::codec::{
    all_of_size, block_views, blocks_of, decode, decoding, encode, inner_encoding, join_blocks,
    joined, lemma_split_of_joined, split_into_blocks, text_encoding, too_long_for_base64,
    url_stripped, SplitError, TextError,
};
use crate::encoding::{Encoding, EncodingOption};
use crate::url_codec::url_decode;

verus! {

/// The most blocks a ciphertext may hold: so many that the length of its
/// text in any encoding is a number the machine can count.
pub const MAX_BLOCKS: usize = usize::MAX / 32;

/// Why a text is no ciphertext.
#[derive(Clone, Copy, Debug, PartialEq, Eq, Structural)]
pub enum ParseError {
    /// The text could not be decoded.
    Text(TextError),
    /// The decoded bytes do not fill whole blocks.
    Split(SplitError),
    /// Fewer than two blocks: nothing to decrypt, or the initialisation
    /// vector is missing and was not said to be.
    TooFewBlocks,
    /// More blocks than `MAX_BLOCKS`.
    TooManyBlocks,
}

/// A ciphertext as a value: its blocks in order and how its text was written.
pub struct CypherTextView {
    pub blocks: Seq<Seq<u8>>,
    pub url_encoded: bool,
    pub used_encoding: Encoding,
}

impl CypherTextView {
    /// At least two and at most `MAX_BLOCKS` blocks, all of one size.
    pub open spec fn wf(self) -> bool {
        &&& 2 <= self.blocks.len() <= MAX_BLOCKS
        &&& BlockSize::is_block_len(self.blocks[0].len() as int)
        &&& forall|i: int|
            0 <= i < self.blocks.len() ==> (#[trigger] self.blocks[i]).len()
                == self.blocks[0].len()
    }

    /// The size of the blocks.
    pub open spec fn block_size(self) -> BlockSize {
        BlockSize::spec_from_len(self.blocks[0].len() as int)
    }

    /// All bytes of the ciphertext, in order.
    pub open spec fn bytes(self) -> Seq<u8> {
        joined(self.blocks, self.block_size().spec_len())
    }

    /// The text that stands for this ciphertext.
    pub open spec fn text(self) -> Seq<char> {
        text_encoding(self.bytes(), self.used_encoding, self.url_encoded)
    }
}

/// The ciphertext that decoded bytes make: cut into blocks of `block_size`,
/// with a zero block in front where `no_iv` holds. Bytes that fill no whole
/// blocks are refused, as are fewer than two blocks and more than
/// `MAX_BLOCKS`.
pub open spec fn cut_into_cypher_text(
    bytes: Seq<u8>,
    block_size: BlockSize,
    no_iv: bool,
    url_encoded: bool,
    used_encoding: Encoding,
) -> Result<CypherTextView, ParseError> {
    let size = block_size.spec_len();
    if bytes.len() % size != 0 {
        Err(ParseError::Split(SplitError { byte_count: bytes.len() as usize, block_size }))
    } else {
        let cut = blocks_of(bytes, size);
        let blocks = if no_iv {
            seq![zero_bytes(size)] + cut
        } else {
            cut
        };
        if blocks.len() < 2 {
            Err(ParseError::TooFewBlocks)
        } else if blocks.len() > MAX_BLOCKS {
            Err(ParseError::TooManyBlocks)
        } else {
            Ok(CypherTextView { blocks, url_encoded, used_encoding })
        }
    }
}

/// What parsing `input` gives. The text is URL-decoded once unless that is
/// switched off, decoded under `option`, cut into blocks of `block_size`, and
/// gets a zero block in front where `no_iv` holds.
pub open spec fn parsing(
    input: Seq<char>,
    block_size: BlockSize,
    no_iv: bool,
    option: EncodingOption,
    no_url_encode: bool,
) -> Result<CypherTextView, ParseError> {
    let text = url_stripped(input, no_url_encode);
    match decoding(text, option) {
        Err(error) => Err(ParseError::Text(error)),
        Ok((bytes, encoding)) => cut_into_cypher_text(
            bytes,
            block_size,
            no_iv,
            input != text,
            encoding,
        ),
    }
}

/// A ciphertext: at least two blocks of one size, the first of which is the
/// initialisation vector, with the encoding its text was read in.
pub struct CypherText {
    blocks: Vec<Block>,
    url_encoded: bool,
    used_encoding: Encoding,
}

impl View for CypherText {
    type V = CypherTextView;

    closed spec fn view(&self) -> CypherTextView {
        CypherTextView {
            blocks: block_views(self.blocks@),
            url_encoded: self.url_encoded,
            used_encoding: self.used_encoding,
        }
    }
}

impl CypherText {
    #[verifier::type_invariant]
    spec fn inv(self) -> bool {
        &&& 2 <= self.blocks@.len() <= MAX_BLOCKS
        &&& all_of_size(self.blocks@, self.blocks@[0].spec_block_size())
    }

    proof fn lemma_inv_gives_wf(self)
        requires
            self.inv(),
        ensures
            self@.wf(),
            self@.block_size() == self.blocks@[0].spec_block_size(),
    {
        self.blocks@[0].lemma_len();
        assert forall|i: int| 0 <= i < self@.blocks.len() implies (#[trigger] self@.blocks[i]).len()
            == self@.blocks[0].len() by {
            self.blocks@[i].lemma_len();
        }
    }

    /// Reads a ciphertext from its text.
    pub fn parse(
        input_data: &str,
        block_size: &BlockSize,
        no_iv: bool,
        encoding: &EncodingOption,
        no_url_encode: bool,
    ) -> (parsed: Result<CypherText, ParseError>)
        ensures
            parsed is Ok <==> parsing(input_data@, *block_size, no_iv, *encoding, no_url_encode)
                is Ok,
            parsed is Ok ==> parsed->Ok_0@ == parsing(
                input_data@,
                *block_size,
                no_iv,
                *encoding,
                no_url_encode,
            )->Ok_0 && parsed->Ok_0@.wf(),
            parsed is Err ==> parsing(input_data@, *block_size, no_iv, *encoding, no_url_encode)
                == Err::<CypherTextView, ParseError>(parsed->Err_0),
    {
        let url_decoded = if no_url_encode {
            String::from_str(input_data)
        } else {
            match url_decode(input_data) {
                Ok(decoded) => decoded,
                Err(_) => String::from_str(input_data),
            }
        };
        let (bytes, used_encoding) = match decode(url_decoded.as_str(), encoding) {
            Ok(decoded) => decoded,
            Err(error) => {
                return Err(ParseError::Text(error));
            },
        };
        let same = String::from_str(input_data) == url_decoded;
        CypherText::from_bytes(bytes.as_slice(), block_size, no_iv, !same, used_encoding)
    }

    /// Makes a ciphertext of decoded bytes: they are cut into blocks of
    /// `block_size` and get a zero block in front where `no_iv` holds.
    pub fn from_bytes(
        bytes: &[u8],
        block_size: &BlockSize,
        no_iv: bool,
        url_encoded: bool,
        used_encoding: Encoding,
    ) -> (made: Result<CypherText, ParseError>)
        ensures
            made is Ok <==> cut_into_cypher_text(
                bytes@,
                *block_size,
                no_iv,
                url_encoded,
                used_encoding,
            ) is Ok,
            made is Ok ==> made->Ok_0@ == cut_into_cypher_text(
                bytes@,
                *block_size,
                no_iv,
                url_encoded,
                used_encoding,
            )->Ok_0 && made->Ok_0@.wf(),
            made is Err ==> cut_into_cypher_text(
                bytes@,
                *block_size,
                no_iv,
                url_encoded,
                used_encoding,
            ) == Err::<CypherTextView, ParseError>(made->Err_0),
    {
        let mut cut = match split_into_blocks(bytes, *block_size) {
            Ok(cut) => cut,
            Err(error) => {
                return Err(ParseError::Split(error));
            },
        };
        let ghost cut_view = block_views(cut@);
        let blocks = if no_iv {
            let mut blocks: Vec<Block> = Vec::new();
            blocks.push(Block::new(block_size));
            blocks.append(&mut cut);
            assert(block_views(blocks@) =~= seq![zero_bytes(block_size.spec_len())] + cut_view);
            blocks
        } else {
            cut
        };
        if blocks.len() < 2 {
            return Err(ParseError::TooFewBlocks);
        }
        if blocks.len() > MAX_BLOCKS {
            return Err(ParseError::TooManyBlocks);
        }
        let made = CypherText { blocks, url_encoded, used_encoding };
        proof {
            made.lemma_inv_gives_wf();
        }
        Ok(made)
    }
}

/// Whether a text reads back as the ciphertext it was written from: parsed
/// with the encoding enforced, with URL-decoding only where the text was
/// URL-encoded and without adding an initialisation vector, it gives the same
/// blocks in the same encoding, and a ciphertext whose text is `written`
/// again.
pub open spec fn reads_back(written: Seq<char>, original: CypherTextView) -> bool {
    let parsed = parsing(
        written,
        original.block_size(),
        false,
        EncodingOption::spec_from_encoding(original.used_encoding),
        !original.url_encoded,
    );
    &&& parsed is Ok
    &&& parsed->Ok_0.blocks == original.blocks
    &&& parsed->Ok_0.used_encoding == original.used_encoding
    &&& parsed->Ok_0.text() == written
}

/// Whether the text of a ciphertext is base64 and too long for the base64
/// decoder to take.
pub open spec fn is_too_long_to_read(original: CypherTextView) -> bool {
    &&& original.used_encoding != Encoding::Hex
    &&& too_long_for_base64(inner_encoding(original.bytes(), original.used_encoding))
}

impl CypherText {
    /// Reads a ciphertext that carries its initialisation vector, finding out
    /// its encoding and whether it is URL-encoded.
    pub fn decode(input_data: &str, block_size: &BlockSize) -> (parsed: Result<
        CypherText,
        ParseError,
    >)
        ensures
            parsed is Ok <==> parsing(input_data@, *block_size, false, EncodingOption::Auto, false)
                is Ok,
            parsed is Ok ==> parsed->Ok_0@ == parsing(
                input_data@,
                *block_size,
                false,
                EncodingOption::Auto,
                false,
            )->Ok_0 && parsed->Ok_0@.wf(),
            parsed is Err ==> parsing(input_data@, *block_size, false, EncodingOption::Auto, false)
                == Err::<CypherTextView, ParseError>(parsed->Err_0),
    {
        CypherText::parse(input_data, block_size, false, &EncodingOption::Auto, false)
    }

    /// A ciphertext of the given blocks, or nothing where they are fewer than
    /// two, more than `MAX_BLOCKS` or of different sizes.
    pub fn from_iter(blocks: &[Block], url_encoded: bool, used_encoding: Encoding) -> (made: Option<
        CypherText,
    >)
        ensures
            made is Some <==> (CypherTextView {
                blocks: block_views(blocks@),
                url_encoded,
                used_encoding,
            }).wf(),
            made is Some ==> made->0@ == (CypherTextView {
                blocks: block_views(blocks@),
                url_encoded,
                used_encoding,
            }),
    {
        let count = blocks.len();
        if count < 2 || count > MAX_BLOCKS {
            return None;
        }
        let size = blocks[0].block_size();
        proof {
            blocks@[0].lemma_len();
        }
        let mut owned: Vec<Block> = Vec::new();
        let mut i: usize = 0;
        while i < count
            invariant
                count == blocks@.len(),
                0 < count,
                size == blocks@[0].spec_block_size(),
                i <= count,
                owned@ == blocks@.subrange(0, i as int),
                all_of_size(owned@, size),
            decreases count - i,
        {
            let block = blocks[i];
            if block.len() != size.as_usize() {
                proof {
                    blocks@[0].lemma_len();
                    assert(block_views(blocks@)[i as int].len() != block_views(blocks@)[0].len());
                }
                return None;
            }
            proof {
                block.lemma_len();
            }
            owned.push(block);
            assert(owned@ =~= blocks@.subrange(0, i + 1));
            i += 1;
        }
        assert(owned@ =~= blocks@);
        let made = CypherText { blocks: owned, url_encoded, used_encoding };
        proof {
            made.lemma_inv_gives_wf();
        }
        Some(made)
    }

    /// The same encoding around other blocks; nothing where the blocks make
    /// no ciphertext.
    pub fn clone_with_blocks(&self, blocks: Vec<Block>) -> (made: Option<CypherText>)
        ensures
            made is Some <==> (CypherTextView {
                blocks: block_views(blocks@),
                url_encoded: self@.url_encoded,
                used_encoding: self@.used_encoding,
            }).wf(),
            made is Some ==> made->0@ == (CypherTextView {
                blocks: block_views(blocks@),
                url_encoded: self@.url_encoded,
                used_encoding: self@.used_encoding,
            }),
    {
        CypherText::from_iter(blocks.as_slice(), self.url_encoded, self.used_encoding)
    }

    /// The blocks, the initialisation vector first.
    pub fn blocks(&self) -> (blocks: &[Block])
        ensures
            block_views(blocks@) == self@.blocks,
            all_of_size(blocks@, self@.block_size()),
            self@.wf(),
    {
        proof {
            use_type_invariant(self);
            self.lemma_inv_gives_wf();
        }
        self.blocks.as_slice()
    }

    /// Whether the text was URL-encoded.
    pub fn url_encoded(&self) -> (flag: bool)
        ensures
            flag == self@.url_encoded,
    {
        self.url_encoded
    }

    /// The encoding the text was read in.
    pub fn used_encoding(&self) -> (encoding: Encoding)
        ensures
            encoding == self@.used_encoding,
    {
        self.used_encoding
    }

    /// Number of blocks, the initialisation vector included.
    pub fn amount_blocks(&self) -> (count: usize)
        ensures
            count == self@.blocks.len(),
            2 <= count <= MAX_BLOCKS,
    {
        proof {
            use_type_invariant(self);
        }
        self.blocks.len()
    }

    /// The size of the blocks.
    pub fn block_size(&self) -> (size: BlockSize)
        ensures
            size == self@.block_size(),
            self@.wf(),
    {
        proof {
            use_type_invariant(self);
            self.lemma_inv_gives_wf();
        }
        self.blocks[0].block_size()
    }

    /// The block before the last: the one that is forged to attack the last.
    pub fn tweakable_block(&self) -> (block: &Block)
        ensures
            block@ == self@.blocks[self@.blocks.len() - 2],
    {
        proof {
            use_type_invariant(self);
        }
        &self.blocks[self.blocks.len() - 2]
    }

    /// The text of the ciphertext, in the encoding it was read in. The text
    /// reads back, unless it is base64 and too long for the base64 decoder.
    pub fn encode(&self) -> (text: String)
        ensures
            text@ == self@.text(),
            is_too_long_to_read(self@) || reads_back(text@, self@),
    {
        proof {
            use_type_invariant(self);
            self.lemma_inv_gives_wf();
        }
        let size = self.blocks[0].block_size();
        let bytes = join_blocks(self.blocks.as_slice(), size);
        assert(base64_encodable_len(bytes@.len() as int)) by {
            assert(bytes@.len() <= (usize::MAX / 32) * 16) by (nonlinear_arith)
                requires
                    bytes@.len() == self.blocks@.len() * size.spec_len(),
                    self.blocks@.len() <= usize::MAX / 32,
                    size.spec_len() <= 16,
            ;
        }
        let text = encode(bytes.as_slice(), &self.used_encoding, self.url_encoded);
        proof {
            lemma_reads_back(self@, text@);
        }
        text
    }
}

/// A well-formed ciphertext reads back from a text that decodes to its bytes.
proof fn lemma_reads_back(original: CypherTextView, written: Seq<char>)
    requires
        original.wf(),
        written == original.text(),
        crate::codec::decoded_as(
            inner_encoding(original.bytes(), original.used_encoding),
            original.used_encoding,
        ) == Some(original.bytes()),
        original.url_encoded ==> crate::url_codec::url_decoding(written) == Some(
            inner_encoding(original.bytes(), original.used_encoding),
        ),
    ensures
        is_too_long_to_read(original) || reads_back(written, original),
{
    let size = original.block_size().spec_len();
    let inner = inner_encoding(original.bytes(), original.used_encoding);
    lemma_split_of_joined(original.blocks, size);
    if !is_too_long_to_read(original) {
        let option = EncodingOption::spec_from_encoding(original.used_encoding);
        assert(url_stripped(written, !original.url_encoded) == inner);
        assert(decoding(inner, option) == Ok::<(Seq<u8>, Encoding), TextError>(
            (original.bytes(), original.used_encoding),
        ));
        let parsed = parsing(written, original.block_size(), false, option, !original.url_encoded);
        assert(parsed is Ok);
        assert(parsed->Ok_0.blocks == original.blocks);
        assert(parsed->Ok_0.block_size() == original.block_size());
        assert(parsed->Ok_0.bytes() == original.bytes());
    }
}

} // verus!
