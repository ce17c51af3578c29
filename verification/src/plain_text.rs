//! A plain text, padded and cut into blocks for encryption.

use vstd::prelude::*;
use vstd::string::*;

use crate::block::Block;
use crate::block_size::BlockSize;
use crate::codec::{all_of_size, block_views, blocks_of, split_into_blocks};

verus! {

/// The number of padding bytes that PKCS#7 adds to `len` bytes for blocks of
/// `size` bytes: at least one, at most `size`.
pub open spec fn padding_len(len: nat, size: nat) -> nat {
    (size - len % size) as nat
}

/// `bytes` with PKCS#7 padding for blocks of `size` bytes: as many bytes as
/// the next multiple of `size` asks for, each holding their number.
pub open spec fn pkcs7_padded(bytes: Seq<u8>, size: nat) -> Seq<u8> {
    bytes + Seq::new(padding_len(bytes.len(), size), |i: int| padding_len(bytes.len(), size) as u8)
}

/// A plain text with PKCS#7 padding, cut into blocks of one size.
pub struct PlainText {
    blocks: Vec<Block>,
}

impl View for PlainText {
    type V = Seq<Seq<u8>>;

    closed spec fn view(&self) -> Seq<Seq<u8>> {
        block_views(self.blocks@)
    }
}

impl PlainText {
    #[verifier::type_invariant]
    spec fn inv(self) -> bool {
        &&& 1 <= self.blocks@.len()
        &&& all_of_size(self.blocks@, self.blocks@[0].spec_block_size())
    }

    /// The size of the blocks.
    pub closed spec fn spec_block_size(self) -> BlockSize {
        self.blocks@[0].spec_block_size()
    }

    /// Pads the UTF-8 bytes of `input_data` and cuts them into blocks.
    pub fn new(input_data: &str, block_size: &BlockSize) -> (plain_text: PlainText)
        ensures
            plain_text@ == blocks_of(
                pkcs7_padded(input_data.spec_bytes(), block_size.spec_len()),
                block_size.spec_len(),
            ),
            plain_text@.len() == input_data.spec_bytes().len() / block_size.spec_len() + 1,
            plain_text.spec_block_size() == *block_size,
    {
        let size = block_size.as_usize();
        let input = input_data.as_bytes();
        let padding_size = size - input.len() % size;
        let mut padded: Vec<u8> = Vec::new();
        padded.extend_from_slice(input);
        let mut i: usize = 0;
        while i < padding_size
            invariant
                i <= padding_size,
                padding_size <= 16,
                padded@ == input@ + Seq::new(i as nat, |k: int| padding_size as u8),
            decreases padding_size - i,
        {
            padded.push(padding_size as u8);
            i += 1;
            assert(padded@ =~= input@ + Seq::new(i as nat, |k: int| padding_size as u8));
        }
        assert(padded@ == pkcs7_padded(input_data.spec_bytes(), block_size.spec_len()));
        assert(padded@.len() % (size as nat) == 0 && padded@.len() / (size as nat) == input@.len()
            / (size as nat) + 1) by {
            let len = input@.len() as int;
            let s = size as int;
            assert((len + (s - len % s)) % s == 0 && (len + (s - len % s)) / s == len / s + 1)
                by (nonlinear_arith)
                requires
                    s > 0,
                    len >= 0,
            ;
        }
        match split_into_blocks(padded.as_slice(), *block_size) {
            Ok(blocks) => {
                assert(blocks@.len() == block_views(blocks@).len());
                PlainText { blocks }
            },
            Err(_) => vstd::pervasive::unreached(),
        }
    }

    /// The blocks, first to last.
    pub fn blocks(&self) -> (blocks: &[Block])
        ensures
            block_views(blocks@) == self@,
            blocks@.len() >= 1,
            all_of_size(blocks@, self.spec_block_size()),
    {
        proof {
            use_type_invariant(self);
        }
        self.blocks.as_slice()
    }

    /// Number of blocks; at least one.
    pub fn amount_blocks(&self) -> (count: usize)
        ensures
            count == self@.len(),
            count >= 1,
    {
        proof {
            use_type_invariant(self);
        }
        self.blocks.len()
    }

    /// The size of the blocks.
    pub fn block_size(&self) -> (size: BlockSize)
        ensures
            size == self.spec_block_size(),
    {
        proof {
            use_type_invariant(self);
        }
        self.blocks[0].block_size()
    }
}

/// PKCS#7 padding fills whole blocks and ends in as many bytes as it added,
/// each holding that number.
pub proof fn lemma_pkcs7_padded(bytes: Seq<u8>, size: nat)
    requires
        BlockSize::is_block_len(size as int),
    ensures
        1 <= padding_len(bytes.len(), size) <= size,
        pkcs7_padded(bytes, size).len() == bytes.len() + padding_len(bytes.len(), size),
        pkcs7_padded(bytes, size).len() % size == 0,
        pkcs7_padded(bytes, size).subrange(0, bytes.len() as int) == bytes,
        forall|i: int|
            bytes.len() <= i < pkcs7_padded(bytes, size).len() ==> #[trigger] pkcs7_padded(
                bytes,
                size,
            )[i] == padding_len(bytes.len(), size),
{
    let len = bytes.len() as int;
    let s = size as int;
    assert(0 <= len % s < s && (len + (s - len % s)) % s == 0) by (nonlinear_arith)
        requires
            s > 0,
            len >= 0,
    ;
    assert(pkcs7_padded(bytes, size).subrange(0, bytes.len() as int) =~= bytes);
}

} // verus!
