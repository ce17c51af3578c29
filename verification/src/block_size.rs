//! The two block widths a cipher may use.

use vstd::prelude::*;

verus! {

/// Width of a cipher block: eight or sixteen bytes.
#[derive(Clone, Copy, Debug, PartialEq, Eq, Structural)]
pub enum BlockSize {
    Eight,
    Sixteen,
}

/// A text that names no block size.
#[derive(Clone, Copy, Debug, PartialEq, Eq, Structural)]
pub struct InvalidBlockSize;

/// Whether `text` is the decimal spelling of a block size.
pub open spec fn names_block_size(text: Seq<char>) -> bool {
    text == seq!['8'] || text == seq!['1', '6']
}

impl BlockSize {
    /// Number of bytes in a block of this size.
    pub open spec fn spec_len(self) -> nat {
        match self {
            BlockSize::Eight => 8,
            BlockSize::Sixteen => 16,
        }
    }

    /// Whether `len` is a length that a block can have.
    pub open spec fn is_block_len(len: int) -> bool {
        len == 8 || len == 16
    }

    /// The size whose blocks hold `len` bytes.
    pub open spec fn spec_from_len(len: int) -> BlockSize {
        if len == 8 {
            BlockSize::Eight
        } else {
            BlockSize::Sixteen
        }
    }

    /// Whether `self` is strictly narrower than `other`.
    pub open spec fn spec_lt(self, other: BlockSize) -> bool {
        self.spec_len() < other.spec_len()
    }

    /// Number of bytes in a block of this size.
    pub fn len(&self) -> (len: u8)
        ensures
            len == self.spec_len(),
    {
        match self {
            BlockSize::Eight => 8,
            BlockSize::Sixteen => 16,
        }
    }

    /// Number of bytes in a block of this size, for indexing.
    pub fn as_usize(&self) -> (len: usize)
        ensures
            len == self.spec_len(),
    {
        match self {
            BlockSize::Eight => 8,
            BlockSize::Sixteen => 16,
        }
    }

    /// Every block size, narrowest first.
    pub fn variants() -> (all: Vec<BlockSize>)
        ensures
            all@ == seq![BlockSize::Eight, BlockSize::Sixteen],
    {
        let mut all: Vec<BlockSize> = Vec::new();
        all.push(BlockSize::Eight);
        all.push(BlockSize::Sixteen);
        all
    }

    /// The size of blocks of `len` bytes, if there is one.
    pub fn from_len(len: usize) -> (size: Option<BlockSize>)
        ensures
            size is Some <==> Self::is_block_len(len as int),
            size is Some ==> size->0 == Self::spec_from_len(len as int),
            size is Some ==> size->0.spec_len() == len,
    {
        if len == 8 {
            Some(BlockSize::Eight)
        } else if len == 16 {
            Some(BlockSize::Sixteen)
        } else {
            None
        }
    }

    /// Reads a block size from its decimal spelling, `8` or `16`.
    pub fn parse(text: &str) -> (size: Result<BlockSize, InvalidBlockSize>)
        ensures
            size is Ok <==> names_block_size(text@),
            size is Ok ==> (size->Ok_0 == BlockSize::Eight <==> text@ == seq!['8']),
    {
        let count = text.unicode_len();
        if count == 1 {
            if text.get_char(0) == '8' {
                assert(text@ =~= seq!['8']);
                Ok(BlockSize::Eight)
            } else {
                Err(InvalidBlockSize)
            }
        } else if count == 2 {
            if text.get_char(0) == '1' && text.get_char(1) == '6' {
                assert(text@ =~= seq!['1', '6']);
                Ok(BlockSize::Sixteen)
            } else {
                Err(InvalidBlockSize)
            }
        } else {
            Err(InvalidBlockSize)
        }
    }

    /// Whether this size is strictly narrower than `other`.
    pub fn is_narrower_than(&self, other: &BlockSize) -> (narrower: bool)
        ensures
            narrower == self.spec_lt(*other),
    {
        self.len() < other.len()
    }
}

} // verus!
