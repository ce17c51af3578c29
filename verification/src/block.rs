//! Fixed-width blocks of bytes and the arithmetic of the attack on them.

use vstd::prelude::*;

use crate::block_size::BlockSize;
use crate::hex_codec::{hex_encode, hex_encoding};

verus! {

/// A block of eight or of sixteen bytes.
#[derive(Clone, Copy, Debug, PartialEq, Eq, Hash)]
pub enum Block {
    Eight([u8; 8]),
    Sixteen([u8; 16]),
}

impl View for Block {
    type V = Seq<u8>;

    open spec fn view(&self) -> Seq<u8> {
        match *self {
            Block::Eight(data) => data@,
            Block::Sixteen(data) => data@,
        }
    }
}

/// The block of `len` zero bytes.
pub open spec fn zero_bytes(len: nat) -> Seq<u8> {
    Seq::new(len, |i: int| 0u8)
}

/// The bytes `len, len - 1, .., 2, 1`: at each place the padding length under
/// which that place is the first padding byte.
pub open spec fn incremental_padding(len: nat) -> Seq<u8> {
    Seq::new(len, |i: int| (len - i) as u8)
}

/// Byte-wise exclusive or of two sequences, as long as the first.
pub open spec fn xor_bytes(left: Seq<u8>, right: Seq<u8>) -> Seq<u8> {
    Seq::new(left.len(), |i: int| left[i] ^ right[i])
}

/// What a forged block claims of the cipher's raw output for the block after
/// it: the block xor-ed with the incremental padding.
pub open spec fn intermediate_of(forged: Seq<u8>) -> Seq<u8> {
    xor_bytes(forged, incremental_padding(forged.len()))
}

/// `block` with its last `pad_size` bytes re-targeted from the padding length
/// under which each was found to the padding length `pad_size`.
pub open spec fn padding_adjusted(block: Seq<u8>, pad_size: int) -> Seq<u8> {
    Seq::new(
        block.len(),
        |i: int|
            if block.len() - pad_size <= i {
                block[i] ^ ((block.len() - i) as u8) ^ (pad_size as u8)
            } else {
                block[i]
            },
    )
}

impl Block {
    /// Every block is eight or sixteen bytes long, as its size says.
    pub proof fn lemma_len(self)
        ensures
            BlockSize::is_block_len(self@.len() as int),
            self@.len() == self.spec_block_size().spec_len(),
    {
        broadcast use vstd::array::group_array_axioms;

    }

    /// The size of this block.
    pub open spec fn spec_block_size(self) -> BlockSize {
        match self {
            Block::Eight(_) => BlockSize::Eight,
            Block::Sixteen(_) => BlockSize::Sixteen,
        }
    }

    /// The all-zero block of the given size.
    pub fn new(block_size: &BlockSize) -> (block: Block)
        ensures
            block@ == zero_bytes(block_size.spec_len()),
            block.spec_block_size() == *block_size,
    {
        broadcast use vstd::array::group_array_axioms;

        match block_size {
            BlockSize::Eight => {
                let block = Block::Eight([0u8;8]);
                assert(block@ =~= zero_bytes(8));
                block
            },
            BlockSize::Sixteen => {
                let block = Block::Sixteen([0u8;16]);
                assert(block@ =~= zero_bytes(16));
                block
            },
        }
    }

    /// The block `N, N - 1, .., 2, 1` of the given size `N`.
    pub fn new_incremental_padding(block_size: &BlockSize) -> (block: Block)
        ensures
            block@ == incremental_padding(block_size.spec_len()),
            block.spec_block_size() == *block_size,
    {
        broadcast use vstd::array::group_array_axioms;

        match block_size {
            BlockSize::Eight => {
                let block = Block::Eight([8, 7, 6, 5, 4, 3, 2, 1]);
                assert(block@ =~= incremental_padding(8));
                block
            },
            BlockSize::Sixteen => {
                let block = Block::Sixteen([16, 15, 14, 13, 12, 11, 10, 9, 8, 7, 6, 5, 4, 3, 2, 1]);
                assert(block@ =~= incremental_padding(16));
                block
            },
        }
    }

    /// The size of this block.
    pub fn block_size(&self) -> (size: BlockSize)
        ensures
            size == self.spec_block_size(),
            size.spec_len() == self@.len(),
    {
        broadcast use vstd::array::group_array_axioms;

        match self {
            Block::Eight(_) => BlockSize::Eight,
            Block::Sixteen(_) => BlockSize::Sixteen,
        }
    }

    /// Number of bytes in the block.
    pub fn len(&self) -> (len: usize)
        ensures
            len == self@.len(),
            BlockSize::is_block_len(len as int),
    {
        broadcast use vstd::array::group_array_axioms;

        match self {
            Block::Eight(_) => 8,
            Block::Sixteen(_) => 16,
        }
    }

    /// The byte at `index`.
    pub fn byte(&self, index: usize) -> (value: u8)
        requires
            index < self@.len(),
        ensures
            value == self@[index as int],
    {
        broadcast use vstd::array::group_array_axioms;

        match self {
            Block::Eight(data) => data[index],
            Block::Sixteen(data) => data[index],
        }
    }
}

/// An index past the end of a block.
#[derive(Clone, Copy, Debug, PartialEq, Eq, Structural)]
pub struct ByteIndexOutOfRange {
    pub index: usize,
    pub block_len: usize,
}

impl Block {
    /// Overwrites the byte at `index` with `value`.
    pub fn set_byte(&mut self, index: usize, value: u8)
        requires
            index < old(self)@.len(),
        ensures
            final(self)@ == old(self)@.update(index as int, value),
            final(self).spec_block_size() == old(self).spec_block_size(),
    {
        broadcast use vstd::array::group_array_axioms;

        match self {
            Block::Eight(data) => {
                data[index] = value;
            },
            Block::Sixteen(data) => {
                data[index] = value;
            },
        }
    }

    /// Adds one to the byte at `index`, wrapping from 255 to 0; an index past
    /// the end is reported and leaves the block as it was.
    pub fn increment_byte(&mut self, index: usize) -> (done: Result<(), ByteIndexOutOfRange>)
        ensures
            done is Ok <==> index < old(self)@.len(),
            done is Ok ==> final(self)@ == old(self)@.update(
                index as int,
                (if old(self)@[index as int] == 255 {
                    0u8
                } else {
                    (old(self)@[index as int] + 1) as u8
                }),
            ),
            done is Err ==> *final(self) == *old(self) && done->Err_0 == (ByteIndexOutOfRange {
                index,
                block_len: old(self)@.len() as usize,
            }),
            final(self).spec_block_size() == old(self).spec_block_size(),
    {
        let block_len = self.len();
        if index < block_len {
            let value = self.byte(index);
            self.set_byte(index, value.wrapping_add(1));
            Ok(())
        } else {
            Err(ByteIndexOutOfRange { index, block_len })
        }
    }
}

impl Block {
    /// The block that holds exactly `bytes`, whose length must be a block
    /// length.
    pub fn from_bytes(bytes: &[u8]) -> (block: Block)
        requires
            BlockSize::is_block_len(bytes@.len() as int),
        ensures
            block@ == bytes@,
    {
        broadcast use vstd::array::group_array_axioms;

        let size = if bytes.len() == 8 {
            BlockSize::Eight
        } else {
            BlockSize::Sixteen
        };
        let mut block = Block::new(&size);
        let len = bytes.len();
        let mut i: usize = 0;
        while i < len
            invariant
                len == bytes@.len(),
                block@.len() == len,
                i <= len,
                forall|j: int| 0 <= j < i ==> block@[j] == bytes@[j],
            decreases len - i,
        {
            block.set_byte(i, bytes[i]);
            i += 1;
        }
        assert(block@ =~= bytes@);
        block
    }

    /// The block that holds exactly `bytes`, or nothing where their number is
    /// no block length.
    pub fn try_from_bytes(bytes: &[u8]) -> (block: Option<Block>)
        ensures
            block is Some <==> BlockSize::is_block_len(bytes@.len() as int),
            block is Some ==> block->0@ == bytes@,
    {
        if bytes.len() == 8 || bytes.len() == 16 {
            Some(Block::from_bytes(bytes))
        } else {
            None
        }
    }

    /// The bytes of the block, in order.
    pub fn to_bytes(&self) -> (bytes: Vec<u8>)
        ensures
            bytes@ == self@,
    {
        let len = self.len();
        let mut bytes: Vec<u8> = Vec::new();
        let mut i: usize = 0;
        while i < len
            invariant
                len == self@.len(),
                i <= len,
                bytes@.len() == i,
                forall|j: int| 0 <= j < i ==> bytes@[j] == self@[j],
            decreases len - i,
        {
            bytes.push(self.byte(i));
            i += 1;
        }
        assert(bytes@ =~= self@);
        bytes
    }

    /// Whether both blocks hold the same bytes.
    pub fn same_bytes(&self, other: &Block) -> (same: bool)
        ensures
            same == (self@ == other@),
            same == (*self == *other),
    {
        broadcast use vstd::array::group_array_axioms;

        let len = self.len();
        if len != other.len() {
            return false;
        }
        let mut i: usize = 0;
        while i < len
            invariant
                len == self@.len(),
                len == other@.len(),
                i <= len,
                forall|j: int| 0 <= j < i ==> self@[j] == other@[j],
            decreases len - i,
        {
            if self.byte(i) != other.byte(i) {
                return false;
            }
            i += 1;
        }
        assert(self@ =~= other@);
        proof {
            match (*self, *other) {
                (Block::Eight(a), Block::Eight(b)) => {
                    assert(a =~= b);
                },
                (Block::Sixteen(a), Block::Sixteen(b)) => {
                    assert(a =~= b);
                },
                _ => {},
            }
        }
        true
    }

    /// Byte-wise exclusive or with a block of the same size.
    pub fn xor(&self, rhs: &Block) -> (result: Block)
        requires
            self@.len() == rhs@.len(),
        ensures
            result@ == xor_bytes(self@, rhs@),
            result.spec_block_size() == self.spec_block_size(),
    {
        broadcast use vstd::array::group_array_axioms;

        let len = self.len();
        let mut result = *self;
        let mut i: usize = 0;
        while i < len
            invariant
                len == self@.len(),
                len == rhs@.len(),
                result@.len() == len,
                result.spec_block_size() == self.spec_block_size(),
                i <= len,
                forall|j: int| 0 <= j < i ==> result@[j] == self@[j] ^ rhs@[j],
            decreases len - i,
        {
            result.set_byte(i, self.byte(i) ^ rhs.byte(i));
            i += 1;
        }
        assert(result@ =~= xor_bytes(self@, rhs@));
        result
    }

    /// The intermediate that this forged block stands for: the block xor-ed
    /// with the incremental padding of its size.
    pub fn to_intermediate(&self) -> (result: Block)
        ensures
            result@ == intermediate_of(self@),
            result.spec_block_size() == self.spec_block_size(),
    {
        let padding = Block::new_incremental_padding(&self.block_size());
        self.xor(&padding)
    }

    /// A copy whose last `pad_size` bytes are rewritten for the padding
    /// length `pad_size`: each such byte is xor-ed with the padding length it
    /// was found under and with `pad_size`.
    pub fn to_adjusted_for_padding(&self, pad_size: u8) -> (result: Block)
        requires
            pad_size <= self@.len(),
        ensures
            result@ == padding_adjusted(self@, pad_size as int),
            result.spec_block_size() == self.spec_block_size(),
    {
        broadcast use vstd::array::group_array_axioms;

        let len = self.len();
        let start = len - pad_size as usize;
        let mut result = *self;
        let mut i: usize = start;
        while i < len
            invariant
                len == self@.len(),
                BlockSize::is_block_len(len as int),
                start == len - pad_size,
                result@.len() == len,
                result.spec_block_size() == self.spec_block_size(),
                start <= i <= len,
                forall|j: int| 0 <= j < start ==> result@[j] == self@[j],
                forall|j: int| i <= j < len ==> result@[j] == self@[j],
                forall|j: int|
                    start <= j < i ==> result@[j] == self@[j] ^ ((len - j) as u8) ^ pad_size,
            decreases len - i,
        {
            let found_under = (len - i) as u8;
            result.set_byte(i, self.byte(i) ^ found_under ^ pad_size);
            i += 1;
        }
        assert(result@ =~= padding_adjusted(self@, pad_size as int));
        result
    }
}

/// Xor-ing twice with the same block gives the first block back.
pub proof fn lemma_xor_involutive(a: Seq<u8>, b: Seq<u8>)
    requires
        a.len() == b.len(),
    ensures
        xor_bytes(xor_bytes(a, b), b) == a,
{
    assert forall|i: int| 0 <= i < a.len() implies (a[i] ^ b[i]) ^ b[i] == a[i] by {
        let x = a[i];
        let y = b[i];
        assert((x ^ y) ^ y == x) by (bit_vector);
    }
    assert(xor_bytes(xor_bytes(a, b), b) =~= a);
}

/// Adjusting a block for the padding length `pad_size` makes each of its last
/// `pad_size` bytes, xor-ed with the intermediate byte at its place, equal to
/// `pad_size`: wherever the intermediate is the one that the block stands
/// for, the plain text ends in `pad_size` bytes of value `pad_size`.
pub proof fn lemma_padding_adjusted_yields_padding(
    wip: Seq<u8>,
    pad_size: int,
    intermediate: Seq<u8>,
)
    requires
        BlockSize::is_block_len(wip.len() as int),
        intermediate.len() == wip.len(),
        1 <= pad_size <= wip.len(),
        forall|i: int|
            wip.len() - pad_size <= i < wip.len() ==> intermediate[i] == intermediate_of(wip)[i],
    ensures
        padding_adjusted(wip, pad_size).len() == wip.len(),
        forall|i: int|
            wip.len() - pad_size <= i < wip.len() ==> #[trigger] xor_bytes(
                padding_adjusted(wip, pad_size),
                intermediate,
            )[i] == pad_size,
        forall|i: int|
            0 <= i < wip.len() - pad_size ==> #[trigger] padding_adjusted(wip, pad_size)[i]
                == wip[i],
{
    assert forall|i: int| wip.len() - pad_size <= i < wip.len() implies #[trigger] xor_bytes(
        padding_adjusted(wip, pad_size),
        intermediate,
    )[i] == pad_size by {
        let w = wip[i];
        let found_under = (wip.len() - i) as u8;
        let pad = pad_size as u8;
        assert(intermediate[i] == w ^ found_under);
        assert((w ^ found_under ^ pad) ^ (w ^ found_under) == pad) by (bit_vector);
    }
}

/// The byte under attack goes out as it is: adjusting for the padding length
/// `pad_size` leaves the first of the last `pad_size` bytes unchanged.
pub proof fn lemma_padding_adjusted_keeps_current_byte(wip: Seq<u8>, pad_size: int)
    requires
        BlockSize::is_block_len(wip.len() as int),
        1 <= pad_size <= wip.len(),
    ensures
        padding_adjusted(wip, pad_size)[wip.len() - pad_size] == wip[wip.len() - pad_size],
{
    let w = wip[wip.len() - pad_size];
    let pad = pad_size as u8;
    assert(w ^ pad ^ pad == w) by (bit_vector);
}

/// Each byte as the character with that code.
pub open spec fn bytes_as_chars(bytes: Seq<u8>) -> Seq<char> {
    Seq::new(bytes.len(), |i: int| bytes[i] as char)
}

/// Whether a byte is a printable ASCII character: neither a control
/// character nor beyond ASCII.
pub open spec fn is_printable(byte: u8) -> bool {
    32 <= byte <= 126
}

/// Each printable byte as its character, every other byte as a dot.
pub open spec fn printable_ascii(bytes: Seq<u8>) -> Seq<char> {
    Seq::new(
        bytes.len(),
        |i: int|
            if is_printable(bytes[i]) {
                bytes[i] as char
            } else {
                '.'
            },
    )
}

impl Block {
    /// The block in lower-case hexadecimal.
    pub fn to_hex(&self) -> (text: String)
        ensures
            text@ == hex_encoding(self@),
    {
        let bytes = self.to_bytes();
        hex_encode(bytes.as_slice())
    }

    /// The block as text, with a dot for every byte that is no printable
    /// ASCII character.
    pub fn to_ascii(&self) -> (text: String)
        ensures
            text@ == printable_ascii(self@),
    {
        let len = self.len();
        let mut text = String::new();
        let mut i: usize = 0;
        while i < len
            invariant
                len == self@.len(),
                i <= len,
                text@ == printable_ascii(self@).subrange(0, i as int),
            decreases len - i,
        {
            let byte = self.byte(i);
            let c = if 32 <= byte && byte <= 126 {
                byte as char
            } else {
                '.'
            };
            text.push(c);
            i += 1;
            assert(text@ =~= printable_ascii(self@).subrange(0, i as int));
        }
        assert(text@ =~= printable_ascii(self@));
        text
    }

    /// The block as text, each byte taken as the character with that code.
    pub fn to_text(&self) -> (text: String)
        ensures
            text@ == bytes_as_chars(self@),
    {
        let len = self.len();
        let mut text = String::new();
        let mut i: usize = 0;
        while i < len
            invariant
                len == self@.len(),
                i <= len,
                text@ == bytes_as_chars(self@).subrange(0, i as int),
            decreases len - i,
        {
            text.push(self.byte(i) as char);
            i += 1;
            assert(text@ =~= bytes_as_chars(self@).subrange(0, i as int));
        }
        assert(text@ =~= bytes_as_chars(self@));
        text
    }
}

} // verus!
