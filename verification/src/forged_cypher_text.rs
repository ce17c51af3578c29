//! The state of the attack on one block: the forged block before it, byte by
//! byte from the right.

use vstd::prelude::*;

use crate::base64_codec::base64_encodable_len;
use crate::block::{
    bytes_as_chars, intermediate_of, padding_adjusted, xor_bytes, zero_bytes, Block,
};
use crate::block_size::BlockSize;
use crate::codec::{all_of_size, block_views, encode, join_blocks, joined, text_encoding};
use crate::cypher_text::{CypherText, MAX_BLOCKS};
use crate::encoding::Encoding;

verus! {

/// The attack on one block as a value.
pub struct ForgedView {
    /// The ciphertext up to and including the block under attack.
    pub original_blocks: Seq<Seq<u8>>,
    pub url_encoded: bool,
    pub used_encoding: Encoding,
    /// The place of the byte under attack.
    pub current_byte_idx: int,
    /// The forged block as it is tried.
    pub wip: Seq<u8>,
    /// The bytes of the forged block that are settled.
    pub solution: Seq<u8>,
}

/// A finished attack on one block as a value.
pub struct SolvedView {
    pub original_blocks: Seq<Seq<u8>>,
    pub url_encoded: bool,
    pub used_encoding: Encoding,
    pub solution: Seq<u8>,
}

/// At least two and at most `MAX_BLOCKS` blocks, all of one block size.
pub open spec fn is_prefix(blocks: Seq<Seq<u8>>) -> bool {
    &&& 2 <= blocks.len() <= MAX_BLOCKS
    &&& BlockSize::is_block_len(blocks[0].len() as int)
    &&& forall|i: int| 0 <= i < blocks.len() ==> (#[trigger] blocks[i]).len() == blocks[0].len()
}

impl ForgedView {
    /// Number of bytes in a block.
    pub open spec fn size(self) -> nat {
        self.original_blocks[0].len()
    }

    /// A prefix of a ciphertext, two forged blocks of its size, and a place in
    /// them.
    pub open spec fn wf(self) -> bool {
        &&& is_prefix(self.original_blocks)
        &&& self.wip.len() == self.size()
        &&& self.solution.len() == self.size()
        &&& 0 <= self.current_byte_idx < self.size()
    }

    /// The attack before its first byte: the last byte is under attack and
    /// both forged blocks are zero.
    pub open spec fn fresh(blocks: Seq<Seq<u8>>, url_encoded: bool, used_encoding: Encoding) -> Self {
        ForgedView {
            original_blocks: blocks,
            url_encoded,
            used_encoding,
            current_byte_idx: blocks[0].len() - 1,
            wip: zero_bytes(blocks[0].len()),
            solution: zero_bytes(blocks[0].len()),
        }
    }

    /// The block under attack.
    pub open spec fn target_block(self) -> Seq<u8> {
        self.original_blocks[self.original_blocks.len() - 1]
    }

    /// The block that the forged one stands in for.
    pub open spec fn previous_block(self) -> Seq<u8> {
        self.original_blocks[self.original_blocks.len() - 2]
    }

    /// The padding length that the byte under attack is tried for.
    pub open spec fn pad_size(self) -> int {
        self.size() - self.current_byte_idx
    }

    /// Number of bytes settled so far.
    pub open spec fn bytes_answered(self) -> int {
        self.size() - 1 - self.current_byte_idx
    }

    /// The state with `value` tried at the byte under attack.
    pub open spec fn set_current_byte(self, value: u8) -> Self {
        ForgedView { wip: self.wip.update(self.current_byte_idx, value), ..self }
    }

    /// The state with the byte under attack settled as it is tried, and the
    /// byte to its left under attack.
    pub open spec fn lock_byte(self) -> Self {
        ForgedView {
            solution: self.solution.update(
                self.current_byte_idx,
                self.wip[self.current_byte_idx],
            ),
            current_byte_idx: self.current_byte_idx - 1,
            ..self
        }
    }

    /// The finished attack, once the first byte is settled.
    pub open spec fn solved(self) -> SolvedView {
        SolvedView {
            original_blocks: self.original_blocks,
            url_encoded: self.url_encoded,
            used_encoding: self.used_encoding,
            solution: self.solution,
        }
    }

    /// The forged block as it goes to the oracle: adjusted so that the bytes
    /// settled so far give the padding that the byte under attack is tried
    /// for.
    pub open spec fn sent_block(self) -> Seq<u8> {
        padding_adjusted(self.wip, self.pad_size())
    }

    /// The blocks that go to the oracle: the ciphertext with the forged block
    /// in the place of the one before the block under attack.
    pub open spec fn sent_blocks(self) -> Seq<Seq<u8>> {
        self.original_blocks.update(self.original_blocks.len() - 2, self.sent_block())
    }

    /// The text that goes to the oracle.
    pub open spec fn text(self) -> Seq<char> {
        text_encoding(
            joined(self.sent_blocks(), self.size()),
            self.used_encoding,
            self.url_encoded,
        )
    }
}

impl SolvedView {
    /// A prefix of a ciphertext and a forged block of its size.
    pub open spec fn wf(self) -> bool {
        &&& is_prefix(self.original_blocks)
        &&& self.solution.len() == self.original_blocks[0].len()
    }

    /// The block that was attacked.
    pub open spec fn target_block(self) -> Seq<u8> {
        self.original_blocks[self.original_blocks.len() - 1]
    }

    /// The block that the forged one stood in for.
    pub open spec fn previous_block(self) -> Seq<u8> {
        self.original_blocks[self.original_blocks.len() - 2]
    }

    /// What the cipher makes of the attacked block before the block in front
    /// of it is mixed in, as the solution has it.
    pub open spec fn intermediate(self) -> Seq<u8> {
        intermediate_of(self.solution)
    }

    /// The plain text of the attacked block: the intermediate xor-ed with the
    /// block in front of it.
    pub open spec fn plain_text(self) -> Seq<u8> {
        xor_bytes(self.intermediate(), self.previous_block())
    }
}

/// The attack on one block of a ciphertext.
pub struct ForgedCypherText {
    original_blocks: Vec<Block>,
    url_encoded: bool,
    used_encoding: Encoding,
    current_byte_idx: u8,
    forged_block_wip: Block,
    forged_block_solution: Block,
}

/// A finished attack on one block.
pub struct SolvedForgedCypherText {
    original_blocks: Vec<Block>,
    url_encoded: bool,
    used_encoding: Encoding,
    forged_block_solution: Block,
}

/// What settling a byte leads to.
pub enum ByteLockResult {
    /// Bytes are left to attack.
    BytesLeft(ForgedCypherText),
    /// That was the first byte of the block: the block is solved.
    Solved(SolvedForgedCypherText),
}

/// No block with that index can be attacked.
#[derive(Clone, Copy, Debug, PartialEq, Eq, Structural)]
pub struct NoSuchBlock {
    /// The index that was asked for.
    pub block_to_decrypt_idx: usize,
    /// Number of blocks in the ciphertext.
    pub amount_blocks: usize,
}

impl View for ForgedCypherText {
    type V = ForgedView;

    closed spec fn view(&self) -> ForgedView {
        ForgedView {
            original_blocks: block_views(self.original_blocks@),
            url_encoded: self.url_encoded,
            used_encoding: self.used_encoding,
            current_byte_idx: self.current_byte_idx as int,
            wip: self.forged_block_wip@,
            solution: self.forged_block_solution@,
        }
    }
}

impl View for SolvedForgedCypherText {
    type V = SolvedView;

    closed spec fn view(&self) -> SolvedView {
        SolvedView {
            original_blocks: block_views(self.original_blocks@),
            url_encoded: self.url_encoded,
            used_encoding: self.used_encoding,
            solution: self.forged_block_solution@,
        }
    }
}

fn copy_blocks(blocks: &[Block], count: usize) -> (copy: Vec<Block>)
    requires
        count <= blocks@.len(),
    ensures
        copy@ == blocks@.subrange(0, count as int),
{
    let mut copy: Vec<Block> = Vec::new();
    let mut i: usize = 0;
    while i < count
        invariant
            i <= count <= blocks@.len(),
            copy@ == blocks@.subrange(0, i as int),
        decreases count - i,
    {
        copy.push(blocks[i]);
        i += 1;
        assert(copy@ =~= blocks@.subrange(0, i as int));
    }
    copy
}

proof fn lemma_prefix(blocks: Seq<Block>)
    requires
        2 <= blocks.len() <= MAX_BLOCKS,
        all_of_size(blocks, blocks[0].spec_block_size()),
    ensures
        is_prefix(block_views(blocks)),
        block_views(blocks)[0].len() == blocks[0].spec_block_size().spec_len(),
{
    blocks[0].lemma_len();
    let views = block_views(blocks);
    assert forall|i: int| 0 <= i < views.len() implies (#[trigger] views[i]).len()
        == views[0].len() by {
        blocks[i].lemma_len();
    }
}

impl ForgedCypherText {
    #[verifier::type_invariant]
    spec fn inv(self) -> bool {
        &&& 2 <= self.original_blocks@.len() <= MAX_BLOCKS
        &&& all_of_size(self.original_blocks@, self.original_blocks@[0].spec_block_size())
        &&& self.forged_block_wip.spec_block_size() == self.original_blocks@[0].spec_block_size()
        &&& self.forged_block_solution.spec_block_size()
            == self.original_blocks@[0].spec_block_size()
        &&& self.current_byte_idx < self.original_blocks@[0].spec_block_size().spec_len()
    }

    proof fn lemma_inv_gives_wf(self)
        requires
            self.inv(),
        ensures
            self@.wf(),
            self@.size() == self.original_blocks@[0].spec_block_size().spec_len(),
    {
        lemma_prefix(self.original_blocks@);
        self.forged_block_wip.lemma_len();
        self.forged_block_solution.lemma_len();
    }

    /// The attack on block `block_to_decrypt_idx` of `cypher_text`, which
    /// must be a block after the first.
    pub fn from_cypher_text(cypher_text: &CypherText, block_to_decrypt_idx: usize) -> (forged:
        ForgedCypherText)
        requires
            1 <= block_to_decrypt_idx < cypher_text@.blocks.len(),
        ensures
            forged@ == ForgedView::fresh(
                cypher_text@.blocks.subrange(0, block_to_decrypt_idx + 1),
                cypher_text@.url_encoded,
                cypher_text@.used_encoding,
            ),
            forged@.wf(),
    {
        let blocks = cypher_text.blocks();
        let size = cypher_text.block_size();
        let original_blocks = copy_blocks(blocks, block_to_decrypt_idx + 1);
        assert(block_views(original_blocks@) =~= cypher_text@.blocks.subrange(
            0,
            block_to_decrypt_idx + 1,
        ));
        proof {
            blocks@[0].lemma_len();
        }
        let forged = ForgedCypherText {
            original_blocks,
            url_encoded: cypher_text.url_encoded(),
            used_encoding: cypher_text.used_encoding(),
            current_byte_idx: size.len() - 1,
            forged_block_wip: Block::new(&size),
            forged_block_solution: Block::new(&size),
        };
        proof {
            forged.lemma_inv_gives_wf();
        }
        forged
    }

    /// The attack on block `block_to_decrypt_idx` of `cypher_text`, or an
    /// error where that is the first block or no block at all.
    pub fn from_part_of_cypher_text(cypher_text: &CypherText, block_to_decrypt_idx: usize) -> (forged:
        Result<ForgedCypherText, NoSuchBlock>)
        ensures
            forged is Ok <==> 1 <= block_to_decrypt_idx < cypher_text@.blocks.len(),
            forged is Ok ==> forged->Ok_0@ == ForgedView::fresh(
                cypher_text@.blocks.subrange(0, block_to_decrypt_idx + 1),
                cypher_text@.url_encoded,
                cypher_text@.used_encoding,
            ) && forged->Ok_0@.wf(),
            forged is Err ==> forged->Err_0 == (NoSuchBlock {
                block_to_decrypt_idx,
                amount_blocks: cypher_text@.blocks.len() as usize,
            }),
    {
        let amount_blocks = cypher_text.amount_blocks();
        if block_to_decrypt_idx < 1 || block_to_decrypt_idx >= amount_blocks {
            Err(NoSuchBlock { block_to_decrypt_idx, amount_blocks })
        } else {
            Ok(ForgedCypherText::from_cypher_text(cypher_text, block_to_decrypt_idx))
        }
    }

    /// The attack on the last of the given blocks, which must be at least two
    /// and at most `MAX_BLOCKS` blocks of size `block_size`.
    pub fn from_slice(
        original_blocks: &[Block],
        block_size: BlockSize,
        url_encoded: bool,
        used_encoding: Encoding,
    ) -> (forged: ForgedCypherText)
        requires
            2 <= original_blocks@.len() <= MAX_BLOCKS,
            all_of_size(original_blocks@, block_size),
        ensures
            forged@ == ForgedView::fresh(block_views(original_blocks@), url_encoded, used_encoding),
            forged@.wf(),
    {
        let owned = copy_blocks(original_blocks, original_blocks.len());
        assert(owned@ =~= original_blocks@);
        proof {
            original_blocks@[0].lemma_len();
        }
        let forged = ForgedCypherText {
            original_blocks: owned,
            url_encoded,
            used_encoding,
            current_byte_idx: block_size.len() - 1,
            forged_block_wip: Block::new(&block_size),
            forged_block_solution: Block::new(&block_size),
        };
        proof {
            forged.lemma_inv_gives_wf();
        }
        forged
    }

    /// A copy of this state.
    pub fn duplicate(&self) -> (copy: ForgedCypherText)
        ensures
            copy@ == self@,
            copy@.wf(),
    {
        proof {
            use_type_invariant(self);
        }
        let owned = copy_blocks(self.original_blocks.as_slice(), self.original_blocks.len());
        assert(owned@ =~= self.original_blocks@);
        let copy = ForgedCypherText {
            original_blocks: owned,
            url_encoded: self.url_encoded,
            used_encoding: self.used_encoding,
            current_byte_idx: self.current_byte_idx,
            forged_block_wip: self.forged_block_wip,
            forged_block_solution: self.forged_block_solution,
        };
        proof {
            copy.lemma_inv_gives_wf();
        }
        copy
    }

    /// Tries `value` at the byte under attack.
    pub fn set_current_byte(&mut self, value: u8)
        ensures
            final(self)@ == old(self)@.set_current_byte(value),
            final(self)@.wf(),
    {
        proof {
            use_type_invariant(&*self);
            self.forged_block_wip.lemma_len();
        }
        let mut wip = self.forged_block_wip;
        wip.set_byte(self.current_byte_idx as usize, value);
        self.forged_block_wip = wip;
        proof {
            self.lemma_inv_gives_wf();
        }
    }

    /// A copy of this state with `value` tried at the byte under attack.
    pub fn with_current_byte(&self, value: u8) -> (tried: ForgedCypherText)
        ensures
            tried@ == self@.set_current_byte(value),
            tried@.wf(),
    {
        let mut tried = self.duplicate();
        tried.set_current_byte(value);
        tried
    }

    /// Settles the byte under attack as it is tried, and moves on to the
    /// byte on its left; settling the first byte solves the block.
    pub fn lock_byte(self) -> (result: ByteLockResult)
        ensures
            match result {
                ByteLockResult::BytesLeft(forged) => {
                    &&& self@.current_byte_idx > 0
                    &&& forged@ == self@.lock_byte()
                    &&& forged@.wf()
                },
                ByteLockResult::Solved(solved) => {
                    &&& self@.current_byte_idx == 0
                    &&& solved@ == self@.lock_byte().solved()
                    &&& solved@.wf()
                },
            },
    {
        proof {
            use_type_invariant(&self);
            self.lemma_inv_gives_wf();
        }
        let idx = self.current_byte_idx;
        let mut solution = self.forged_block_solution;
        solution.set_byte(idx as usize, self.forged_block_wip.byte(idx as usize));
        if idx == 0 {
            let solved = SolvedForgedCypherText {
                original_blocks: self.original_blocks,
                url_encoded: self.url_encoded,
                used_encoding: self.used_encoding,
                forged_block_solution: solution,
            };
            proof {
                solved.lemma_inv_gives_wf();
            }
            ByteLockResult::Solved(solved)
        } else {
            let forged = ForgedCypherText {
                original_blocks: self.original_blocks,
                url_encoded: self.url_encoded,
                used_encoding: self.used_encoding,
                current_byte_idx: idx - 1,
                forged_block_wip: self.forged_block_wip,
                forged_block_solution: solution,
            };
            proof {
                forged.lemma_inv_gives_wf();
            }
            ByteLockResult::BytesLeft(forged)
        }
    }

    /// Number of bytes settled so far.
    pub fn bytes_answered(&self) -> (count: u8)
        ensures
            count == self@.bytes_answered(),
            count < self@.size(),
    {
        proof {
            use_type_invariant(self);
            self.lemma_inv_gives_wf();
        }
        (self.original_blocks[0].block_size().len() - 1) - self.current_byte_idx
    }

    /// The place of the byte under attack.
    pub fn current_byte_idx(&self) -> (idx: u8)
        ensures
            idx == self@.current_byte_idx,
            self@.wf(),
    {
        proof {
            use_type_invariant(self);
            self.lemma_inv_gives_wf();
        }
        self.current_byte_idx
    }

    /// The forged block as it is tried.
    pub fn forged_block_wip(&self) -> (block: &Block)
        ensures
            block@ == self@.wip,
    {
        &self.forged_block_wip
    }

    /// The bytes of the forged block that are settled.
    pub fn forged_block_solution(&self) -> (block: &Block)
        ensures
            block@ == self@.solution,
    {
        &self.forged_block_solution
    }

    /// The ciphertext up to and including the block under attack.
    pub fn blocks(&self) -> (blocks: &[Block])
        ensures
            block_views(blocks@) == self@.original_blocks,
            self@.wf(),
    {
        proof {
            use_type_invariant(self);
            self.lemma_inv_gives_wf();
        }
        self.original_blocks.as_slice()
    }

    /// Whether the text of the ciphertext was URL-encoded.
    pub fn url_encoded(&self) -> (flag: bool)
        ensures
            flag == self@.url_encoded,
    {
        self.url_encoded
    }

    /// The encoding the ciphertext was read in.
    pub fn used_encoding(&self) -> (encoding: Encoding)
        ensures
            encoding == self@.used_encoding,
    {
        self.used_encoding
    }

    /// The size of the blocks.
    pub fn block_size(&self) -> (size: BlockSize)
        ensures
            size.spec_len() == self@.size(),
            self@.wf(),
    {
        proof {
            use_type_invariant(self);
            self.lemma_inv_gives_wf();
        }
        self.original_blocks[0].block_size()
    }

    /// Number of blocks up to and including the one under attack.
    pub fn amount_blocks(&self) -> (count: usize)
        ensures
            count == self@.original_blocks.len(),
            2 <= count <= MAX_BLOCKS,
    {
        proof {
            use_type_invariant(self);
        }
        self.original_blocks.len()
    }

    /// The pair that the result of this attack is remembered under: the
    /// block in front of the attacked one, and the attacked one.
    pub fn as_cache_key(&self) -> (key: (Block, Block))
        ensures
            key.0@ == self@.previous_block(),
            key.1@ == self@.target_block(),
    {
        proof {
            use_type_invariant(self);
        }
        let count = self.original_blocks.len();
        (self.original_blocks[count - 2], self.original_blocks[count - 1])
    }

    /// The text that goes to the oracle: the ciphertext with the forged
    /// block, adjusted for the padding under trial, in front of the block
    /// under attack.
    pub fn encode(&self) -> (text: String)
        ensures
            text@ == self@.text(),
    {
        proof {
            use_type_invariant(self);
            self.lemma_inv_gives_wf();
            self.forged_block_wip.lemma_len();
        }
        let count = self.original_blocks.len();
        let size = self.original_blocks[0].block_size();
        let adjusted = self.forged_block_wip.to_adjusted_for_padding(
            size.len() - self.current_byte_idx,
        );
        let mut sent = copy_blocks(self.original_blocks.as_slice(), count - 2);
        sent.push(adjusted);
        sent.push(self.original_blocks[count - 1]);
        assert(sent@ =~= self.original_blocks@.update(count - 2, adjusted));
        assert(block_views(sent@) =~= self@.sent_blocks());
        let bytes = join_blocks(sent.as_slice(), size);
        assert(base64_encodable_len(bytes@.len() as int)) by {
            assert(bytes@.len() <= (usize::MAX / 32) * 16) by (nonlinear_arith)
                requires
                    bytes@.len() == sent@.len() * size.spec_len(),
                    sent@.len() <= usize::MAX / 32,
                    size.spec_len() <= 16,
            ;
        }
        encode(bytes.as_slice(), &self.used_encoding, self.url_encoded)
    }
}

impl SolvedForgedCypherText {
    #[verifier::type_invariant]
    spec fn inv(self) -> bool {
        &&& 2 <= self.original_blocks@.len() <= MAX_BLOCKS
        &&& all_of_size(self.original_blocks@, self.original_blocks@[0].spec_block_size())
        &&& self.forged_block_solution.spec_block_size()
            == self.original_blocks@[0].spec_block_size()
    }

    proof fn lemma_inv_gives_wf(self)
        requires
            self.inv(),
        ensures
            self@.wf(),
    {
        lemma_prefix(self.original_blocks@);
        self.forged_block_solution.lemma_len();
    }

    /// The attack on a block finished with a solution that was found before.
    pub fn from_cached(forged: ForgedCypherText, forged_block_solution: Block) -> (solved:
        SolvedForgedCypherText)
        requires
            forged_block_solution@.len() == forged@.size(),
        ensures
            solved@ == (SolvedView {
                original_blocks: forged@.original_blocks,
                url_encoded: forged@.url_encoded,
                used_encoding: forged@.used_encoding,
                solution: forged_block_solution@,
            }),
            solved@.wf(),
    {
        proof {
            use_type_invariant(&forged);
            forged.lemma_inv_gives_wf();
            forged_block_solution.lemma_len();
            forged.original_blocks@[0].lemma_len();
        }
        let solved = SolvedForgedCypherText {
            original_blocks: forged.original_blocks,
            url_encoded: forged.url_encoded,
            used_encoding: forged.used_encoding,
            forged_block_solution,
        };
        proof {
            solved.lemma_inv_gives_wf();
        }
        solved
    }

    /// A copy of this solution.
    pub fn duplicate(&self) -> (copy: SolvedForgedCypherText)
        ensures
            copy@ == self@,
            copy@.wf(),
    {
        proof {
            use_type_invariant(self);
        }
        let owned = copy_blocks(self.original_blocks.as_slice(), self.original_blocks.len());
        assert(owned@ =~= self.original_blocks@);
        let copy = SolvedForgedCypherText {
            original_blocks: owned,
            url_encoded: self.url_encoded,
            used_encoding: self.used_encoding,
            forged_block_solution: self.forged_block_solution,
        };
        proof {
            copy.lemma_inv_gives_wf();
        }
        copy
    }

    /// The ciphertext up to and including the block that was attacked.
    pub fn original_blocks(&self) -> (blocks: &[Block])
        ensures
            block_views(blocks@) == self@.original_blocks,
            self@.wf(),
    {
        proof {
            use_type_invariant(self);
            self.lemma_inv_gives_wf();
        }
        self.original_blocks.as_slice()
    }

    /// Whether the text of the ciphertext was URL-encoded.
    pub fn url_encoded(&self) -> (flag: bool)
        ensures
            flag == self@.url_encoded,
    {
        self.url_encoded
    }

    /// The encoding the ciphertext was read in.
    pub fn used_encoding(&self) -> (encoding: Encoding)
        ensures
            encoding == self@.used_encoding,
    {
        self.used_encoding
    }

    /// The forged block that solves the attacked block.
    pub fn forged_block_solution(&self) -> (block: &Block)
        ensures
            block@ == self@.solution,
            self@.wf(),
    {
        proof {
            use_type_invariant(self);
            self.lemma_inv_gives_wf();
        }
        &self.forged_block_solution
    }

    /// Number of blocks up to and including the one that was attacked.
    pub fn amount_blocks(&self) -> (count: usize)
        ensures
            count == self@.original_blocks.len(),
            2 <= count <= MAX_BLOCKS,
    {
        proof {
            use_type_invariant(self);
        }
        self.original_blocks.len()
    }

    /// The block that was attacked.
    pub fn block_to_decrypt(&self) -> (block: &Block)
        ensures
            block@ == self@.target_block(),
    {
        proof {
            use_type_invariant(self);
        }
        &self.original_blocks[self.original_blocks.len() - 1]
    }

    /// The block that the forged one stood in for.
    pub fn original_forged_block(&self) -> (block: &Block)
        ensures
            block@ == self@.previous_block(),
    {
        proof {
            use_type_invariant(self);
        }
        &self.original_blocks[self.original_blocks.len() - 2]
    }

    /// The plain text of the attacked block.
    pub fn plain_text_block(&self) -> (block: Block)
        ensures
            block@ == self@.plain_text(),
    {
        proof {
            use_type_invariant(self);
            self.lemma_inv_gives_wf();
            self.forged_block_solution.lemma_len();
        }
        let previous = &self.original_blocks[self.original_blocks.len() - 2];
        proof {
            previous.lemma_len();
            self.original_blocks@[0].lemma_len();
        }
        self.forged_block_solution.to_intermediate().xor(previous)
    }

    /// The plain text of the attacked block as text, each byte taken as the
    /// character with that code.
    pub fn plain_text_solution(&self) -> (text: String)
        ensures
            text@ == bytes_as_chars(self@.plain_text()),
    {
        self.plain_text_block().to_text()
    }
}

} // verus!
