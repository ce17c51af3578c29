//! The attack on a whole ciphertext: one attack per block.

use vstd::prelude::*;
use vstd::string::*;

use crate::block::{bytes_as_chars, intermediate_of, xor_bytes, Block};
use crate::calibrator::Calibrator;
use crate::codec::block_views;
use crate::cypher_text::{CypherText, CypherTextView, MAX_BLOCKS};
use crate::forged_cypher_text::{
    ForgedCypherText, ForgedView, SolvedForgedCypherText, SolvedView,
};
use crate::ui_event::{UiControlEvent, UiDecryptionEvent, UiEvent};

verus! {

/// The attacks that decrypt a ciphertext, one for each block to decrypt.
pub struct Decryptor {
    forged_cypher_texts: Vec<ForgedCypherText>,
}

/// The views of a list of attacks.
pub open spec fn forged_views(forged: Seq<ForgedCypherText>) -> Seq<ForgedView> {
    Seq::new(forged.len(), |i: int| forged[i]@)
}

/// The views of a list of solutions.
pub open spec fn solved_views(solved: Seq<SolvedForgedCypherText>) -> Seq<SolvedView> {
    Seq::new(solved.len(), |i: int| solved[i]@)
}

/// The attacks on the blocks of `cypher_text` from index `blocks_to_skip` on:
/// each starts fresh on the ciphertext up to and including its block.
pub open spec fn attacks_on(cypher_text: CypherTextView, blocks_to_skip: int) -> Seq<ForgedView> {
    Seq::new(
        (cypher_text.blocks.len() - blocks_to_skip) as nat,
        |i: int|
            ForgedView::fresh(
                cypher_text.blocks.subrange(0, blocks_to_skip + i + 1),
                cypher_text.url_encoded,
                cypher_text.used_encoding,
            ),
    )
}

/// The plain texts of the solutions as text, one after the other.
pub open spec fn plain_text_of(solved: Seq<SolvedView>) -> Seq<char>
    decreases solved.len(),
{
    if solved.len() == 0 {
        Seq::empty()
    } else {
        plain_text_of(solved.drop_last()) + bytes_as_chars(solved.last().plain_text())
    }
}

impl View for Decryptor {
    type V = Seq<ForgedView>;

    closed spec fn view(&self) -> Seq<ForgedView> {
        forged_views(self.forged_cypher_texts@)
    }
}

impl Decryptor {
    #[verifier::type_invariant]
    spec fn inv(self) -> bool {
        1 <= self.forged_cypher_texts@.len() < MAX_BLOCKS
    }

    /// The attacks that decrypt every block but the initialisation vector.
    pub fn new_decryption_only(cypher_text: &CypherText) -> (decryptor: Decryptor)
        ensures
            decryptor@ == attacks_on(cypher_text@, 1),
    {
        let _ = cypher_text.amount_blocks();
        Decryptor::new(cypher_text, 1)
    }

    /// The attacks that prepare an encryption: every block but the
    /// initialisation vector is decrypted, so that the solution of the last
    /// block is at hand to start the encryption from.
    pub fn new_encryption(cypher_text: &CypherText) -> (decryptor: Decryptor)
        ensures
            decryptor@ == attacks_on(cypher_text@, 1),
    {
        let _ = cypher_text.amount_blocks();
        Decryptor::new(cypher_text, 1)
    }

    /// The attacks on the blocks from index `blocks_to_skip` on, which must
    /// leave out the initialisation vector and leave a block to attack.
    pub fn new(cypher_text: &CypherText, blocks_to_skip: usize) -> (decryptor: Decryptor)
        requires
            1 <= blocks_to_skip < cypher_text@.blocks.len(),
        ensures
            decryptor@ == attacks_on(cypher_text@, blocks_to_skip as int),
    {
        let amount_blocks = cypher_text.amount_blocks();
        let mut forged_cypher_texts: Vec<ForgedCypherText> = Vec::new();
        let mut block_to_decrypt_idx = blocks_to_skip;
        while block_to_decrypt_idx < amount_blocks
            invariant
                amount_blocks == cypher_text@.blocks.len(),
                1 <= blocks_to_skip <= block_to_decrypt_idx <= amount_blocks,
                forged_cypher_texts@.len() == block_to_decrypt_idx - blocks_to_skip,
                forall|i: int|
                    0 <= i < forged_cypher_texts@.len() ==> (#[trigger] forged_cypher_texts@[i])@
                        == attacks_on(cypher_text@, blocks_to_skip as int)[i],
            decreases amount_blocks - block_to_decrypt_idx,
        {
            forged_cypher_texts.push(
                ForgedCypherText::from_cypher_text(cypher_text, block_to_decrypt_idx),
            );
            block_to_decrypt_idx += 1;
        }
        assert(forged_views(forged_cypher_texts@) =~= attacks_on(
            cypher_text@,
            blocks_to_skip as int,
        ));
        Decryptor { forged_cypher_texts }
    }

    /// A calibrator that works on the first of the attacks.
    pub fn web_calibrator(&self) -> (calibrator: Calibrator)
        ensures
            calibrator@ == self@[0],
    {
        proof {
            use_type_invariant(self);
        }
        Calibrator::new(self.forged_cypher_texts[0].duplicate())
    }

    /// The attacks, in the order of their blocks.
    pub fn forged_cypher_texts(&self) -> (forged: &[ForgedCypherText])
        ensures
            forged_views(forged@) == self@,
            1 <= forged@.len() < MAX_BLOCKS,
    {
        proof {
            use_type_invariant(self);
        }
        self.forged_cypher_texts.as_slice()
    }
}

/// The event that shows a block as solved.
pub fn block_solved_event(block_solution: &SolvedForgedCypherText) -> (event: UiEvent)
    ensures
        event matches UiEvent::Decryption(UiDecryptionEvent::BlockSolved(block, idx)) && block@
            == block_solution@.solution && idx == block_solution@.original_blocks.len() - 1,
{
    let block_to_decrypt_idx = block_solution.amount_blocks() - 1;
    UiEvent::Decryption(
        UiDecryptionEvent::BlockSolved(
            *block_solution.forged_block_solution(),
            block_to_decrypt_idx,
        ),
    )
}

/// The event that opens a decryption on the blocks of `cypher_text`.
pub fn init_decryption_event(cypher_text: &CypherText) -> (event: UiEvent)
    ensures
        event matches UiEvent::Decryption(UiDecryptionEvent::InitDecryption(blocks))
            && block_views(blocks@) == cypher_text@.blocks,
{
    let blocks = cypher_text.blocks();
    let count = blocks.len();
    let mut copy: Vec<Block> = Vec::new();
    let mut i: usize = 0;
    while i < count
        invariant
            count == blocks@.len(),
            i <= count,
            copy@ == blocks@.subrange(0, i as int),
        decreases count - i,
    {
        copy.push(blocks[i]);
        i += 1;
        assert(copy@ =~= blocks@.subrange(0, i as int));
    }
    assert(copy@ =~= blocks@);
    UiEvent::Decryption(UiDecryptionEvent::InitDecryption(copy))
}

/// The number of bytes that a run has to solve: a block's worth for each
/// block that is decrypted and for each block of plain text that is
/// encrypted, or `usize::MAX` where that is more.
pub open spec fn work_of(decrypted_blocks: int, encrypted_blocks: int, block_len: int) -> int {
    let bytes = (decrypted_blocks + encrypted_blocks) * block_len;
    if bytes > usize::MAX {
        usize::MAX as int
    } else {
        bytes
    }
}

/// The event that announces how many bytes are to be solved.
pub fn indicate_work_event(decrypted_blocks: usize, encrypted_blocks: usize, block_len: u8) -> (event:
    UiEvent)
    ensures
        event matches UiEvent::Control(UiControlEvent::IndicateWork(bytes)) && bytes == work_of(
            decrypted_blocks as int,
            encrypted_blocks as int,
            block_len as int,
        ),
{
    let blocks: u128 = decrypted_blocks as u128 + encrypted_blocks as u128;
    assert(blocks * block_len <= 0x2_0000_0000_0000_0000 * 256) by (nonlinear_arith)
        requires
            blocks <= 0x2_0000_0000_0000_0000,
            block_len < 256,
    ;
    let bytes: u128 = blocks * (block_len as u128);
    let work = if bytes > usize::MAX as u128 {
        usize::MAX
    } else {
        bytes as usize
    };
    UiEvent::Control(UiControlEvent::IndicateWork(work))
}

/// The plain text of all solutions as text, in their order.
pub fn plain_text_solution(solutions: &[SolvedForgedCypherText]) -> (text: String)
    ensures
        text@ == plain_text_of(solved_views(solutions@)),
{
    let count = solutions.len();
    let ghost views = solved_views(solutions@);
    let mut text = String::new();
    let mut i: usize = 0;
    while i < count
        invariant
            count == solutions@.len(),
            views == solved_views(solutions@),
            i <= count,
            text@ == plain_text_of(views.subrange(0, i as int)),
        decreases count - i,
    {
        assert(views.subrange(0, i + 1).drop_last() =~= views.subrange(0, i as int));
        let part = solutions[i].plain_text_solution();
        text.append(part.as_str());
        i += 1;
    }
    assert(views.subrange(0, count as int) =~= views);
    text
}

/// The solution to start an encryption from: the one of the longest
/// ciphertext, which is that of its last block, and the last such among
/// equals. Nothing where there is no solution.
pub fn last_block(solutions: &[SolvedForgedCypherText]) -> (picked: Option<usize>)
    ensures
        picked is None <==> solutions@.len() == 0,
        picked is Some ==> {
            &&& picked->0 < solutions@.len()
            &&& forall|j: int|
                0 <= j < solutions@.len() ==> (#[trigger] solutions@[j])@.original_blocks.len()
                    <= solutions@[picked->0 as int]@.original_blocks.len()
            &&& forall|j: int|
                picked->0 < j < solutions@.len() ==> (#[trigger] solutions@[j])@.original_blocks.len()
                    < solutions@[picked->0 as int]@.original_blocks.len()
        },
{
    let count = solutions.len();
    if count == 0 {
        return None;
    }
    let mut best: usize = 0;
    let mut best_len = solutions[0].amount_blocks();
    let mut i: usize = 1;
    while i < count
        invariant
            count == solutions@.len(),
            1 <= i <= count,
            best < i,
            best_len == solutions@[best as int]@.original_blocks.len(),
            forall|j: int|
                0 <= j < i ==> (#[trigger] solutions@[j])@.original_blocks.len() <= best_len,
            forall|j: int|
                best < j < i ==> (#[trigger] solutions@[j])@.original_blocks.len() < best_len,
        decreases count - i,
    {
        let len = solutions[i].amount_blocks();
        if len >= best_len {
            best = i;
            best_len = len;
        }
        i += 1;
    }
    Some(best)
}

/// The plain text that a cipher in CBC mode reads out of `cipher`, given what
/// it makes of a single block: each block but the first, deciphered and
/// xor-ed with the block in front of it.
pub open spec fn cbc_plain(
    decipher: spec_fn(Seq<u8>) -> Seq<u8>,
    cipher: Seq<Seq<u8>>,
) -> Seq<Seq<u8>> {
    Seq::new(
        (cipher.len() - 1) as nat,
        |i: int| xor_bytes(decipher(cipher[i + 1]), cipher[i]),
    )
}

/// The blocks of plain text that the solutions yield, in their order.
pub open spec fn plain_blocks_of(solved: Seq<SolvedView>) -> Seq<Seq<u8>> {
    Seq::new(solved.len(), |i: int| solved[i].plain_text())
}

/// Whether `solved` holds, for each block of `blocks` but the first and in
/// their order, a solution that stands for what the cipher makes of that
/// block.
pub open spec fn solves(
    decipher: spec_fn(Seq<u8>) -> Seq<u8>,
    blocks: Seq<Seq<u8>>,
    solved: Seq<SolvedView>,
) -> bool {
    &&& solved.len() == blocks.len() - 1
    &&& forall|i: int|
        0 <= i < solved.len() ==> {
            &&& (#[trigger] solved[i]).original_blocks == blocks.subrange(0, i + 2)
            &&& intermediate_of(solved[i].solution) == decipher(blocks[i + 1])
        }
}

/// A decryption with solutions that are faithful to the cipher yields the
/// plain text that the cipher reads out of the ciphertext in CBC mode.
pub proof fn lemma_decryption_is_cbc(
    decipher: spec_fn(Seq<u8>) -> Seq<u8>,
    blocks: Seq<Seq<u8>>,
    solved: Seq<SolvedView>,
)
    requires
        blocks.len() >= 1,
        solves(decipher, blocks, solved),
    ensures
        plain_blocks_of(solved) == cbc_plain(decipher, blocks),
{
    assert forall|i: int| 0 <= i < solved.len() implies plain_blocks_of(solved)[i] == cbc_plain(
        decipher,
        blocks,
    )[i] by {
        let prefix = solved[i].original_blocks;
        assert(prefix[i] == blocks[i]);
        assert(prefix[i + 1] == blocks[i + 1]);
    }
    assert(plain_blocks_of(solved) =~= cbc_plain(decipher, blocks));
}

} // verus!
