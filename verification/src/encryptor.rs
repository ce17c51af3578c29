//! Forging a ciphertext for a plain text of one's choosing, block by block
//! from the end.

use vstd::prelude::*;

use crate::block::{intermediate_of, xor_bytes, zero_bytes, Block};
use crate::block_size::BlockSize;
use crate::cache::CacheEntry;
use crate::codec::{all_of_size, block_views};
use crate::cypher_text::{CypherText, CypherTextView, MAX_BLOCKS};
use crate::decryptor::{cbc_plain, lemma_decryption_is_cbc, plain_blocks_of, solves};
use crate::encoding::Encoding;
use crate::forged_cypher_text::{
    ForgedCypherText, ForgedView, SolvedForgedCypherText, SolvedView,
};
use crate::plain_text::PlainText;
use crate::ui_event::{UiEncryptionEvent, UiEvent};

verus! {

/// Forges ciphertexts that end in the block whose solution it holds.
pub struct Encryptor {
    initial_block_solution: SolvedForgedCypherText,
}

impl View for Encryptor {
    type V = SolvedView;

    closed spec fn view(&self) -> SolvedView {
        self.initial_block_solution@
    }
}

/// An encryption under way as a value.
pub struct EncryptionView {
    /// The blocks of plain text, first to last.
    pub plain: Seq<Seq<u8>>,
    /// The blocks of ciphertext made so far, last to first.
    pub backwards: Seq<Seq<u8>>,
    pub url_encoded: bool,
    pub used_encoding: Encoding,
}

impl EncryptionView {
    /// Number of bytes in a block.
    pub open spec fn size(self) -> nat {
        self.backwards[0].len()
    }

    /// Blocks of one size, with at least one block of ciphertext and at most
    /// one more of them than of plain text.
    pub open spec fn wf(self) -> bool {
        &&& BlockSize::is_block_len(self.size() as int)
        &&& 1 <= self.backwards.len() <= self.plain.len() + 1
        &&& self.plain.len() < MAX_BLOCKS
        &&& forall|i: int| 0 <= i < self.plain.len() ==> (#[trigger] self.plain[i]).len() == self.size()
        &&& forall|i: int|
            0 <= i < self.backwards.len() ==> (#[trigger] self.backwards[i]).len() == self.size()
    }

    /// Whether every block of plain text has its block of ciphertext.
    pub open spec fn is_done(self) -> bool {
        self.backwards.len() == self.plain.len() + 1
    }

    /// The block of plain text that is encrypted next: the last that has no
    /// block of ciphertext yet.
    pub open spec fn next_plain(self) -> Seq<u8> {
        self.plain[self.plain.len() - self.backwards.len()]
    }

    /// The block of ciphertext that goes in front, given the forged block
    /// that solves the front block so far: what that block stands for,
    /// xor-ed with the plain text to encrypt.
    pub open spec fn prepended(self, solution: Seq<u8>) -> Seq<u8> {
        xor_bytes(intermediate_of(solution), self.next_plain())
    }

    /// The encryption with one more block of ciphertext in front.
    pub open spec fn absorbed(self, solution: Seq<u8>) -> Self {
        EncryptionView { backwards: self.backwards.push(self.prepended(solution)), ..self }
    }

    /// The forged ciphertext: the blocks made, first to last.
    pub open spec fn cypher_text(self) -> CypherTextView {
        CypherTextView {
            blocks: self.backwards.reverse(),
            url_encoded: self.url_encoded,
            used_encoding: self.used_encoding,
        }
    }

    /// The attack that finds what the front block stands for: a fresh one on
    /// that block behind a block of zeros.
    pub open spec fn next_attack(self) -> ForgedView {
        ForgedView::fresh(
            seq![zero_bytes(self.size()), self.backwards.last()],
            self.url_encoded,
            self.used_encoding,
        )
    }
}

/// An encryption under way.
pub struct Encryption {
    plain_blocks: Vec<Block>,
    encrypted_blocks_backwards: Vec<Block>,
    url_encoded: bool,
    used_encoding: Encoding,
}

impl View for Encryption {
    type V = EncryptionView;

    closed spec fn view(&self) -> EncryptionView {
        EncryptionView {
            plain: block_views(self.plain_blocks@),
            backwards: block_views(self.encrypted_blocks_backwards@),
            url_encoded: self.url_encoded,
            used_encoding: self.used_encoding,
        }
    }
}

/// What one block of the encryption gave.
pub struct EncryptedBlock {
    /// The forged block that solved the block of ciphertext behind the new
    /// one.
    pub forged_block: Block,
    /// The index of that block of ciphertext in the forged ciphertext.
    pub block_idx: usize,
    /// What to remember, so that decrypting the forged ciphertext finds the
    /// block solved: the solution under the new block and the one behind it.
    pub store: CacheEntry,
    /// The bytes to report as solved beyond those that the attack reported.
    pub progress: usize,
}

/// What the encryption does next.
pub enum EncryptStep {
    /// Solve the block that `forged` attacks, and hand the solution to
    /// `state`.
    Solve { state: Encryption, forged: ForgedCypherText, encrypted: EncryptedBlock },
    /// The ciphertext is forged.
    Done { cypher_text: CypherText, encrypted: EncryptedBlock },
}

/// What the step after absorbing a solution holds.
pub open spec fn step_matches(
    step: EncryptStep,
    before: EncryptionView,
    solution: Seq<u8>,
    progress: int,
) -> bool {
    let after = before.absorbed(solution);
    let encrypted = match step {
        EncryptStep::Solve { encrypted, .. } => encrypted,
        EncryptStep::Done { encrypted, .. } => encrypted,
    };
    &&& encrypted.forged_block@ == solution
    &&& encrypted.block_idx == before.plain.len() - (before.backwards.len() - 1)
    &&& encrypted.store.previous@ == before.prepended(solution)
    &&& encrypted.store.target@ == before.backwards.last()
    &&& encrypted.store.solution@ == solution
    &&& encrypted.progress == progress
    &&& match step {
        EncryptStep::Solve { state, forged, .. } => {
            &&& !after.is_done()
            &&& state@ == after
            &&& state@.wf()
            &&& forged@ == after.next_attack()
            &&& forged@.wf()
        },
        EncryptStep::Done { cypher_text, .. } => {
            &&& after.is_done()
            &&& cypher_text@ == after.cypher_text()
            &&& cypher_text@.wf()
        },
    }
}

impl Encryptor {
    /// An encryptor that starts from the solved last block of a ciphertext.
    pub fn new(initial_block_solution: SolvedForgedCypherText) -> (encryptor: Encryptor)
        ensures
            encryptor@ == initial_block_solution@,
    {
        Encryptor { initial_block_solution }
    }

    /// The solved block that the encryption starts from.
    pub fn initial_block_solution(&self) -> (solution: &SolvedForgedCypherText)
        ensures
            solution@ == self@,
            self@.wf(),
    {
        let _ = self.initial_block_solution.forged_block_solution();
        &self.initial_block_solution
    }

    /// The state before the first block: the plain text to encrypt and the
    /// solved block as the only block of ciphertext.
    pub open spec fn start(self, plain: Seq<Seq<u8>>) -> EncryptionView {
        EncryptionView {
            plain,
            backwards: seq![self@.target_block()],
            url_encoded: self@.url_encoded,
            used_encoding: self@.used_encoding,
        }
    }

    /// Starts to forge a ciphertext for `plain_text`, which must have blocks
    /// of the size of the solved block and fewer than `MAX_BLOCKS` of them.
    /// The last block of plain text is encrypted at once, from the solution
    /// at hand, and counts as a block of progress.
    pub fn encrypt_plain_text(&self, plain_text: &PlainText) -> (step: EncryptStep)
        requires
            plain_text@.len() < MAX_BLOCKS,
            plain_text.spec_block_size().spec_len() == self@.solution.len(),
        ensures
            step_matches(step, self.start(plain_text@), self@.solution, self@.solution.len() as int),
    {
        let plain = plain_text.blocks();
        let seed = *self.initial_block_solution.block_to_decrypt();
        let solution = *self.initial_block_solution.forged_block_solution();
        proof {
            seed.lemma_len();
            solution.lemma_len();
            assert forall|i: int| 0 <= i < plain@.len() implies (#[trigger] block_views(
                plain@,
            )[i]).len() == seed@.len() by {
                plain@[i].lemma_len();
            }
        }
        let mut plain_blocks: Vec<Block> = Vec::new();
        plain_blocks.extend_from_slice(plain);
        assert(plain_blocks@ =~= plain@);
        let mut encrypted_blocks_backwards: Vec<Block> = Vec::new();
        encrypted_blocks_backwards.push(seed);
        let state = Encryption {
            plain_blocks,
            encrypted_blocks_backwards,
            url_encoded: self.initial_block_solution.url_encoded(),
            used_encoding: self.initial_block_solution.used_encoding(),
        };
        assert(state@.backwards =~= seq![self@.target_block()]);
        assert(state@ == self.start(plain_text@));
        state.absorb(solution, solution.len())
    }
}

impl Encryption {
    #[verifier::type_invariant]
    spec fn inv(self) -> bool {
        &&& 1 <= self.encrypted_blocks_backwards@.len() <= self.plain_blocks@.len()
        &&& self.plain_blocks@.len() < MAX_BLOCKS
        &&& all_of_size(self.plain_blocks@, self.encrypted_blocks_backwards@[0].spec_block_size())
        &&& all_of_size(
            self.encrypted_blocks_backwards@,
            self.encrypted_blocks_backwards@[0].spec_block_size(),
        )
    }

    proof fn lemma_inv_gives_wf(self)
        requires
            self.inv(),
        ensures
            self@.wf(),
            !self@.is_done(),
            self@.size() == self.encrypted_blocks_backwards@[0].spec_block_size().spec_len(),
    {
        self.encrypted_blocks_backwards@[0].lemma_len();
        assert forall|i: int| 0 <= i < self@.plain.len() implies (#[trigger] self@.plain[i]).len()
            == self@.size() by {
            self.plain_blocks@[i].lemma_len();
        }
        assert forall|i: int| 0 <= i < self@.backwards.len() implies (
        #[trigger] self@.backwards[i]).len() == self@.size() by {
            self.encrypted_blocks_backwards@[i].lemma_len();
        }
    }

    /// The size of the blocks.
    pub fn block_size(&self) -> (size: BlockSize)
        ensures
            size.spec_len() == self@.size(),
            self@.wf(),
    {
        proof {
            use_type_invariant(self);
            self.lemma_inv_gives_wf();
        }
        self.encrypted_blocks_backwards[0].block_size()
    }

    /// Takes the solution of the block that was to be solved, which must be
    /// of the size of the blocks, and puts the next block of ciphertext in
    /// front.
    pub fn block_solved(self, block_solution: &SolvedForgedCypherText) -> (step: EncryptStep)
        requires
            block_solution@.solution.len() == self@.size(),
        ensures
            step_matches(step, self@, block_solution@.solution, 0),
    {
        self.absorb(*block_solution.forged_block_solution(), 0)
    }

    fn absorb(self, solution: Block, progress: usize) -> (step: EncryptStep)
        requires
            solution@.len() == self@.size(),
        ensures
            step_matches(step, self@, solution@, progress as int),
    {
        proof {
            use_type_invariant(&self);
            self.lemma_inv_gives_wf();
            solution.lemma_len();
        }
        let ghost before = self@;
        let plain_count = self.plain_blocks.len();
        let made = self.encrypted_blocks_backwards.len();
        let size = self.encrypted_blocks_backwards[0].block_size();
        let plain_block = self.plain_blocks[plain_count - made];
        let cypher_text_block = self.encrypted_blocks_backwards[made - 1];
        proof {
            plain_block.lemma_len();
            cypher_text_block.lemma_len();
        }
        let prepend_cypher_text_block = solution.to_intermediate().xor(&plain_block);
        let encrypted = EncryptedBlock {
            forged_block: solution,
            block_idx: plain_count - (made - 1),
            store: CacheEntry {
                previous: prepend_cypher_text_block,
                target: cypher_text_block,
                solution,
            },
            progress,
        };
        let mut backwards = self.encrypted_blocks_backwards;
        backwards.push(prepend_cypher_text_block);
        assert(block_views(backwards@) =~= before.absorbed(solution@).backwards);
        if made == plain_count {
            let mut blocks: Vec<Block> = Vec::new();
            let count = backwards.len();
            let mut i: usize = 0;
            while i < count
                invariant
                    count == backwards@.len(),
                    i <= count,
                    blocks@.len() == i,
                    forall|j: int| 0 <= j < i ==> blocks@[j] == backwards@[count - 1 - j],
                decreases count - i,
            {
                blocks.push(backwards[count - 1 - i]);
                i += 1;
            }
            assert(block_views(blocks@) =~= block_views(backwards@).reverse());
            proof {
                assert forall|j: int| 0 <= j < blocks@.len() implies (#[trigger] block_views(
                    blocks@,
                )[j]).len() == block_views(blocks@)[0].len() by {
                    blocks@[j].lemma_len();
                    blocks@[0].lemma_len();
                }
                blocks@[0].lemma_len();
            }
            match CypherText::from_iter(blocks.as_slice(), self.url_encoded, self.used_encoding) {
                Some(cypher_text) => EncryptStep::Done { cypher_text, encrypted },
                None => vstd::pervasive::unreached(),
            }
        } else {
            let mut blocks_to_solve: Vec<Block> = Vec::new();
            blocks_to_solve.push(Block::new(&size));
            blocks_to_solve.push(prepend_cypher_text_block);
            let forged = ForgedCypherText::from_slice(
                blocks_to_solve.as_slice(),
                size,
                self.url_encoded,
                self.used_encoding,
            );
            assert(block_views(blocks_to_solve@) =~= seq![
                zero_bytes(size.spec_len()),
                prepend_cypher_text_block@,
            ]);
            let state = Encryption {
                plain_blocks: self.plain_blocks,
                encrypted_blocks_backwards: backwards,
                url_encoded: self.url_encoded,
                used_encoding: self.used_encoding,
            };
            proof {
                state.lemma_inv_gives_wf();
            }
            EncryptStep::Solve { state, forged, encrypted }
        }
    }
}

/// The event that shows a block of the forged ciphertext as solved.
pub fn block_encrypted_event(encrypted: &EncryptedBlock) -> (event: UiEvent)
    ensures
        event matches UiEvent::Encryption(UiEncryptionEvent::BlockSolved(block, idx)) && block
            == encrypted.forged_block && idx == encrypted.block_idx,
{
    UiEvent::Encryption(UiEncryptionEvent::BlockSolved(encrypted.forged_block, encrypted.block_idx))
}

/// The event that shows a forged block under trial for the block of the
/// forged ciphertext with the given index.
pub fn encryption_wip_event(forged_cypher_text: &ForgedCypherText, block_idx: usize) -> (event:
    UiEvent)
    ensures
        event matches UiEvent::Encryption(UiEncryptionEvent::BlockWip(block, idx)) && block@
            == forged_cypher_text@.wip && idx == block_idx,
{
    UiEvent::Encryption(
        UiEncryptionEvent::BlockWip(*forged_cypher_text.forged_block_wip(), block_idx),
    )
}

/// Whether `solution` stands for what the cipher makes of the front block of
/// the encryption.
pub open spec fn is_faithful(
    decipher: spec_fn(Seq<u8>) -> Seq<u8>,
    state: EncryptionView,
    solution: Seq<u8>,
) -> bool {
    &&& solution.len() == state.size()
    &&& intermediate_of(solution) == decipher(state.backwards.last())
}

/// The encryption after each of `solutions` in turn was absorbed.
pub open spec fn absorbed_in_turn(state: EncryptionView, solutions: Seq<Seq<u8>>) -> EncryptionView
    decreases solutions.len(),
{
    if solutions.len() == 0 {
        state
    } else {
        absorbed_in_turn(state.absorbed(solutions[0]), solutions.drop_first())
    }
}

/// Whether each of `solutions`, absorbed in turn, is faithful.
pub open spec fn all_faithful(
    decipher: spec_fn(Seq<u8>) -> Seq<u8>,
    state: EncryptionView,
    solutions: Seq<Seq<u8>>,
) -> bool
    decreases solutions.len(),
{
    solutions.len() == 0 || {
        &&& is_faithful(decipher, state, solutions[0])
        &&& all_faithful(decipher, state.absorbed(solutions[0]), solutions.drop_first())
    }
}

/// Whether the blocks of ciphertext made so far decipher to the blocks of
/// plain text they were made for.
pub open spec fn deciphers_so_far(decipher: spec_fn(Seq<u8>) -> Seq<u8>, state: EncryptionView) -> bool {
    forall|k: int|
        1 <= k < state.backwards.len() ==> #[trigger] xor_bytes(
            decipher(state.backwards[k - 1]),
            state.backwards[k],
        ) == state.plain[state.plain.len() - k]
}

/// A faithful solution puts a block in front that makes the front block so
/// far decipher to its plain text.
pub proof fn lemma_faithful_step(
    decipher: spec_fn(Seq<u8>) -> Seq<u8>,
    state: EncryptionView,
    solution: Seq<u8>,
)
    requires
        state.wf(),
        !state.is_done(),
        is_faithful(decipher, state, solution),
        deciphers_so_far(decipher, state),
    ensures
        state.absorbed(solution).wf(),
        deciphers_so_far(decipher, state.absorbed(solution)),
{
    let after = state.absorbed(solution);
    let made = state.backwards.len() as int;
    let intermediate = intermediate_of(solution);
    let plain = state.next_plain();
    assert(after.backwards[0] == state.backwards[0]);
    assert forall|i: int| 0 <= i < after.backwards.len() implies (#[trigger] after.backwards[i]).len()
        == after.size() by {
        if i < made {
            assert(after.backwards[i] == state.backwards[i]);
        }
    }
    assert forall|k: int| 1 <= k < after.backwards.len() implies #[trigger] xor_bytes(
        decipher(after.backwards[k - 1]),
        after.backwards[k],
    ) == after.plain[after.plain.len() - k] by {
        if k < made {
            assert(after.backwards[k] == state.backwards[k]);
            assert(after.backwards[k - 1] == state.backwards[k - 1]);
            assert(xor_bytes(decipher(state.backwards[k - 1]), state.backwards[k])
                == state.plain[state.plain.len() - k]);
        } else {
            assert(after.backwards[k - 1] == state.backwards.last());
            assert(after.backwards[k] == xor_bytes(intermediate, plain));
            lemma_xor_twice(intermediate, plain);
        }
    }
}

/// Xor-ing a block with the xor of itself and another gives the other.
proof fn lemma_xor_twice(a: Seq<u8>, b: Seq<u8>)
    requires
        a.len() == b.len(),
    ensures
        xor_bytes(a, xor_bytes(a, b)) == b,
{
    assert forall|i: int| 0 <= i < a.len() implies a[i] ^ (a[i] ^ b[i]) == b[i] by {
        let x = a[i];
        let y = b[i];
        assert(x ^ (x ^ y) == y) by (bit_vector);
    }
    assert(xor_bytes(a, xor_bytes(a, b)) =~= b);
}

/// Deciphering undoes forging: where every solution that the encryption
/// absorbs is faithful to the cipher, the forged ciphertext deciphers, block
/// by block in CBC mode, to the plain text that was to be encrypted.
pub proof fn lemma_decipher_inverts_forging(
    decipher: spec_fn(Seq<u8>) -> Seq<u8>,
    start: EncryptionView,
    solutions: Seq<Seq<u8>>,
)
    requires
        start.wf(),
        deciphers_so_far(decipher, start),
        solutions.len() == start.plain.len() + 1 - start.backwards.len(),
        all_faithful(decipher, start, solutions),
    ensures
        absorbed_in_turn(start, solutions).is_done(),
        absorbed_in_turn(start, solutions).plain == start.plain,
        cbc_plain(decipher, absorbed_in_turn(start, solutions).cypher_text().blocks) == start.plain,
    decreases solutions.len(),
{
    if solutions.len() == 0 {
        let cipher = start.cypher_text().blocks;
        let n = start.plain.len() as int;
        assert forall|i: int| 0 <= i < n implies cbc_plain(decipher, cipher)[i]
            == start.plain[i] by {
            let k = n - i;
            assert(cipher[i] == start.backwards[k]);
            assert(cipher[i + 1] == start.backwards[k - 1]);
            assert(xor_bytes(decipher(start.backwards[k - 1]), start.backwards[k])
                == start.plain[n - k]);
        }
        assert(cbc_plain(decipher, cipher) =~= start.plain);
    } else {
        lemma_faithful_step(decipher, start, solutions[0]);
        lemma_decipher_inverts_forging(
            decipher,
            start.absorbed(solutions[0]),
            solutions.drop_first(),
        );
    }
}

/// Decrypting undoes encrypting: where every solution is faithful to the
/// cipher, those that the encryption absorbs and those that solve the blocks
/// of the forged ciphertext, the plain text that is decrypted is the plain
/// text that was encrypted.
pub proof fn lemma_decrypt_inverts_encrypt(
    decipher: spec_fn(Seq<u8>) -> Seq<u8>,
    start: EncryptionView,
    solutions: Seq<Seq<u8>>,
    solved: Seq<SolvedView>,
)
    requires
        start.wf(),
        deciphers_so_far(decipher, start),
        solutions.len() == start.plain.len() + 1 - start.backwards.len(),
        all_faithful(decipher, start, solutions),
        solves(decipher, absorbed_in_turn(start, solutions).cypher_text().blocks, solved),
    ensures
        plain_blocks_of(solved) == start.plain,
{
    lemma_decipher_inverts_forging(decipher, start, solutions);
    lemma_decryption_is_cbc(
        decipher,
        absorbed_in_turn(start, solutions).cypher_text().blocks,
        solved,
    );
}

} // verus!
