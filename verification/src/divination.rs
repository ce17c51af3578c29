//! The attack on one block, step by step: what to ask next, and what to make
//! of the answer.

use vstd::prelude::*;

use crate::cache::Cache;
use crate::forged_cypher_text::{
    ByteLockResult, ForgedCypherText, ForgedView, SolvedForgedCypherText, SolvedView,
};
use crate::retry::RETRY_MAX_ATTEMPTS;
use crate::ui_event::{UiControlEvent, UiDecryptionEvent, UiEvent};

verus! {

/// No value of a byte gave valid padding, however often it was searched.
#[derive(Clone, Copy, Debug, PartialEq, Eq, Structural)]
pub struct ByteUndecided {
    /// The number of the block, counted from one.
    pub block: usize,
    /// The number of the byte in its block, counted from one.
    pub byte: u8,
}

/// The search for the bytes of one block.
pub struct BlockSolver {
    forged: ForgedCypherText,
    attempts_to_solve_byte: u64,
}

/// The search for the bytes of one block as a value.
pub struct SolverView {
    pub forged: ForgedView,
    /// The number of the search for the byte under attack, counted from one.
    pub attempts: int,
}

impl View for BlockSolver {
    type V = SolverView;

    closed spec fn view(&self) -> SolverView {
        SolverView { forged: self.forged@, attempts: self.attempts_to_solve_byte as int }
    }
}

/// What the attack on a block does next.
pub enum SolveStep {
    /// Search the byte under attack: ask the oracle about each of the 256
    /// candidates of `solver`, and report `progress` bytes as solved.
    Search { solver: BlockSolver, progress: usize },
    /// The block is solved. `progress` bytes are to be reported as solved;
    /// `fresh` tells a solution that was searched from one that was
    /// remembered.
    Solved { solution: SolvedForgedCypherText, progress: usize, fresh: bool },
    /// The attack on the block has failed.
    Failed(ByteUndecided),
}

/// The solution that is remembered for the block under attack, where it fits
/// the block.
pub open spec fn cache_hit(stored: Option<Seq<u8>>, forged: ForgedView) -> Option<SolvedView> {
    match stored {
        Some(solution) => if solution.len() == forged.size() {
            Some(
                SolvedView {
                    original_blocks: forged.original_blocks,
                    url_encoded: forged.url_encoded,
                    used_encoding: forged.used_encoding,
                    solution,
                },
            )
        } else {
            None
        },
        None => None,
    }
}

/// The error for a byte that stays undecided in `forged`.
pub open spec fn undecided(forged: ForgedView) -> ByteUndecided {
    ByteUndecided {
        block: forged.original_blocks.len() as usize,
        byte: (forged.size() - forged.bytes_answered()) as u8,
    }
}

/// Starts the attack on the block of `cypher_text_for_block`. Where the
/// cache holds a solution for the block behind the block in front of it, the
/// block is solved at once, without any request, and counts as a whole block
/// of progress; else the search starts at its last byte.
pub fn solve_block(cache: Option<&Cache>, cypher_text_for_block: &ForgedCypherText) -> (step:
    SolveStep)
    ensures
        match (match cache {
            Some(cache) => cache_hit(
                cache.stored(
                    cypher_text_for_block@.previous_block(),
                    cypher_text_for_block@.target_block(),
                ),
                cypher_text_for_block@,
            ),
            None => None,
        }) {
            Some(hit) => step matches SolveStep::Solved { solution, progress, fresh } && solution@
                == hit && solution@.wf() && progress == cypher_text_for_block@.size() && !fresh,
            None => step matches SolveStep::Search { solver, progress } && solver@ == (SolverView {
                forged: cypher_text_for_block@,
                attempts: 1,
            }) && progress == 0,
        },
{
    let key = cypher_text_for_block.as_cache_key();
    let size = cypher_text_for_block.block_size();
    if let Some(cache) = cache {
        if let Some(cached_block) = cache.get(&key) {
            if cached_block.len() == size.as_usize() {
                let solution = SolvedForgedCypherText::from_cached(
                    cypher_text_for_block.duplicate(),
                    *cached_block,
                );
                return SolveStep::Solved { solution, progress: size.as_usize(), fresh: false };
            }
        }
    }
    SolveStep::Search {
        solver: BlockSolver { forged: cypher_text_for_block.duplicate(), attempts_to_solve_byte: 1 },
        progress: 0,
    }
}

impl BlockSolver {
    #[verifier::type_invariant]
    spec fn inv(self) -> bool {
        1 <= self.attempts_to_solve_byte <= RETRY_MAX_ATTEMPTS + 1
    }

    /// The state of the attack; trying a value at its byte under attack
    /// gives what to ask the oracle about that value.
    pub fn forged(&self) -> (forged: &ForgedCypherText)
        ensures
            forged@ == self@.forged,
            1 <= self@.attempts <= RETRY_MAX_ATTEMPTS + 1,
    {
        proof {
            use_type_invariant(self);
        }
        &self.forged
    }

    /// The state with `byte_value` tried at the byte under attack: its text
    /// is what to send to the oracle for that value.
    pub fn candidate(&self, byte_value: u8) -> (tried: ForgedCypherText)
        ensures
            tried@ == self@.forged.set_current_byte(byte_value),
            tried@.wf(),
    {
        self.forged.with_current_byte(byte_value)
    }

    /// Takes the result of searching the byte under attack: a value that the
    /// oracle found valid, or none. A value is settled, which solves the
    /// block or moves on to the byte on the left, and counts as one byte of
    /// progress. Without a value the byte is searched again, up to
    /// `RETRY_MAX_ATTEMPTS` times after the first; then the attack fails.
    pub fn byte_searched(self, found: Option<u8>) -> (step: SolveStep)
        ensures
            match found {
                Some(value) => if self@.forged.current_byte_idx == 0 {
                    step matches SolveStep::Solved { solution, progress, fresh } && solution@
                        == self@.forged.set_current_byte(value).lock_byte().solved()
                        && solution@.wf() && progress == 1 && fresh
                } else {
                    step matches SolveStep::Search { solver, progress } && solver@ == (SolverView {
                        forged: self@.forged.set_current_byte(value).lock_byte(),
                        attempts: 1,
                    }) && progress == 1
                },
                None => if self@.attempts > RETRY_MAX_ATTEMPTS {
                    step == SolveStep::Failed(undecided(self@.forged))
                } else {
                    step matches SolveStep::Search { solver, progress } && solver@ == (SolverView {
                        forged: self@.forged,
                        attempts: self@.attempts + 1,
                    }) && progress == 0
                },
            },
    {
        proof {
            use_type_invariant(&self);
        }
        match found {
            Some(value) => {
                let tried = self.forged.with_current_byte(value);
                match tried.lock_byte() {
                    ByteLockResult::BytesLeft(forged) => SolveStep::Search {
                        solver: BlockSolver { forged, attempts_to_solve_byte: 1 },
                        progress: 1,
                    },
                    ByteLockResult::Solved(solution) => SolveStep::Solved {
                        solution,
                        progress: 1,
                        fresh: true,
                    },
                }
            },
            None => {
                if self.attempts_to_solve_byte > RETRY_MAX_ATTEMPTS {
                    let block = self.forged.amount_blocks();
                    let byte = self.forged.block_size().len() - self.forged.bytes_answered();
                    SolveStep::Failed(ByteUndecided { block, byte })
                } else {
                    SolveStep::Search {
                        solver: BlockSolver {
                            forged: self.forged,
                            attempts_to_solve_byte: self.attempts_to_solve_byte + 1,
                        },
                        progress: 0,
                    }
                }
            },
        }
    }
}

/// Remembers a solution under the block that was attacked and the block in
/// front of it.
pub fn cache_solution(cache: &mut Cache, solution: &SolvedForgedCypherText)
    ensures
        final(cache).spec_config() == old(cache).spec_config(),
        final(cache).spec_others() == old(cache).spec_others(),
        final(cache).stored(solution@.previous_block(), solution@.target_block()) == Some(
            solution@.solution,
        ),
        forall|previous: Seq<u8>, target: Seq<u8>|
            !(previous == solution@.previous_block() && target == solution@.target_block())
                ==> #[trigger] final(cache).stored(previous, target) == old(cache).stored(
                previous,
                target,
            ),
{
    let key = (*solution.original_forged_block(), *solution.block_to_decrypt());
    cache.insert(key, *solution.forged_block_solution());
}

/// The event that shows a forged block under trial for the block with the
/// given index.
pub fn wip_event(forged_cypher_text: &ForgedCypherText, block_to_decrypt_idx: usize) -> (event:
    UiEvent)
    ensures
        event matches UiEvent::Decryption(UiDecryptionEvent::BlockWip(block, idx)) && block@
            == forged_cypher_text@.wip && idx == block_to_decrypt_idx,
{
    UiEvent::Decryption(
        UiDecryptionEvent::BlockWip(*forged_cypher_text.forged_block_wip(), block_to_decrypt_idx),
    )
}

/// The event that reports so many more bytes as solved.
pub fn progress_event(newly_solved_bytes: usize) -> (event: UiEvent)
    ensures
        event matches UiEvent::Control(UiControlEvent::ProgressUpdate(bytes)) && bytes
            == newly_solved_bytes,
{
    UiEvent::Control(UiControlEvent::ProgressUpdate(newly_solved_bytes))
}

/// A block that was solved and remembered is solved from memory the next
/// time, with the same solution and so the same plain text: the attack on it
/// starts solved, which leaves no request to make.
pub proof fn lemma_remembered_block_is_hit(stored: Option<Seq<u8>>, solved: SolvedView, again: ForgedView)
    requires
        solved.wf(),
        again.wf(),
        again.original_blocks == solved.original_blocks,
        again.url_encoded == solved.url_encoded,
        again.used_encoding == solved.used_encoding,
        stored == Some(solved.solution),
    ensures
        cache_hit(stored, again) == Some(solved),
        cache_hit(stored, again)->0.plain_text() == solved.plain_text(),
{
}

} // verus!
