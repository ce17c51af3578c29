//! When to ask an oracle again, and when to give up.

use vstd::prelude::*;

use crate::forged_cypher_text::ForgedCypherText;

verus! {

/// The delay before the first retry, in milliseconds; later delays grow as
/// the Fibonacci numbers do.
pub const RETRY_DELAY_MS: u64 = 100;

/// How often one question is asked, and how often one byte is searched
/// again, before giving up.
pub const RETRY_MAX_ATTEMPTS: u64 = 3;

/// What is being asked of the oracle.
#[derive(Clone, Copy, Debug, PartialEq, Eq, Structural)]
pub enum Probe {
    /// Whether `value` at byte number `byte` of block number `block` gives
    /// valid padding; both numbers count from one.
    Validation { block: usize, byte: u8, value: u8 },
    /// How the oracle responds to `value` in the calibration block.
    Calibration { value: u8 },
}

/// Whether to ask.
#[derive(Clone, Copy, Debug, PartialEq, Eq, Structural)]
pub enum RetryStep {
    /// Ask the oracle.
    Ask,
    /// Too many attempts failed: the question stays unanswered.
    GiveUp(Probe),
}

/// An attempt failed and another follows.
#[derive(Clone, Copy, Debug, PartialEq, Eq, Structural)]
pub struct RetryNotice {
    pub probe: Probe,
    pub attempt: u64,
    pub max_attempts: u64,
}

/// The question that `value` at the byte under attack stands for.
pub open spec fn validation_probe(forged: crate::forged_cypher_text::ForgedView, value: u8) -> Probe {
    Probe::Validation {
        block: forged.original_blocks.len() as usize,
        byte: (forged.size() - forged.bytes_answered()) as u8,
        value,
    }
}

/// Whether attempt number `attempt`, counted from one, is still made.
pub open spec fn attempt_is_made(attempt: u64) -> bool {
    attempt <= RETRY_MAX_ATTEMPTS
}

/// The question that `byte_value` at the byte under attack stands for.
pub fn probe_of(byte_value: u8, forged_cypher_text: &ForgedCypherText) -> (probe: Probe)
    ensures
        probe == validation_probe(forged_cypher_text@, byte_value),
{
    let block_size = forged_cypher_text.block_size().len();
    let bytes_answered = forged_cypher_text.bytes_answered();
    Probe::Validation {
        block: forged_cypher_text.amount_blocks(),
        byte: block_size - bytes_answered,
        value: byte_value,
    }
}

/// Decides before attempt number `attempt` of asking whether `byte_value`
/// gives valid padding: the first `RETRY_MAX_ATTEMPTS` attempts are made,
/// after them the question is given up.
pub fn validate_while_handling_retries(
    attempt: u64,
    byte_value: u8,
    forged_cypher_text: &ForgedCypherText,
) -> (step: RetryStep)
    ensures
        attempt_is_made(attempt) ==> step == RetryStep::Ask,
        !attempt_is_made(attempt) ==> step == RetryStep::GiveUp(
            validation_probe(forged_cypher_text@, byte_value),
        ),
{
    if attempt > RETRY_MAX_ATTEMPTS {
        RetryStep::GiveUp(probe_of(byte_value, forged_cypher_text))
    } else {
        RetryStep::Ask
    }
}

/// Decides before attempt number `attempt` of a calibration request for
/// `byte_value`: the first `RETRY_MAX_ATTEMPTS` attempts are made, after them
/// the request is given up.
pub fn calibrate_while_handling_retries(attempt: u64, byte_value: u8) -> (step: RetryStep)
    ensures
        attempt_is_made(attempt) ==> step == RetryStep::Ask,
        !attempt_is_made(attempt) ==> step == RetryStep::GiveUp(
            Probe::Calibration { value: byte_value },
        ),
{
    if attempt > RETRY_MAX_ATTEMPTS {
        RetryStep::GiveUp(Probe::Calibration { value: byte_value })
    } else {
        RetryStep::Ask
    }
}

/// What to report when attempt number `attempt` got no answer: the attempt
/// and how many are made at most.
pub fn retry_notice(attempt: u64, probe: Probe) -> (notice: RetryNotice)
    ensures
        notice == (RetryNotice { probe, attempt, max_attempts: RETRY_MAX_ATTEMPTS }),
{
    RetryNotice { probe, attempt, max_attempts: RETRY_MAX_ATTEMPTS }
}

} // verus!
