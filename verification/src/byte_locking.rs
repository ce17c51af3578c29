//! What holds of every run of the attack on one block.

use vstd::prelude::*;

use crate::block::{intermediate_of, lemma_padding_adjusted_yields_padding, xor_bytes};
use crate::forged_cypher_text::ForgedView;

verus! {

/// The state after each of `values` in turn was tried at the byte under
/// attack and settled.
pub open spec fn locked_in_turn(start: ForgedView, values: Seq<u8>) -> ForgedView
    decreases values.len(),
{
    if values.len() == 0 {
        start
    } else {
        locked_in_turn(start.set_current_byte(values[0]).lock_byte(), values.drop_first())
    }
}

/// Whether the forged block that `state` sends makes the block under attack
/// end in the padding that the byte under attack is tried for, given what
/// the cipher makes of that block: an oracle that says "valid" for this
/// reason, and for no other, is taken at its word.
pub open spec fn hits_padding(intermediate: Seq<u8>, state: ForgedView) -> bool {
    forall|j: int|
        state.current_byte_idx <= j < state.size() ==> #[trigger] xor_bytes(
            state.sent_block(),
            intermediate,
        )[j] == state.pad_size()
}

/// Whether each of `values`, tried in turn from `start`, hits the padding it
/// is tried for.
pub open spec fn all_hit(intermediate: Seq<u8>, start: ForgedView, values: Seq<u8>) -> bool
    decreases values.len(),
{
    values.len() == 0 || {
        &&& hits_padding(intermediate, start.set_current_byte(values[0]))
        &&& all_hit(
            intermediate,
            start.set_current_byte(values[0]).lock_byte(),
            values.drop_first(),
        )
    }
}

/// Whether the bytes right of the byte under attack stand for the
/// intermediate, in the block that is tried and in the one that is settled.
pub open spec fn settled_right(intermediate: Seq<u8>, state: ForgedView) -> bool {
    forall|j: int|
        state.current_byte_idx < j < state.size() ==> #[trigger] settled_at(intermediate, state, j)
}

/// Whether the byte at place `j` stands for the intermediate, in the block
/// that is tried and in the one that is settled.
pub open spec fn settled_at(intermediate: Seq<u8>, state: ForgedView, j: int) -> bool {
    &&& state.wip[j] == state.solution[j]
    &&& intermediate_of(state.solution)[j] == intermediate[j]
}

/// Bytes are settled from right to left, one place at a time: the value tried
/// `i`-th from the start lands `i` places left of where the start stood, the
/// cursor moves one place left with each, and no other byte of the solution
/// changes.
pub proof fn lemma_locks_right_to_left(start: ForgedView, values: Seq<u8>)
    requires
        start.wip.len() == start.solution.len(),
        0 <= start.current_byte_idx < start.solution.len(),
        values.len() <= start.current_byte_idx + 1,
    ensures
        locked_in_turn(start, values).current_byte_idx == start.current_byte_idx - values.len(),
        locked_in_turn(start, values).original_blocks == start.original_blocks,
        locked_in_turn(start, values).url_encoded == start.url_encoded,
        locked_in_turn(start, values).used_encoding == start.used_encoding,
        locked_in_turn(start, values).solution.len() == start.solution.len(),
        locked_in_turn(start, values).wip.len() == start.wip.len(),
        forall|i: int|
            0 <= i < values.len() ==> #[trigger] locked_in_turn(
                start,
                values,
            ).solution[start.current_byte_idx - i] == values[i],
        forall|j: int|
            0 <= j < start.solution.len() && !(start.current_byte_idx - values.len() < j
                <= start.current_byte_idx) ==> #[trigger] locked_in_turn(start, values).solution[j]
                == start.solution[j],
    decreases values.len(),
{
    if values.len() > 0 {
        let next = start.set_current_byte(values[0]).lock_byte();
        let rest = values.drop_first();
        let end = locked_in_turn(start, values);
        if rest.len() > 0 {
            lemma_locks_right_to_left(next, rest);
        }
        assert(end == locked_in_turn(next, rest));
        assert forall|i: int| 0 <= i < values.len() implies #[trigger] end.solution[start.current_byte_idx
            - i] == values[i] by {
            if i > 0 {
                assert(rest[i - 1] == values[i]);
                assert(end.solution[next.current_byte_idx - (i - 1)] == rest[i - 1]);
            }
        }
    }
}

/// The value that makes the padding right does hit it: where the bytes right
/// of the byte under attack stand for the intermediate, and `value` xor-ed
/// with the intermediate at the byte under attack is the padding length
/// tried, the block that is sent gives that padding.
pub proof fn lemma_right_value_hits(intermediate: Seq<u8>, state: ForgedView, value: u8)
    requires
        state.wf(),
        intermediate.len() == state.size(),
        settled_right(intermediate, state),
        value ^ intermediate[state.current_byte_idx] == state.pad_size(),
    ensures
        hits_padding(intermediate, state.set_current_byte(value)),
{
    let tried = state.set_current_byte(value);
    let at = state.current_byte_idx;
    let pad = state.pad_size() as u8;
    assert forall|j: int| at <= j < tried.size() implies intermediate[j] == intermediate_of(
        tried.wip,
    )[j] by {
        if j == at {
            let found = intermediate[at];
            assert(value ^ found == pad ==> found == value ^ pad) by (bit_vector);
        } else {
            assert(settled_at(intermediate, state, j));
        }
    }
    lemma_padding_adjusted_yields_padding(tried.wip, tried.pad_size(), intermediate);
}

/// A value that hits the padding settles the byte under attack for the
/// intermediate.
pub proof fn lemma_hit_settles_byte(intermediate: Seq<u8>, state: ForgedView, value: u8)
    requires
        state.wf(),
        intermediate.len() == state.size(),
        settled_right(intermediate, state),
        hits_padding(intermediate, state.set_current_byte(value)),
    ensures
        settled_right(intermediate, state.set_current_byte(value).lock_byte()),
{
    let tried = state.set_current_byte(value);
    let next = tried.lock_byte();
    let at = state.current_byte_idx;
    let pad = state.pad_size() as u8;
    let found = intermediate[at];
    assert(xor_bytes(tried.sent_block(), intermediate)[at] == pad);
    assert(tried.sent_block()[at] == value ^ pad ^ pad);
    assert((value ^ pad ^ pad) ^ found == pad ==> value ^ pad == found) by (bit_vector);
    assert forall|j: int| next.current_byte_idx < j < next.size() implies #[trigger] settled_at(
        intermediate,
        next,
        j,
    ) by {
        if j > at {
            assert(settled_at(intermediate, state, j));
        } else {
            assert(intermediate_of(next.solution)[at] == value ^ pad);
        }
    }
}

/// An attack that starts at the last byte and settles every byte on a value
/// that hits its padding ends with the solution that stands for the
/// intermediate: the plain text it yields is the intermediate xor-ed with
/// the block in front.
pub proof fn lemma_solution_is_intermediate(
    intermediate: Seq<u8>,
    start: ForgedView,
    values: Seq<u8>,
)
    requires
        start.wf(),
        intermediate.len() == start.size(),
        settled_right(intermediate, start),
        values.len() == start.current_byte_idx + 1,
        all_hit(intermediate, start, values),
    ensures
        locked_in_turn(start, values).current_byte_idx == -1,
        intermediate_of(locked_in_turn(start, values).solution) == intermediate,
        locked_in_turn(start, values).solved().plain_text() == xor_bytes(
            intermediate,
            start.previous_block(),
        ),
    decreases values.len(),
{
    let next = start.set_current_byte(values[0]).lock_byte();
    let rest = values.drop_first();
    lemma_hit_settles_byte(intermediate, start, values[0]);
    lemma_locks_right_to_left(start, values);
    if rest.len() > 0 {
        lemma_solution_is_intermediate(intermediate, next, rest);
    } else {
        let end = locked_in_turn(start, values);
        assert(locked_in_turn(next, rest) == next);
        assert(end == next);
        assert forall|j: int| 0 <= j < intermediate.len() implies intermediate_of(end.solution)[j]
            == intermediate[j] by {
            assert(settled_at(intermediate, end, j));
        }
        assert(intermediate_of(end.solution) =~= intermediate);
    }
}

} // verus!
