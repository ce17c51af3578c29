//! Finding out how a web oracle answers invalid padding.

use vstd::prelude::*;

use crate::calibration_response::{CalibrationResponse, CalibrationResponseView};
use crate::forged_cypher_text::{ForgedCypherText, ForgedView};

verus! {

/// All responses looked the same: nothing tells valid padding from invalid.
/// Considering the body of the responses may help.
#[derive(Clone, Copy, Debug, PartialEq, Eq, Structural)]
pub struct IndistinguishableResponses;

/// Tries every value of one byte on a web oracle to learn its responses.
pub struct Calibrator {
    forged_cypher_text: ForgedCypherText,
}

impl View for Calibrator {
    type V = ForgedView;

    closed spec fn view(&self) -> ForgedView {
        self.forged_cypher_text@
    }
}

/// The views of a list of responses.
pub open spec fn response_views(responses: Seq<CalibrationResponse>) -> Seq<
    CalibrationResponseView,
> {
    Seq::new(responses.len(), |i: int| responses[i]@)
}

/// How often `response` occurs among `responses`.
pub open spec fn occurrences(
    responses: Seq<CalibrationResponseView>,
    response: CalibrationResponseView,
) -> nat
    decreases responses.len(),
{
    if responses.len() == 0 {
        0
    } else {
        occurrences(responses.drop_last(), response) + if responses.last() == response {
            1nat
        } else {
            0nat
        }
    }
}

/// Whether fewer than two different responses occur.
pub open spec fn all_alike(responses: Seq<CalibrationResponseView>) -> bool {
    forall|i: int, j: int|
        0 <= i < responses.len() && 0 <= j < responses.len() ==> responses[i] == responses[j]
}

/// Whether `response` occurs, and no response occurs more often.
pub open spec fn is_most_frequent(
    responses: Seq<CalibrationResponseView>,
    response: CalibrationResponseView,
) -> bool {
    &&& occurrences(responses, response) > 0
    &&& forall|other: CalibrationResponseView| #[trigger]
        occurrences(responses, other) <= occurrences(responses, response)
}

fn count_of(responses: &[CalibrationResponse], response: &CalibrationResponse) -> (count: usize)
    ensures
        count == occurrences(response_views(responses@), response@),
        count <= responses@.len(),
{
    let len = responses.len();
    let ghost views = response_views(responses@);
    let mut count: usize = 0;
    let mut i: usize = 0;
    while i < len
        invariant
            len == responses@.len(),
            views == response_views(responses@),
            i <= len,
            count <= i,
            count == occurrences(views.subrange(0, i as int), response@),
        decreases len - i,
    {
        assert(views.subrange(0, i + 1).drop_last() =~= views.subrange(0, i as int));
        if responses[i].same_as(response) {
            count += 1;
        }
        i += 1;
    }
    assert(views.subrange(0, len as int) =~= views);
    count
}

/// A response occurs at most as often as there are responses, and a response
/// that does not occur is counted zero times.
pub proof fn lemma_occurrences_bounds(
    responses: Seq<CalibrationResponseView>,
    response: CalibrationResponseView,
)
    ensures
        occurrences(responses, response) <= responses.len(),
        occurrences(responses, response) > 0 <==> exists|i: int|
            0 <= i < responses.len() && responses[i] == response,
    decreases responses.len(),
{
    if responses.len() > 0 {
        let front = responses.drop_last();
        lemma_occurrences_bounds(front, response);
        if occurrences(responses, response) > 0 {
            if responses.last() == response {
                assert(responses[responses.len() - 1] == response);
            } else {
                let i = choose|i: int| 0 <= i < front.len() && front[i] == response;
                assert(responses[i] == response);
            }
        }
        if exists|i: int| 0 <= i < responses.len() && responses[i] == response {
            let i = choose|i: int| 0 <= i < responses.len() && responses[i] == response;
            if i < front.len() {
                assert(front[i] == response);
            }
        }
    }
}

/// Two different responses together occur at most as often as there are
/// responses.
pub proof fn lemma_occurrences_of_two(
    responses: Seq<CalibrationResponseView>,
    one: CalibrationResponseView,
    other: CalibrationResponseView,
)
    requires
        one != other,
    ensures
        occurrences(responses, one) + occurrences(responses, other) <= responses.len(),
    decreases responses.len(),
{
    if responses.len() > 0 {
        lemma_occurrences_of_two(responses.drop_last(), one, other);
    }
}

/// A deterministic oracle is calibrated on its answer to invalid padding:
/// where one response makes up more than half of all responses, as the
/// response to invalid padding does when at most a few of the 256 values give
/// valid padding, that response is the only most frequent one.
pub proof fn lemma_majority_is_chosen(
    responses: Seq<CalibrationResponseView>,
    chosen: CalibrationResponseView,
    invalid_padding: CalibrationResponseView,
)
    requires
        is_most_frequent(responses, chosen),
        2 * occurrences(responses, invalid_padding) > responses.len(),
    ensures
        chosen == invalid_padding,
{
    if chosen != invalid_padding {
        lemma_occurrences_of_two(responses, chosen, invalid_padding);
        assert(occurrences(responses, invalid_padding) <= occurrences(responses, chosen));
    }
}

fn most_frequent_response(responses: &[CalibrationResponse]) -> (chosen: Result<
    CalibrationResponse,
    IndistinguishableResponses,
>)
    ensures
        chosen is Err <==> all_alike(response_views(responses@)),
        chosen is Ok ==> is_most_frequent(response_views(responses@), chosen->Ok_0@),
{
    let len = responses.len();
    let ghost views = response_views(responses@);
    if len == 0 {
        return Err(IndistinguishableResponses);
    }
    let mut differ = false;
    let mut best: usize = 0;
    let mut best_count = count_of(responses, &responses[0]);
    let mut i: usize = 1;
    proof {
        lemma_occurrences_bounds(views, views[0]);
    }
    while i < len
        invariant
            len == responses@.len(),
            views == response_views(responses@),
            1 <= i <= len,
            best < i,
            best_count == occurrences(views, views[best as int]),
            best_count > 0,
            forall|j: int|
                0 <= j < i ==> occurrences(views, #[trigger] views[j]) <= best_count,
            differ <==> exists|j: int| 0 <= j < i && #[trigger] views[j] != views[0],
        decreases len - i,
    {
        let count = count_of(responses, &responses[i]);
        if count > best_count {
            best = i;
            best_count = count;
        }
        if !responses[i].same_as(&responses[0]) {
            differ = true;
            assert(views[i as int] != views[0]);
        }
        i += 1;
    }
    if !differ {
        assert forall|a: int, b: int| 0 <= a < len && 0 <= b < len implies views[a]
            == views[b] by {
            assert(!(views[a] != views[0]));
            assert(!(views[b] != views[0]));
        }
        return Err(IndistinguishableResponses);
    }
    proof {
        let j = choose|j: int| 0 <= j < len && #[trigger] views[j] != views[0];
        assert(!all_alike(views));
        assert forall|other: CalibrationResponseView| #[trigger]
            occurrences(views, other) <= occurrences(views, views[best as int]) by {
            lemma_occurrences_bounds(views, other);
            if occurrences(views, other) > 0 {
                let k = choose|k: int| 0 <= k < views.len() && views[k] == other;
                assert(occurrences(views, views[k]) <= best_count);
            }
        }
    }
    Ok(responses[best].duplicate())
}

impl Calibrator {
    /// A calibrator that tries values at the byte under attack of
    /// `forged_cypher_text`.
    pub fn new(forged_cypher_text: ForgedCypherText) -> (calibrator: Calibrator)
        ensures
            calibrator@ == forged_cypher_text@,
    {
        Calibrator { forged_cypher_text }
    }

    /// The state with `byte_value` tried: its text is the calibration request
    /// for that value.
    pub fn candidate(&self, byte_value: u8) -> (tried: ForgedCypherText)
        ensures
            tried@ == self@.set_current_byte(byte_value),
            tried@.wf(),
    {
        self.forged_cypher_text.with_current_byte(byte_value)
    }

    /// Picks the response to invalid padding out of the responses to all
    /// values of the byte: the most frequent one, since at most a few values
    /// give valid padding. Fails where fewer than two different responses
    /// occur.
    pub fn determine_padding_error_response(&self, responses: &[CalibrationResponse]) -> (chosen:
        Result<CalibrationResponse, IndistinguishableResponses>)
        ensures
            chosen is Err <==> all_alike(response_views(responses@)),
            chosen is Ok ==> is_most_frequent(response_views(responses@), chosen->Ok_0@),
    {
        most_frequent_response(responses)
    }
}

} // verus!
