//! The picker: the highest score above a threshold wins, and of equal scores
//! the one that comes first.

use vstd::prelude::*;

verus! {

/// What the picker chose: the place of the winning score and the score
/// itself.
#[derive(Clone, Copy, PartialEq, Eq, Structural, Debug)]
pub struct Pick {
    pub index: usize,
    pub score: i64,
}

/// No score is above the threshold.
pub open spec fn none_above(scores: Seq<i64>, threshold: i64) -> bool {
    forall|i: int| 0 <= i < scores.len() ==> #[trigger] scores[i] <= threshold
}

/// `index` and `best` are what the picker chooses from `scores`. Where no
/// score is above the threshold, that is place zero with the threshold as
/// its score. Otherwise `best` is the highest score, and `index` is the first
/// place that holds it.
pub open spec fn is_pick(scores: Seq<i64>, threshold: i64, index: int, best: int) -> bool {
    if none_above(scores, threshold) {
        index == 0 && best == threshold
    } else {
        &&& 0 <= index < scores.len()
        &&& best == scores[index]
        &&& best > threshold
        &&& forall|i: int| 0 <= i < scores.len() ==> #[trigger] scores[i] <= best
        &&& forall|i: int| 0 <= i < index ==> #[trigger] scores[i] < best
    }
}

/// The choice depends on the scores and the threshold alone: whatever two
/// runs of the picker return for the same scores and the same threshold is
/// the same place and the same score.
pub proof fn lemma_pick_is_determined(
    scores: Seq<i64>,
    threshold: i64,
    first_index: int,
    first_best: int,
    second_index: int,
    second_best: int,
)
    requires
        is_pick(scores, threshold, first_index, first_best),
        is_pick(scores, threshold, second_index, second_best),
    ensures
        first_index == second_index,
        first_best == second_best,
{
    if !none_above(scores, threshold) {
        assert(scores[first_index] <= second_best);
        assert(scores[second_index] <= first_best);
        if first_index < second_index {
            assert(scores[first_index] < second_best);
        } else if second_index < first_index {
            assert(scores[second_index] < first_best);
        }
    }
}

/// Where some place holds a score that is above the threshold and that no
/// score exceeds, the picker's place is that one or an earlier one with the
/// same score: of two places that tie for the highest score the lower wins.
pub proof fn lemma_pick_prefers_first(
    scores: Seq<i64>,
    threshold: i64,
    index: int,
    best: int,
    other: int,
)
    requires
        is_pick(scores, threshold, index, best),
        0 <= other < scores.len(),
        scores[other] > threshold,
        forall|i: int| 0 <= i < scores.len() ==> #[trigger] scores[i] <= scores[other],
    ensures
        index <= other,
        scores[index] == scores[other],
{
    assert(!none_above(scores, threshold));
    assert(scores[index] <= scores[other]);
    assert(scores[other] <= best);
    if other < index {
        assert(scores[other] < best);
    }
}

/// Picks from `scores`: the highest score that is above `threshold`, at the
/// first place that holds it; place zero, with the threshold as the score,
/// where no score is above the threshold.
pub fn pick(scores: &Vec<i64>, threshold: i64) -> (choice: Pick)
    ensures
        is_pick(scores@, threshold, choice.index as int, choice.score as int),
{
    let mut best_index: usize = 0;
    let mut best_score: i64 = threshold;
    let mut k: usize = 0;
    while k < scores.len()
        invariant
            0 <= k <= scores.len(),
            is_pick(scores@.subrange(0, k as int), threshold, best_index as int, best_score as int),
        decreases scores.len() - k,
    {
        let ghost before = scores@.subrange(0, k as int);
        let ghost after = scores@.subrange(0, k + 1);
        let score: i64 = scores[k];
        proof {
            assert(after[k as int] == score);
            assert forall|i: int| 0 <= i < k implies #[trigger] after[i] == before[i] by {}
            if none_above(before, threshold) {
                assert forall|i: int| 0 <= i < k implies #[trigger] after[i] <= threshold by {
                    assert(before[i] <= threshold);
                }
            } else {
                let w = choose|i: int| 0 <= i < before.len() && !(#[trigger] before[i] <= threshold);
                assert(after[w] == before[w]);
                assert(!none_above(after, threshold));
                assert forall|i: int| 0 <= i < k implies #[trigger] after[i] <= best_score by {
                    assert(before[i] <= best_score);
                }
                assert forall|i: int| 0 <= i < best_index implies #[trigger] after[i]
                    < best_score by {
                    assert(before[i] < best_score);
                }
            }
        }
        if score > best_score {
            best_score = score;
            best_index = k;
            proof {
                assert(!none_above(after, threshold));
            }
        }
        k += 1;
    }
    assert(scores@.subrange(0, k as int) =~= scores@);
    Pick { index: best_index, score: best_score }
}

} // verus!
