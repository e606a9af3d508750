//! Candidate-mode selection for the ASTC encoder: a bounded partial top-K
//! over scored candidate modes, keeping the lowest-error entries without a
//! full sort. A running maximum over the kept set serves as the rejection
//! threshold; a better candidate displaces one current maximum-error entry.

use vstd::prelude::*;

verus! {

broadcast use vstd::seq_lib::group_to_multiset_ensures, vstd::multiset::group_multiset_properties;

/// One scored candidate: a packed ASTC mode word and its estimated encoding
/// error, lower being better.
#[derive(Clone, Copy, Debug, PartialEq, Eq, Structural)]
pub struct CandidateMode {
    pub score: u64,
    pub mode: u32,
}

/// `m` is the largest score held by the entries.
pub open spec fn spec_is_max_score(s: Seq<CandidateMode>, m: u64) -> bool {
    &&& forall|i: int| 0 <= i < s.len() ==> (#[trigger] s[i]).score <= m
    &&& exists|i: int| 0 <= i < s.len() && (#[trigger] s[i]).score == m
}

/// Every entry kept scores no worse than every candidate left out: an entry
/// is left out when the candidates hold more copies of it than the kept set.
pub open spec fn spec_kept_are_best(kept: Seq<CandidateMode>, all: Seq<CandidateMode>) -> bool {
    forall|x: CandidateMode, y: CandidateMode|
        #![trigger kept.to_multiset().count(x), kept.to_multiset().count(y)]
        kept.to_multiset().count(x) > 0 && all.to_multiset().count(y) > kept.to_multiset().count(y)
            ==> x.score <= y.score
}

/// The kept entries are drawn from the candidates.
pub open spec fn spec_kept_from(kept: Seq<CandidateMode>, all: Seq<CandidateMode>) -> bool {
    forall|c: CandidateMode| #[trigger]
        kept.to_multiset().count(c) <= all.to_multiset().count(c)
}

/// Displaces the single maximum-error entry of the kept set with `element`:
/// walking the slots, each entry worse than the carried one changes places
/// with it, so the overall worst entry is carried out at the end. Returns
/// the displaced entry and leaves the new maximum in `threshold_error`.
fn insert_element(best: &mut Vec<CandidateMode>, element: CandidateMode, threshold_error: &mut u64)
    -> (dropped: CandidateMode)
    requires
        old(best)@.len() >= 1,
    ensures
        final(best)@.len() == old(best)@.len(),
        final(best)@.to_multiset().insert(dropped) == old(best)@.to_multiset().insert(element),
        forall|i: int|
            0 <= i < final(best)@.len() ==> (#[trigger] final(best)@[i]).score <= dropped.score,
        spec_is_max_score(final(best)@, *final(threshold_error)),
{
    let mut max_error: u64 = 0;
    let mut carried = element;
    let len = best.len();
    let mut k: usize = 0;
    while k < len
        invariant
            k <= len,
            best@.len() == len == old(best)@.len(),
            best@.to_multiset().insert(carried) == old(best)@.to_multiset().insert(element),
            forall|i: int| 0 <= i < k ==> (#[trigger] best@[i]).score <= carried.score,
            forall|i: int| 0 <= i < k ==> (#[trigger] best@[i]).score <= max_error,
            k > 0 ==> exists|i: int| 0 <= i < k && (#[trigger] best@[i]).score == max_error,
            k == 0 ==> max_error == 0,
        decreases len - k,
    {
        if best[k].score > carried.score {
            let ghost prev = best@;
            let ghost oldc = carried;
            let slot = best[k];
            best.set(k, carried);
            carried = slot;
            proof {
                assert(prev.contains(prev[k as int]));
                assert(best@.to_multiset().insert(carried) =~= prev.to_multiset().insert(oldc));
                assert(best@.to_multiset().insert(carried) == old(best)@.to_multiset().insert(
                    element,
                ));
            }
        }

        if best[k].score > max_error {
            max_error = best[k].score;
        }
        k = k + 1;
    }
    *threshold_error = max_error;
    carried
}

/// Keeps the `fast_skip_threshold` lowest-scoring candidates, in the order
/// the displacement scheme leaves them: every kept entry scores no worse
/// than every candidate left out, and equal scores favor the entries already
/// held.
pub fn select_best_modes(candidates: &Vec<CandidateMode>, fast_skip_threshold: usize) -> (r: Vec<
    CandidateMode,
>)
    requires
        1 <= fast_skip_threshold <= candidates@.len(),
    ensures
        r@.len() == fast_skip_threshold,
        spec_kept_from(r@, candidates@),
        spec_kept_are_best(r@, candidates@),
{
    let k = fast_skip_threshold;
    let len = candidates.len();
    let mut best: Vec<CandidateMode> = Vec::new();
    let mut threshold_error: u64 = 0;
    let mut t: usize = 0;

    while t < k
        invariant
            t <= k <= candidates@.len(),
            best@ == candidates@.take(t as int),
            t > 0 ==> spec_is_max_score(best@, threshold_error),
            t == 0 ==> threshold_error == 0,
        decreases k - t,
    {
        let c = candidates[t];
        let ghost prev = best@;
        best.push(c);
        proof {
            assert(best@ =~= candidates@.take(t + 1));
            assert(best@[t as int] == c);
            assert(forall|i: int| 0 <= i < t ==> best@[i] == (#[trigger] prev[i]));
        }
        if c.score > threshold_error {
            threshold_error = c.score;
            proof {
                assert forall|i: int| 0 <= i < t + 1 implies (#[trigger] best@[i]).score
                    <= threshold_error by {
                    if i < t {
                        assert(prev[i].score <= c.score);
                    }
                }
            }
        } else {
            proof {
                assert(best@[t as int].score <= threshold_error);
                if t == 0 {
                    assert(best@[0].score == threshold_error);
                }
            }
        }
        t = t + 1;
    }

    proof {
        assert(spec_kept_from(best@, candidates@.take(k as int)));
        assert(spec_kept_are_best(best@, candidates@.take(k as int)));
    }

    while t < len
        invariant
            k <= t <= len == candidates@.len(),
            best@.len() == k,
            1 <= k,
            spec_is_max_score(best@, threshold_error),
            spec_kept_from(best@, candidates@.take(t as int)),
            spec_kept_are_best(best@, candidates@.take(t as int)),
        decreases len - t,
    {
        let c = candidates[t];
        let ghost prefix = candidates@.take(t as int);
        let ghost prev = best@;
        proof {
            assert(candidates@.take(t + 1) =~= prefix.push(c));
        }
        if c.score < threshold_error {
            let dropped = insert_element(&mut best, c, &mut threshold_error);
            proof {
                lemma_select_step_evict(prev, best@, prefix, c, dropped);
            }
        } else {
            proof {
                lemma_select_step_keep(best@, prefix, c, threshold_error);
            }
        }
        t = t + 1;
    }
    proof {
        assert(candidates@.take(len as int) =~= candidates@);
    }
    best
}

/// After a displacement, the kept set still draws from the grown prefix and
/// still scores no worse than everything left out.
proof fn lemma_select_step_evict(
    prev: Seq<CandidateMode>,
    cur: Seq<CandidateMode>,
    prefix: Seq<CandidateMode>,
    c: CandidateMode,
    dropped: CandidateMode,
)
    requires
        prev.len() >= 1,
        cur.len() == prev.len(),
        cur.to_multiset().insert(dropped) == prev.to_multiset().insert(c),
        forall|i: int| 0 <= i < cur.len() ==> (#[trigger] cur[i]).score <= dropped.score,
        spec_kept_from(prev, prefix),
        spec_kept_are_best(prev, prefix),
        exists|i: int| 0 <= i < prev.len() && (#[trigger] prev[i]).score >= c.score,
    ensures
        spec_kept_from(cur, prefix.push(c)),
        spec_kept_are_best(cur, prefix.push(c)),
{
    let prevms = prev.to_multiset();
    let curms = cur.to_multiset();
    let allms = prefix.push(c).to_multiset();
    assert(allms =~= prefix.to_multiset().insert(c));

    assert forall|x: CandidateMode| #[trigger]
        curms.count(x) <= allms.count(x) by {
        assert(curms.count(x) + (if x == dropped {
            1int
        } else {
            0
        }) == prevms.count(x) + (if x == c {
            1int
        } else {
            0
        })) by {
            assert(curms.insert(dropped).count(x) == prevms.insert(c).count(x));
        }
        assert(prevms.count(x) <= prefix.to_multiset().count(x));
    }

    assert forall|x: CandidateMode, y: CandidateMode|
        #![trigger curms.count(x), curms.count(y)]
        curms.count(x) > 0 && allms.count(y) > curms.count(y) implies x.score <= y.score by {
        assert(curms.insert(dropped).count(x) == prevms.insert(c).count(x));
        assert(curms.insert(dropped).count(y) == prevms.insert(c).count(y));
        // The kept entry is one of the old entries or the new candidate, and
        // in either case scores at most the displaced entry.
        assert(cur.contains(x)) by {
            assert(curms.count(x) > 0);
        }
        assert(x.score <= dropped.score);
        if y == dropped {
        } else if y == c {
            // More copies of the candidate's value exist than are kept, so
            // one copy was already passed over before this step.
            assert(prefix.to_multiset().count(y) > prevms.count(y));
            if prevms.count(x) > 0 {
                assert(x.score <= y.score);
            } else {
                assert(x == c);
            }
        } else {
            assert(prefix.to_multiset().count(y) > prevms.count(y));
            if prevms.count(x) > 0 {
                assert(x.score <= y.score);
            } else {
                assert(x == c);
                let i = choose|i: int|
                    0 <= i < prev.len() && (#[trigger] prev[i]).score >= c.score;
                assert(prevms.count(prev[i]) > 0) by {
                    assert(prev.contains(prev[i]));
                }
                assert(prev[i].score <= y.score);
            }
        }
    }
}

/// A candidate at or above the rejection threshold changes nothing kept.
proof fn lemma_select_step_keep(
    cur: Seq<CandidateMode>,
    prefix: Seq<CandidateMode>,
    c: CandidateMode,
    threshold: u64,
)
    requires
        spec_is_max_score(cur, threshold),
        c.score >= threshold,
        spec_kept_from(cur, prefix),
        spec_kept_are_best(cur, prefix),
    ensures
        spec_kept_from(cur, prefix.push(c)),
        spec_kept_are_best(cur, prefix.push(c)),
{
    let curms = cur.to_multiset();
    let allms = prefix.push(c).to_multiset();
    assert(allms =~= prefix.to_multiset().insert(c));

    assert forall|x: CandidateMode| #[trigger]
        curms.count(x) <= allms.count(x) by {}

    assert forall|x: CandidateMode, y: CandidateMode|
        #![trigger curms.count(x), curms.count(y)]
        curms.count(x) > 0 && allms.count(y) > curms.count(y) implies x.score <= y.score by {
        assert(cur.contains(x)) by {
            assert(curms.count(x) > 0);
        }
        let i = choose|i: int| 0 <= i < cur.len() && cur[i] == x;
        assert(x.score <= threshold);
        if y == c {
        } else {
            assert(prefix.to_multiset().count(y) > curms.count(y));
        }
    }
}

} // verus!
