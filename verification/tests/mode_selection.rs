//! The bounded top-K candidate selection keeps exactly the lowest-scoring
//! modes, matching a reference full sort of the scores.

use block_compression::{select_best_modes, CandidateMode};

fn cands(scores: &[(u64, u32)]) -> Vec<CandidateMode> {
    scores.iter().map(|&(score, mode)| CandidateMode { score, mode }).collect()
}

fn sorted_modes(mut v: Vec<CandidateMode>) -> Vec<(u64, u32)> {
    let mut pairs: Vec<(u64, u32)> = v.drain(..).map(|c| (c.score, c.mode)).collect();
    pairs.sort();
    pairs
}

#[test]
fn keeps_the_k_lowest_scores() {
    let candidates = cands(&[
        (50, 1),
        (10, 2),
        (40, 3),
        (30, 4),
        (20, 5),
        (60, 6),
        (5, 7),
    ]);
    let kept = select_best_modes(&candidates, 3);
    assert_eq!(sorted_modes(kept), vec![(5, 7), (10, 2), (20, 5)]);
}

#[test]
fn matches_reference_sort() {
    // Pseudo-random but fixed scores; the kept set must equal the first K of
    // a full sort.
    let mut scores: Vec<(u64, u32)> = Vec::new();
    let mut x: u64 = 12345;
    for i in 0..64 {
        x = x.wrapping_mul(6364136223846793005).wrapping_add(1442695040888963407);
        scores.push((x >> 33, i as u32));
    }
    let candidates = cands(&scores);
    let kept = select_best_modes(&candidates, 8);

    let mut reference = scores.clone();
    reference.sort();
    reference.truncate(8);

    assert_eq!(sorted_modes(kept), reference);
}

#[test]
fn keeps_everything_when_k_is_the_whole_set() {
    let candidates = cands(&[(9, 1), (7, 2), (8, 3)]);
    let kept = select_best_modes(&candidates, 3);
    assert_eq!(sorted_modes(kept), vec![(7, 2), (8, 3), (9, 1)]);
}

#[test]
fn single_best_candidate() {
    let candidates = cands(&[(3, 10), (1, 11), (2, 12)]);
    let kept = select_best_modes(&candidates, 1);
    assert_eq!(sorted_modes(kept), vec![(1, 11)]);
}

#[test]
fn equal_scores_keep_a_full_set() {
    let candidates = cands(&[(5, 1), (5, 2), (1, 3)]);
    let kept = select_best_modes(&candidates, 2);
    let pairs = sorted_modes(kept);
    // The displaced entry is one of the two equal-score candidates; the kept
    // scores are exactly the two lowest.
    assert_eq!(pairs.len(), 2);
    assert_eq!(pairs[0], (1, 3));
    assert_eq!(pairs[1].0, 5);
}
