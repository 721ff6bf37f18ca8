//! Fuzzy matching of names, scored by `fuzzy_matcher`'s skim algorithm.

use fuzzy_matcher::skim::SkimMatcherV2;
use fuzzy_matcher::FuzzyMatcher;
use vstd::prelude::*;

verus! {

/// What `SkimMatcherV2::default().fuzzy_match(choice, pattern)` returns:
/// the score of `pattern` as a fuzzy match in `choice`, if it matches.
pub uninterp spec fn skim_score(choice: Seq<char>, pattern: Seq<char>) -> Option<i64>;

/// Scores `pattern` as a fuzzy match in `choice` with the default skim matcher.
#[verifier::external_body]
fn fuzzy_match(choice: &str, pattern: &str) -> (r: Option<i64>)
    ensures
        r == skim_score(choice@, pattern@),
{
    SkimMatcherV2::default().fuzzy_match(choice, pattern)
}

/// The score of `pattern` in `choice`, 0 when it does not match.
pub open spec fn match_score(choice: Seq<char>, pattern: Seq<char>) -> i64 {
    match skim_score(choice, pattern) {
        Some(x) => x,
        None => 0,
    }
}

/// The scores of `pattern` in each of `choices`, 0 where it does not match.
pub fn fuzzy_scores(choices: &[String], pattern: &str) -> (r: Vec<i64>)
    ensures
        r@.len() == choices@.len(),
        forall|k: int| 0 <= k < r@.len() ==> #[trigger] r@[k] == match_score(choices@[k]@, pattern@),
{
    let mut r: Vec<i64> = Vec::new();
    let mut i: usize = 0;
    while i < choices.len()
        invariant
            i <= choices@.len(),
            r@.len() == i,
            forall|k: int| 0 <= k < i ==> #[trigger] r@[k] == match_score(choices@[k]@, pattern@),
        decreases choices.len() - i,
    {
        let x = match fuzzy_match(choices[i].as_str(), pattern) {
            Some(x) => x,
            None => 0,
        };
        r.push(x);
        i += 1;
    }
    r
}

/// A position with the highest score; `None` when there is none.
pub fn best_match(scores: &Vec<i64>) -> (r: Option<usize>)
    ensures
        r is None <==> scores@.len() == 0,
        r matches Some(i) ==> i < scores@.len() && forall|k: int| 0 <= k < scores@.len() ==> scores@[k] <= scores@[i as int],
{
    if scores.len() == 0 {
        return None;
    }
    let mut best: usize = 0;
    let mut i: usize = 1;
    while i < scores.len()
        invariant
            1 <= i <= scores@.len(),
            best < i,
            forall|k: int| 0 <= k < i ==> scores@[k] <= scores@[best as int],
        decreases scores.len() - i,
    {
        if scores[i] >= scores[best] {
            best = i;
        }
        i += 1;
    }
    Some(best)
}

/// The candidates of a fuzzy search: the positions with a score above 50,
/// best first, at most six of them. Every position left out that scores
/// above 50 scores no more than the last candidate, and when fewer than six
/// are given, none above 50 is left out.
pub fn fuzzy_candidates(scores: &Vec<i64>) -> (r: Vec<usize>)
    ensures
        r@.len() <= 6,
        r@.no_duplicates(),
        forall|k: int| 0 <= k < r@.len() ==> #[trigger] r@[k] < scores@.len() && scores@[r@[k] as int] > 50,
        forall|a: int, b: int| 0 <= a < b < r@.len() ==> scores@[r@[a] as int] >= scores@[r@[b] as int],
        forall|j: int|
            0 <= j < scores@.len() && #[trigger] scores@[j] > 50 && (forall|q: int|
                0 <= q < r@.len() ==> r@[q] as int != j) ==> r@.len() == 6 && scores@[j] <= scores@[r@[5] as int],
{
    let len = scores.len();
    let mut r: Vec<usize> = Vec::new();
    loop
        invariant
            scores@.len() == len,
            r@.len() <= 6,
            r@.no_duplicates(),
            forall|k: int| 0 <= k < r@.len() ==> #[trigger] r@[k] < scores@.len() && scores@[r@[k] as int] > 50,
            forall|a: int, b: int| 0 <= a < b < r@.len() ==> scores@[r@[a] as int] >= scores@[r@[b] as int],
            forall|j: int|
                0 <= j < scores@.len() && #[trigger] scores@[j] > 50 && !r@.contains(j as usize) && r@.len() > 0
                    ==> scores@[j] <= scores@[r@[r@.len() - 1] as int],
        decreases 6 - r@.len(),
    {
        if r.len() == 6 {
            proof {
                assert forall|j: int|
                    0 <= j < scores@.len() && #[trigger] scores@[j] > 50 && (forall|q: int|
                        0 <= q < r@.len() ==> r@[q] as int != j) implies scores@[j] <= scores@[r@[5] as int] by {
                    if r@.contains(j as usize) {
                        let q = choose|q: int| 0 <= q < r@.len() && r@[q] == j as usize;
                        assert(r@[q] as int == j);
                    }
                }
            }
            return r;
        }
        let mut best: Option<usize> = None;
        let mut i: usize = 0;
        while i < scores.len()
            invariant
                i <= scores@.len(),
                best matches Some(b) ==> b < i && scores@[b as int] > 50 && !r@.contains(b),
                forall|k: int|
                    0 <= k < i && #[trigger] scores@[k] > 50 && !r@.contains(k as usize) ==> (best matches Some(b)
                        && scores@[k] <= scores@[b as int]),
            decreases scores.len() - i,
        {
            let mut taken = false;
            let mut t: usize = 0;
            while t < r.len()
                invariant
                    t <= r@.len(),
                    taken == exists|q: int| 0 <= q < t && r@[q] == i,
                decreases r.len() - t,
            {
                if r[t] == i {
                    taken = true;
                }
                t += 1;
            }
            assert(taken == r@.contains(i));
            if !taken && scores[i] > 50 {
                match best {
                    Some(b) => {
                        if scores[i] > scores[b] {
                            best = Some(i);
                        }
                    },
                    None => {
                        best = Some(i);
                    },
                }
            }
            i += 1;
        }
        match best {
            Some(b) => {
                let ghost before = r@;
                r.push(b);
                proof {
                    assert forall|x: int, y: int| 0 <= x < y < r@.len() implies r@[x] != r@[y] by {
                        if y == before.len() {
                            assert(before.contains(before[x]));
                        }
                    }
                    assert forall|j: int|
                        0 <= j < scores@.len() && #[trigger] scores@[j] > 50 && !r@.contains(j as usize) && r@.len() > 0
                            implies scores@[j] <= scores@[r@[r@.len() - 1] as int] by {
                        assert(!before.contains(j as usize)) by {
                            if before.contains(j as usize) {
                                let q = choose|q: int| 0 <= q < before.len() && before[q] == j as usize;
                                assert(r@[q] == j as usize);
                            }
                        }
                    }
                    assert forall|a: int, c: int| 0 <= a < c < r@.len() implies scores@[r@[a] as int] >= scores@[r@[c] as int] by {
                        if c == before.len() && a < c {
                            assert(!before.contains(b));
                            assert(scores@[b as int] <= scores@[before[before.len() - 1] as int]);
                        }
                    }
                }
            },
            None => {
                proof {
                    assert forall|j: int|
                        0 <= j < scores@.len() && #[trigger] scores@[j] > 50 && (forall|q: int|
                            0 <= q < r@.len() ==> r@[q] as int != j) implies false by {
                        if !r@.contains(j as usize) {
                            assert(best matches Some(_));
                        } else {
                            let q = choose|q: int| 0 <= q < r@.len() && r@[q] == j as usize;
                            assert(r@[q] as int == j);
                        }
                    }
                }
                return r;
            },
        }
    }
}

} // verus!
