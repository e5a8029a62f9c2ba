//! Heuristic classification of the access history: repeated-cycle detection
//! first (a perfect repeat would otherwise be mis-read as a noisy stride),
//! then majority-stride detection, with a deterministic first-enumerated
//! tie-break.

use vstd::prelude::*;
use crate::pattern::{Classification, PatternType, STRIDE_LIMIT};

verus! {

/// The difference between the history entry at `i` and its predecessor.
pub open spec fn stride_at(h: Seq<i32>, i: int) -> int
    recommends
        1 <= i < h.len(),
{
    h[i] - h[i - 1]
}

/// The most recent observed difference.
pub open spec fn last_stride(h: Seq<i32>) -> int
    recommends
        2 <= h.len(),
{
    stride_at(h, h.len() - 1)
}

/// How many of the transitions at positions `1 .. n` have stride `s`.
pub open spec fn stride_count_upto(h: Seq<i32>, s: int, n: int) -> int
    decreases n,
{
    if n <= 1 {
        0
    } else {
        stride_count_upto(h, s, n - 1) + if stride_at(h, n - 1) == s {
            1int
        } else {
            0int
        }
    }
}

/// How many of the history's transitions have stride `s`.
pub open spec fn stride_count(h: Seq<i32>, s: int) -> int {
    stride_count_upto(h, s, h.len() as int)
}

/// The stride with the most occurrences among the transitions at positions
/// `1 .. n`, together with its count. Ties go to the transition enumerated
/// first, so the choice is deterministic.
pub open spec fn best_stride_upto(h: Seq<i32>, n: int) -> (int, int)
    decreases n,
{
    if n <= 1 {
        (0, 0)
    } else {
        let prev = best_stride_upto(h, n - 1);
        let s = stride_at(h, n - 1);
        let c = stride_count(h, s);
        if c > prev.1 {
            (s, c)
        } else {
            prev
        }
    }
}

/// The most frequent stride of the whole history, and its count.
pub open spec fn best_stride(h: Seq<i32>) -> (int, int) {
    best_stride_upto(h, h.len() as int)
}

/// The most recent `l` entries equal the `l` entries immediately before them.
pub open spec fn cycle_matches(h: Seq<i32>, l: int) -> bool
    recommends
        2 * l <= h.len(),
{
    forall|i: int| h.len() - l <= i < h.len() ==> #[trigger] h[i] == h[i - l]
}

/// The most recent `n` entries are all one value.
pub open spec fn constant_tail(h: Seq<i32>, n: int) -> bool
    recommends
        n <= h.len(),
{
    forall|i: int| h.len() - n <= i < h.len() ==> #[trigger] h[i] == h[h.len() - 1]
}

/// A cycle of length `l` ends the history: the most recent `l` entries repeat
/// the `l` before them, and the repeat is not a trivial constant run.
pub open spec fn repeat_at(h: Seq<i32>, l: int) -> bool {
    &&& 2 <= l
    &&& 2 * l <= h.len()
    &&& cycle_matches(h, l)
    &&& !constant_tail(h, 2 * l)
}

/// The smallest cycle length in `l ..= h.len() / 2` that ends the history,
/// or `0` if there is none.
pub open spec fn find_cycle_from(h: Seq<i32>, l: int) -> int
    decreases h.len() - l,
{
    if l < 2 || 2 * l > h.len() {
        0
    } else if repeat_at(h, l) {
        l
    } else {
        find_cycle_from(h, l + 1)
    }
}

/// The detected cycle length of the history, or `0`.
pub open spec fn detected_cycle(h: Seq<i32>) -> int {
    find_cycle_from(h, 2)
}

/// What the classifier says of a history. With fewer than two entries nothing
/// is detected. A repeated cycle is looked for first; then a stride that
/// accounts for at least half of the observed transitions — of magnitude one
/// it is a sequential pattern, otherwise a strided one. Anything else is
/// unknown, carrying the most recent observed stride as a fallback.
pub open spec fn classify_spec(h: Seq<i32>) -> Classification {
    if h.len() < 2 {
        Classification { pattern_type: PatternType::Unknown, stride: 0, repeat_len: 0 }
    } else {
        let l = detected_cycle(h);
        if l != 0 {
            Classification {
                pattern_type: PatternType::Repeated,
                stride: last_stride(h) as i64,
                repeat_len: l as usize,
            }
        } else {
            let best = best_stride(h);
            if 2 * best.1 >= h.len() - 1 && best.0 != 0 {
                if best.0 == 1 || best.0 == -1 {
                    Classification {
                        pattern_type: PatternType::Sequential,
                        stride: best.0 as i64,
                        repeat_len: 0,
                    }
                } else {
                    Classification {
                        pattern_type: PatternType::Strided,
                        stride: best.0 as i64,
                        repeat_len: 0,
                    }
                }
            } else {
                Classification {
                    pattern_type: PatternType::Unknown,
                    stride: last_stride(h) as i64,
                    repeat_len: 0,
                }
            }
        }
    }
}

/// A transition's stride occurs at least once among the counted transitions.
proof fn lemma_stride_count_pos(h: Seq<i32>, j: int, n: int)
    requires
        1 <= j < n <= h.len(),
    ensures
        stride_count_upto(h, stride_at(h, j), n) >= 1,
    decreases n,
{
    if j == n - 1 {
        assert(stride_count_upto(h, stride_at(h, j), n - 1) >= 0) by {
            lemma_stride_count_nonneg(h, stride_at(h, j), n - 1);
        }
    } else {
        lemma_stride_count_pos(h, j, n - 1);
    }
}

/// Stride counts are never negative.
proof fn lemma_stride_count_nonneg(h: Seq<i32>, s: int, n: int)
    ensures
        stride_count_upto(h, s, n) >= 0,
    decreases n,
{
    if n > 1 {
        lemma_stride_count_nonneg(h, s, n - 1);
    }
}

/// The best stride seen so far is either the initial `(0, 0)` or an actual
/// transition's stride with its exact, positive count.
proof fn lemma_best_stride_upto_props(h: Seq<i32>, n: int)
    requires
        n <= h.len(),
    ensures
        best_stride_upto(h, n) == (0int, 0int) || exists|j: int|
            1 <= j < n && #[trigger] stride_at(h, j) == best_stride_upto(h, n).0
                && best_stride_upto(h, n).1 == stride_count(h, best_stride_upto(h, n).0)
                && best_stride_upto(h, n).1 >= 1,
    decreases n,
{
    if n <= 1 {
    } else {
        lemma_best_stride_upto_props(h, n - 1);
        let prev = best_stride_upto(h, n - 1);
        let s = stride_at(h, n - 1);
        let c = stride_count(h, s);
        if c > prev.1 {
            lemma_stride_count_pos(h, n - 1, h.len() as int);
            assert(stride_at(h, n - 1) == best_stride_upto(h, n).0);
        }
    }
}

/// The cycle length the search returns is `0` or a real cycle end of length
/// at least `l`.
proof fn lemma_find_cycle_from_props(h: Seq<i32>, l: int)
    ensures
        find_cycle_from(h, l) == 0 || (l <= find_cycle_from(h, l) && repeat_at(
            h,
            find_cycle_from(h, l),
        )),
    decreases h.len() - l,
{
    if l < 2 || 2 * l > h.len() {
    } else if repeat_at(h, l) {
    } else {
        lemma_find_cycle_from_props(h, l + 1);
    }
}

/// Structural soundness of the classifier's answer: the stride is a possible
/// difference of two addresses and agrees with the shape, and the cycle
/// length is meaningful exactly for repeated shapes.
pub proof fn lemma_classify_spec_wf(h: Seq<i32>)
    requires
        h.len() <= usize::MAX,
    ensures
        ({
            let c = classify_spec(h);
            &&& -STRIDE_LIMIT <= c.stride <= STRIDE_LIMIT
            &&& (c.pattern_type == PatternType::Sequential ==> c.stride == 1 || c.stride == -1)
            &&& (c.pattern_type == PatternType::Strided ==> c.stride != 0)
            &&& (c.pattern_type == PatternType::Repeated <==> c.repeat_len >= 2)
            &&& (c.pattern_type == PatternType::Repeated ==> 2 * c.repeat_len <= h.len())
            &&& (c.pattern_type != PatternType::Repeated ==> c.repeat_len == 0)
        }),
{
    if h.len() < 2 {
    } else {
        lemma_find_cycle_from_props(h, 2);
        let l = detected_cycle(h);
        if l != 0 {
            assert(2 * l <= h.len());
        } else {
            lemma_best_stride_upto_props(h, h.len() as int);
        }
    }
}

/// The best count seen so far is maximal among the counted transitions.
proof fn lemma_best_stride_upto_maximal(h: Seq<i32>, n: int)
    requires
        n <= h.len(),
    ensures
        forall|k: int|
            1 <= k < n ==> stride_count(h, #[trigger] stride_at(h, k)) <= best_stride_upto(h, n).1,
    decreases n,
{
    if n <= 1 {
    } else {
        lemma_best_stride_upto_maximal(h, n - 1);
    }
}

/// The search finds the smallest cycle: every shorter candidate length fails.
proof fn lemma_find_cycle_from_minimal(h: Seq<i32>, l: int)
    ensures
        find_cycle_from(h, l) != 0 ==> forall|l2: int|
            l <= l2 < find_cycle_from(h, l) ==> !repeat_at(h, l2),
    decreases h.len() - l,
{
    if l < 2 || 2 * l > h.len() {
    } else if repeat_at(h, l) {
    } else {
        lemma_find_cycle_from_minimal(h, l + 1);
    }
}

/// What a classification answer means for the history it was read from. A
/// sequential or strided answer names a stride that accounts for at least
/// half of the observed transitions, and no stride occurs more often — the
/// answer is a true majority, not an artefact of enumeration order. A
/// repeated answer names a real cycle end, and the smallest one.
pub proof fn lemma_classify_spec_majority(h: Seq<i32>)
    requires
        2 <= h.len() <= usize::MAX,
    ensures
        ({
            let c = classify_spec(h);
            &&& (c.pattern_type == PatternType::Sequential || c.pattern_type
                == PatternType::Strided) ==> {
                &&& 2 * stride_count(h, c.stride as int) >= h.len() - 1
                &&& forall|k: int|
                    1 <= k < h.len() ==> stride_count(h, #[trigger] stride_at(h, k))
                        <= stride_count(h, c.stride as int)
            }
            &&& c.pattern_type == PatternType::Repeated ==> repeat_at(h, c.repeat_len as int)
                && (forall|l: int| 2 <= l < c.repeat_len ==> !repeat_at(h, l))
        }),
{
    let c = classify_spec(h);
    lemma_find_cycle_from_props(h, 2);
    lemma_find_cycle_from_minimal(h, 2);
    if detected_cycle(h) == 0 {
        lemma_best_stride_upto_props(h, h.len() as int);
        lemma_best_stride_upto_maximal(h, h.len() as int);
    }
}

/// Entries of a history whose transitions all share one positive stride
/// strictly increase.
proof fn lemma_uniform_stride_monotone(h: Seq<i32>, s: int, i: int, j: int)
    requires
        1 <= s,
        forall|k: int| 1 <= k < h.len() ==> stride_at(h, k) == s,
        0 <= i < j < h.len(),
    ensures
        h[i] < h[j],
    decreases j - i,
{
    assert(stride_at(h, j) == s);
    if i < j - 1 {
        lemma_uniform_stride_monotone(h, s, i, j - 1);
    }
}

/// When no cycle ends the history, the search finds none.
proof fn lemma_find_cycle_from_none(h: Seq<i32>, l: int)
    requires
        forall|l2: int| !#[trigger] repeat_at(h, l2),
    ensures
        find_cycle_from(h, l) == 0,
    decreases h.len() - l,
{
    if l < 2 || 2 * l > h.len() {
    } else {
        assert(!repeat_at(h, l));
        lemma_find_cycle_from_none(h, l + 1);
    }
}

/// In a history whose transitions all share one stride, that stride's count
/// is the number of transitions.
proof fn lemma_uniform_stride_count(h: Seq<i32>, s: int, n: int)
    requires
        forall|k: int| 1 <= k < h.len() ==> stride_at(h, k) == s,
        1 <= n <= h.len(),
    ensures
        stride_count_upto(h, s, n) == n - 1,
    decreases n,
{
    if n > 1 {
        lemma_uniform_stride_count(h, s, n - 1);
    }
}

/// In a history whose transitions all share one stride, the majority search
/// settles on that stride with the full count.
proof fn lemma_uniform_best_stride(h: Seq<i32>, s: int, n: int)
    requires
        forall|k: int| 1 <= k < h.len() ==> stride_at(h, k) == s,
        2 <= n <= h.len(),
    ensures
        best_stride_upto(h, n) == (s, h.len() - 1),
    decreases n,
{
    lemma_uniform_stride_count(h, s, h.len() as int);
    assert(stride_at(h, n - 1) == s);
    if n > 2 {
        lemma_uniform_best_stride(h, s, n - 1);
    }
}

/// A history whose transitions all share one positive stride is classified as
/// that stride's pattern: sequential for stride one, strided otherwise, and
/// never as a cycle — its entries only grow.
pub proof fn lemma_uniform_stride_classifies(h: Seq<i32>, s: int)
    requires
        2 <= h.len() <= usize::MAX,
        1 <= s,
        forall|i: int| 1 <= i < h.len() ==> stride_at(h, i) == s,
    ensures
        classify_spec(h).stride == s,
        classify_spec(h).pattern_type == (if s == 1 {
            PatternType::Sequential
        } else {
            PatternType::Strided
        }),
        classify_spec(h).repeat_len == 0,
{
    assert forall|l2: int| !#[trigger] repeat_at(h, l2) by {
        if 2 <= l2 && 2 * l2 <= h.len() && cycle_matches(h, l2) {
            assert(h[h.len() - 1] == h[h.len() - 1 - l2]);
            lemma_uniform_stride_monotone(h, s, h.len() - 1 - l2, h.len() - 1);
        }
    }
    lemma_find_cycle_from_none(h, 2);
    lemma_uniform_best_stride(h, s, h.len() as int);
    assert(stride_at(h, 1) == s);
}

/// Check whether the most recent `l` entries equal the `l` before them.
fn check_cycle(history: &Vec<i32>, l: usize) -> (b: bool)
    requires
        1 <= l,
        2 * l <= history@.len(),
    ensures
        b == cycle_matches(history@, l as int),
{
    let n = history.len();
    let mut i: usize = 0;
    while i < l
        invariant
            i <= l,
            1 <= l,
            2 * l <= history@.len(),
            n == history@.len(),
            forall|k: int|
                n - l <= k < n - l + i ==> #[trigger] history@[k] == history@[k - l as int],
        decreases l - i,
    {
        if history[n - l + i] != history[n - 2 * l + i] {
            assert(!cycle_matches(history@, l as int)) by {
                assert(history@[n - l + i] != history@[(n - l + i) - l as int]);
            }
            return false;
        }
        i = i + 1;
    }
    true
}

/// Check whether the most recent `n` entries are all one value.
fn check_constant_tail(history: &Vec<i32>, n: usize) -> (b: bool)
    requires
        1 <= history@.len(),
        n <= history@.len(),
    ensures
        b == constant_tail(history@, n as int),
{
    let len = history.len();
    let latest = history[len - 1];
    let mut i: usize = len - n;
    while i < len
        invariant
            len == history@.len(),
            n <= len,
            len - n <= i <= len,
            latest == history@[len - 1],
            forall|k: int| len - n <= k < i ==> #[trigger] history@[k] == history@[len - 1],
        decreases len - i,
    {
        if history[i] != latest {
            return false;
        }
        i = i + 1;
    }
    true
}

/// Count how many transitions of the history have stride `s`.
fn count_stride(history: &Vec<i32>, s: i64) -> (c: usize)
    requires
        1 <= history@.len(),
    ensures
        c == stride_count(history@, s as int),
{
    let n = history.len();
    let mut c: usize = 0;
    let mut j: usize = 1;
    while j < n
        invariant
            1 <= j <= n,
            n == history@.len(),
            c <= j - 1,
            c == stride_count_upto(history@, s as int, j as int),
        decreases n - j,
    {
        let d = history[j] as i64 - history[j - 1] as i64;
        if d == s {
            c = c + 1;
        }
        j = j + 1;
    }
    c
}

/// Classify the access history.
#[verifier::loop_isolation(false)]
pub fn classify(history: &Vec<i32>) -> (c: Classification)
    ensures
        c == classify_spec(history@),
{
    let n = history.len();
    if n < 2 {
        return Classification { pattern_type: PatternType::Unknown, stride: 0, repeat_len: 0 };
    }
    let last = history[n - 1] as i64 - history[n - 2] as i64;
    assert(last == last_stride(history@));
    assert(last_stride(history@) as i64 == last) by {
        assert(-STRIDE_LIMIT <= last_stride(history@) <= STRIDE_LIMIT);
    }

    // Repeated-cycle detection, smallest cycle first.
    let mut l: usize = 2;
    while l <= n / 2
        invariant
            2 <= l,
            2 <= n == history@.len(),
            l <= n / 2 + 1,
            detected_cycle(history@) == find_cycle_from(history@, l as int),
        decreases n - l,
    {
        let cycles = check_cycle(history, l);
        let trivial = check_constant_tail(history, 2 * l);
        if cycles && !trivial {
            assert(find_cycle_from(history@, l as int) == l);
            return Classification {
                pattern_type: PatternType::Repeated,
                stride: last,
                repeat_len: l,
            };
        }
        assert(find_cycle_from(history@, l as int) == find_cycle_from(history@, l as int + 1));
        l = l + 1;
    }
    assert(detected_cycle(history@) == 0);

    // Majority-stride detection with a first-enumerated tie-break.
    let mut best_s: i64 = 0;
    let mut best_c: usize = 0;
    let mut j: usize = 1;
    while j < n
        invariant
            1 <= j <= n,
            n == history@.len(),
            best_s as int == best_stride_upto(history@, j as int).0,
            best_c as int == best_stride_upto(history@, j as int).1,
        decreases n - j,
    {
        let d = history[j] as i64 - history[j - 1] as i64;
        let c = count_stride(history, d);
        if c > best_c {
            best_s = d;
            best_c = c;
        }
        j = j + 1;
    }
    if 2 * (best_c as u128) >= (n as u128) - 1 && best_s != 0 {
        if best_s == 1 || best_s == -1 {
            Classification { pattern_type: PatternType::Sequential, stride: best_s, repeat_len: 0 }
        } else {
            Classification { pattern_type: PatternType::Strided, stride: best_s, repeat_len: 0 }
        }
    } else {
        Classification { pattern_type: PatternType::Unknown, stride: last, repeat_len: 0 }
    }
}

} // verus!
