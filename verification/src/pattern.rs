//! Access-pattern descriptors: the shape of a detected pattern, the
//! per-address learned state that evolves with hit/miss feedback, and the
//! generation of predicted next addresses from a descriptor.

use vstd::prelude::*;
use crate::CONFIDENCE_SCALE;

verus! {

/// The shape of a detected access pattern.
#[derive(Clone, Copy, Debug, PartialEq, Eq, Hash, Structural)]
pub enum PatternType {
    /// Constant stride of `1` or `-1`.
    Sequential,
    /// Constant stride other than `0`, `1` and `-1`.
    Strided,
    /// The most recent window of some length repeats the window before it.
    Repeated,
    /// No pattern detected with sufficient evidence.
    Unknown,
}

/// What the classifier reads out of the access history: the pattern shape,
/// the stride to extrapolate with, and the detected cycle length
/// (`0` unless the shape is [`PatternType::Repeated`]).
///
/// For [`PatternType::Unknown`] and [`PatternType::Repeated`] the stride is
/// the most recent observed difference, kept as a low-confidence fallback.
#[derive(Clone, Copy, Debug, PartialEq, Eq, Structural)]
pub struct Classification {
    pub pattern_type: PatternType,
    pub stride: i64,
    pub repeat_len: usize,
}

/// How the newly accessed address related to the outstanding predictions.
#[derive(Clone, Copy, Debug, PartialEq, Eq, Structural)]
pub enum Feedback {
    /// The address matched an outstanding prediction.
    Hit,
    /// Predictions were outstanding and none matched.
    Miss,
    /// No prediction was outstanding, so nothing could be judged.
    Idle,
}

/// Smallest prediction window; a descriptor never shrinks below it.
pub const MIN_WINDOW: usize = 2;

/// Confidence (in thousandths) a descriptor must exceed before its window
/// is allowed to grow after a hit.
pub const GROW_CONFIDENCE: u32 = 500;

/// Confidence (in thousandths) added after the four-fifths decay on a hit.
pub const HIT_BOOST: u32 = 200;

/// Largest magnitude a stride can have: the difference of two `i32`
/// addresses.
pub const STRIDE_LIMIT: i64 = 0xFFFF_FFFF;

/// Largest address the predictor is willing to extrapolate to: half of the
/// maximum representable address. Anything beyond is treated as a runaway
/// extrapolation and suppressed.
pub const PREDICTION_CEILING: i32 = 0x3FFF_FFFF;

/// Per-address learned descriptor of an access pattern.
#[derive(Clone, Copy, Debug, PartialEq, Eq, Structural)]
pub struct AccessPattern {
    /// Shape the classifier last saw for this address.
    pub pattern_type: PatternType,
    /// Stride to extrapolate with (most recent observed difference when the
    /// shape carries no stride of its own).
    pub stride: i64,
    /// How often this address has been accessed; saturates instead of
    /// wrapping.
    pub frequency: u32,
    /// Confidence in thousandths, always at most [`CONFIDENCE_SCALE`].
    pub confidence: u32,
    /// How many forward addresses to predict; grows after confident hits,
    /// shrinks after misses, and never leaves
    /// `MIN_WINDOW ..= max(MIN_WINDOW, max_window_size)`.
    pub window_size: usize,
    /// Detected cycle length, `0` unless the shape is repeated.
    pub repeat_len: usize,
}

/// An extrapolated address is acceptable if it is representable and does not
/// exceed the sanity ceiling.
pub open spec fn addr_in_bounds(v: int) -> bool {
    i32::MIN <= v <= PREDICTION_CEILING
}

/// The addresses reached by repeatedly adding `stride`, starting just after
/// `addr`, for at most `window` steps; extrapolation stops at the first
/// address out of bounds.
pub open spec fn stride_preds(addr: int, stride: int, window: nat) -> Seq<i32>
    decreases window,
{
    if window == 0 {
        Seq::empty()
    } else {
        let next = addr + stride;
        if addr_in_bounds(next) {
            seq![next as i32] + stride_preds(next, stride, (window - 1) as nat)
        } else {
            Seq::empty()
        }
    }
}

/// Walk of the detected cycle's previous occurrence: starting at `start + i`
/// in the history, collect up to `window` addresses, skipping any address
/// already collected.
pub open spec fn repeat_preds_loop(h: Seq<i32>, start: int, window: int, i: int, acc: Seq<i32>) -> Seq<i32>
    decreases window - i,
{
    if i >= window || start + i < 0 || start + i >= h.len() {
        acc
    } else {
        let v = h[start + i];
        let acc2 = if acc.contains(v) {
            acc
        } else {
            acc.push(v)
        };
        repeat_preds_loop(h, start, window, i + 1, acc2)
    }
}

/// The addresses that followed the previous occurrence of the current
/// position in a cycle of length `repeat_len`, read from the history.
pub open spec fn repeat_preds(h: Seq<i32>, repeat_len: int, window: int) -> Seq<i32> {
    repeat_preds_loop(h, h.len() - repeat_len, window, 0, Seq::empty())
}

/// The single low-confidence fallback guess for an unknown pattern: one step
/// of the most recent observed stride, suppressed when no stride was
/// observed or the step leaves the address bounds.
pub open spec fn unknown_preds(addr: int, stride: int) -> Seq<i32> {
    if stride != 0 && addr_in_bounds(addr + stride) {
        seq![(addr + stride) as i32]
    } else {
        Seq::empty()
    }
}

/// The predictions a descriptor generates for the address it was just
/// refreshed by, given the access history ending in that address.
pub open spec fn preds_spec(p: AccessPattern, addr: i32, h: Seq<i32>) -> Seq<i32> {
    match p.pattern_type {
        PatternType::Sequential => stride_preds(addr as int, p.stride as int, p.window_size as nat),
        PatternType::Strided => stride_preds(addr as int, p.stride as int, p.window_size as nat),
        PatternType::Repeated => repeat_preds(h, p.repeat_len as int, p.window_size as int),
        PatternType::Unknown => unknown_preds(addr as int, p.stride as int),
    }
}

/// Saturating increment of a counter.
pub open spec fn sat_inc(c: u32) -> u32 {
    if c == u32::MAX {
        c
    } else {
        (c + 1) as u32
    }
}

/// Confidence after a hit: four fifths of the old value plus the boost.
/// Stays within the scale whenever the old value does.
pub open spec fn boosted(c: u32) -> u32
    recommends
        c <= CONFIDENCE_SCALE,
{
    ((c as int) * 4 / 5 + HIT_BOOST) as u32
}

/// Confidence after a miss: four fifths of the old value.
pub open spec fn decayed(c: u32) -> u32
    recommends
        c <= CONFIDENCE_SCALE,
{
    ((c as int) * 4 / 5) as u32
}

/// A descriptor freshly created for an address seen for the first time.
pub open spec fn fresh_spec(shape: Classification, min_confidence: u32) -> AccessPattern {
    AccessPattern {
        pattern_type: shape.pattern_type,
        stride: shape.stride,
        frequency: 1,
        confidence: min_confidence,
        window_size: MIN_WINDOW,
        repeat_len: shape.repeat_len,
    }
}

/// A descriptor after one more access to its address: the shape is refreshed
/// from the classifier, the frequency counted, the confidence boosted or
/// decayed by the feedback, and the window adjusted within its bounds.
pub open spec fn updated_spec(
    p: AccessPattern,
    shape: Classification,
    feedback: Feedback,
    max_window_size: usize,
) -> AccessPattern {
    let confidence = match feedback {
        Feedback::Hit => boosted(p.confidence),
        Feedback::Miss => decayed(p.confidence),
        Feedback::Idle => p.confidence,
    };
    let window_size = match feedback {
        Feedback::Hit => if confidence > GROW_CONFIDENCE && p.window_size < max_window_size {
            (p.window_size + 1) as usize
        } else {
            p.window_size
        },
        Feedback::Miss => if p.window_size > MIN_WINDOW {
            (p.window_size - 1) as usize
        } else {
            p.window_size
        },
        Feedback::Idle => p.window_size,
    };
    AccessPattern {
        pattern_type: shape.pattern_type,
        stride: shape.stride,
        frequency: sat_inc(p.frequency),
        confidence,
        window_size,
        repeat_len: shape.repeat_len,
    }
}

/// Structural soundness of a descriptor: the stride is a possible difference
/// of two addresses and agrees with the shape, the cycle length is a real
/// cycle length exactly for repeated shapes, and the confidence is on the
/// scale.
pub open spec fn shape_wf(p: AccessPattern) -> bool {
    &&& -STRIDE_LIMIT <= p.stride <= STRIDE_LIMIT
    &&& (p.pattern_type == PatternType::Sequential ==> p.stride == 1 || p.stride == -1)
    &&& (p.pattern_type == PatternType::Strided ==> p.stride != 0)
    &&& (p.pattern_type == PatternType::Repeated <==> p.repeat_len >= 2)
    &&& p.confidence <= CONFIDENCE_SCALE
    &&& p.frequency >= 1
    &&& MIN_WINDOW <= p.window_size
}

/// The largest window a descriptor may grow to under a configured maximum:
/// the maximum itself, but never below the smallest window.
pub open spec fn window_cap(max_window_size: usize) -> usize {
    if max_window_size > MIN_WINDOW {
        max_window_size
    } else {
        MIN_WINDOW
    }
}

/// No address occurs twice in the sequence.
pub open spec fn no_dups(s: Seq<i32>) -> bool {
    forall|i: int, j: int| 0 <= i < j < s.len() ==> s[i] != s[j]
}

/// What extrapolation by a stride guarantees: at most `window` predictions,
/// each within the address bounds; with a positive stride every prediction
/// exceeds the base address and the sequence strictly increases, with a
/// negative stride the mirror image holds; and an even stride preserves the
/// base address's parity, so a stride-two stream is predicted on its own
/// parity.
pub proof fn lemma_stride_preds_props(addr: int, s: int, w: nat)
    ensures
        stride_preds(addr, s, w).len() <= w,
        forall|k: int|
            0 <= k < stride_preds(addr, s, w).len() ==> addr_in_bounds(
                #[trigger] stride_preds(addr, s, w)[k] as int,
            ),
        s >= 1 ==> forall|k: int|
            0 <= k < stride_preds(addr, s, w).len() ==> #[trigger] stride_preds(addr, s, w)[k]
                > addr,
        s <= -1 ==> forall|k: int|
            0 <= k < stride_preds(addr, s, w).len() ==> #[trigger] stride_preds(addr, s, w)[k]
                < addr,
        s >= 1 ==> forall|i: int, j: int|
            0 <= i < j < stride_preds(addr, s, w).len() ==> stride_preds(addr, s, w)[i]
                < stride_preds(addr, s, w)[j],
        s <= -1 ==> forall|i: int, j: int|
            0 <= i < j < stride_preds(addr, s, w).len() ==> stride_preds(addr, s, w)[i]
                > stride_preds(addr, s, w)[j],
        s % 2 == 0 ==> forall|k: int|
            0 <= k < stride_preds(addr, s, w).len() ==> (#[trigger] stride_preds(addr, s, w)[k])
                % 2 == addr % 2,
    decreases w,
{
    if w > 0 {
        let next = addr + s;
        if addr_in_bounds(next) {
            lemma_stride_preds_props(next, s, (w - 1) as nat);
            let rest = stride_preds(next, s, (w - 1) as nat);
            let ps = stride_preds(addr, s, w);
            assert(ps[0] == next as i32);
            assert(forall|k: int| 1 <= k < ps.len() ==> ps[k] == rest[k - 1]);
            if s % 2 == 0 {
                assert(next % 2 == addr % 2) by {
                    vstd::arithmetic::div_mod::lemma_add_mod_noop(addr, s, 2);
                }
            }
        }
    }
}

/// Predictions extrapolated by a non-zero stride never repeat an address.
pub proof fn lemma_stride_preds_no_dups(addr: int, s: int, w: nat)
    requires
        s != 0,
    ensures
        no_dups(stride_preds(addr, s, w)),
{
    lemma_stride_preds_props(addr, s, w);
}

/// The cycle walk keeps its accumulator free of duplicates and never drops
/// what was already collected.
pub proof fn lemma_repeat_preds_loop_props(h: Seq<i32>, start: int, window: int, i: int, acc: Seq<i32>)
    ensures
        no_dups(acc) ==> no_dups(repeat_preds_loop(h, start, window, i, acc)),
        repeat_preds_loop(h, start, window, i, acc).len() >= acc.len(),
    decreases window - i,
{
    if i >= window || start + i < 0 || start + i >= h.len() {
    } else {
        let v = h[start + i];
        let acc2 = if acc.contains(v) {
            acc
        } else {
            acc.push(v)
        };
        assert(no_dups(acc) ==> no_dups(acc2));
        lemma_repeat_preds_loop_props(h, start, window, i + 1, acc2);
    }
}

/// A detected cycle always yields at least one prediction: the address that
/// followed the previous occurrence of the current position.
pub proof fn lemma_repeat_preds_nonempty(h: Seq<i32>, repeat_len: int, window: int)
    requires
        1 <= repeat_len <= h.len(),
        window >= 1,
    ensures
        repeat_preds(h, repeat_len, window).len() >= 1,
{
    let start = h.len() - repeat_len;
    let v = h[start];
    assert(!Seq::<i32>::empty().contains(v));
    lemma_repeat_preds_loop_props(h, start, window, 1, Seq::<i32>::empty().push(v));
}

/// A descriptor whose stride agrees with its shape never emits the same
/// address twice in one batch.
pub proof fn lemma_preds_spec_no_dups(p: AccessPattern, addr: i32, h: Seq<i32>)
    requires
        p.pattern_type == PatternType::Sequential ==> p.stride != 0,
        p.pattern_type == PatternType::Strided ==> p.stride != 0,
    ensures
        no_dups(preds_spec(p, addr, h)),
{
    match p.pattern_type {
        PatternType::Sequential => {
            lemma_stride_preds_no_dups(addr as int, p.stride as int, p.window_size as nat);
        },
        PatternType::Strided => {
            lemma_stride_preds_no_dups(addr as int, p.stride as int, p.window_size as nat);
        },
        PatternType::Repeated => {
            lemma_repeat_preds_loop_props(
                h,
                h.len() - p.repeat_len,
                p.window_size as int,
                0,
                Seq::<i32>::empty(),
            );
        },
        PatternType::Unknown => {},
    }
}

/// Scan a vector for an address.
pub(crate) fn contains_val(v: &Vec<i32>, x: i32) -> (b: bool)
    ensures
        b == v@.contains(x),
{
    let mut i: usize = 0;
    while i < v.len()
        invariant
            i <= v@.len(),
            forall|k: int| 0 <= k < i ==> v@[k] != x,
        decreases v@.len() - i,
    {
        if v[i] == x {
            return true;
        }
        i = i + 1;
    }
    false
}

impl AccessPattern {
    /// Create the descriptor for an address seen for the first time.
    pub fn new(shape: Classification, min_confidence: u32) -> (p: AccessPattern)
        ensures
            p == fresh_spec(shape, min_confidence),
    {
        AccessPattern {
            pattern_type: shape.pattern_type,
            stride: shape.stride,
            frequency: 1,
            confidence: min_confidence,
            window_size: MIN_WINDOW,
            repeat_len: shape.repeat_len,
        }
    }

    /// Refresh the descriptor after one more access to its address.
    pub fn update(&mut self, shape: Classification, feedback: Feedback, max_window_size: usize)
        requires
            old(self).confidence <= CONFIDENCE_SCALE,
        ensures
            *final(self) == updated_spec(*old(self), shape, feedback, max_window_size),
    {
        match feedback {
            Feedback::Hit => {
                self.confidence = self.confidence * 4 / 5 + HIT_BOOST;
                if self.confidence > GROW_CONFIDENCE && self.window_size < max_window_size {
                    self.window_size = self.window_size + 1;
                }
            },
            Feedback::Miss => {
                self.confidence = self.confidence * 4 / 5;
                if self.window_size > MIN_WINDOW {
                    self.window_size = self.window_size - 1;
                }
            },
            Feedback::Idle => {},
        }
        if self.frequency < u32::MAX {
            self.frequency = self.frequency + 1;
        }
        self.pattern_type = shape.pattern_type;
        self.stride = shape.stride;
        self.repeat_len = shape.repeat_len;
    }

    /// Generate the predicted next addresses for the address this descriptor
    /// was just refreshed by, reading the access history that ends in that
    /// address. Extrapolation that would overflow the address domain or pass
    /// the sanity ceiling is suppressed rather than wrapped.
    #[verifier::loop_isolation(false)]
    pub fn generate_predictions(&self, address: i32, history: &Vec<i32>) -> (preds: Vec<i32>)
        requires
            -STRIDE_LIMIT <= self.stride <= STRIDE_LIMIT,
            self.pattern_type == PatternType::Repeated ==> self.repeat_len <= history@.len(),
        ensures
            preds@ == preds_spec(*self, address, history@),
    {
        let mut preds: Vec<i32> = Vec::new();
        match self.pattern_type {
            PatternType::Sequential | PatternType::Strided => {
                let window = self.window_size;
                let mut next: i64 = address as i64;
                let mut k: usize = 0;
                while k < window && i32::MIN as i64 <= next + self.stride && next + self.stride
                    <= PREDICTION_CEILING as i64
                    invariant
                        k <= window,
                        i32::MIN as i64 <= next <= i32::MAX as i64,
                        stride_preds(address as int, self.stride as int, window as nat) == preds@
                            + stride_preds(next as int, self.stride as int, (window - k) as nat),
                    decreases window - k,
                {
                    let cand = next + self.stride;
                    proof {
                        let rest = stride_preds(
                            cand as int,
                            self.stride as int,
                            (window - k - 1) as nat,
                        );
                        assert(stride_preds(next as int, self.stride as int, (window - k) as nat)
                            =~= seq![cand as i32] + rest);
                        assert(preds@ + (seq![cand as i32] + rest) =~= preds@.push(cand as i32)
                            + rest);
                    }
                    preds.push(cand as i32);
                    next = cand;
                    k = k + 1;
                }
                proof {
                    let rest = stride_preds(next as int, self.stride as int, (window - k) as nat);
                    assert(rest =~= Seq::<i32>::empty());
                    assert(preds@ + rest =~= preds@);
                }
            },
            PatternType::Repeated => {
                let len = history.len();
                let start = len - self.repeat_len;
                let window = self.window_size;
                let steps = if window < len - start {
                    window
                } else {
                    len - start
                };
                let mut i: usize = 0;
                while i < steps
                    invariant
                        i <= steps,
                        repeat_preds(history@, self.repeat_len as int, window as int)
                            == repeat_preds_loop(
                            history@,
                            start as int,
                            window as int,
                            i as int,
                            preds@,
                        ),
                    decreases steps - i,
                {
                    let v = history[start + i];
                    if !contains_val(&preds, v) {
                        preds.push(v);
                    }
                    i = i + 1;
                }
                assert(repeat_preds_loop(
                    history@,
                    start as int,
                    window as int,
                    i as int,
                    preds@,
                ) == preds@);
            },
            PatternType::Unknown => {
                if self.stride != 0 {
                    let cand = address as i64 + self.stride;
                    if cand >= i32::MIN as i64 && cand <= PREDICTION_CEILING as i64 {
                        preds.push(cand as i32);
                        assert(preds@ =~= unknown_preds(address as int, self.stride as int));
                    }
                }
            },
        }
        preds
    }
}

} // verus!
