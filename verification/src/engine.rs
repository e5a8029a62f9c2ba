//! The predictive prefetcher engine: the bounded access history, the
//! per-address descriptor table, the adaptive emission threshold, prediction
//! emission, and the hit/miss feedback loop that closes the learning cycle.

use vstd::prelude::*;
use std::collections::HashMap;
use crate::CONFIDENCE_SCALE;
use crate::classify::{classify, classify_spec, lemma_classify_spec_wf};
use crate::delivery::{prediction_channel, try_send_batch, PredictionBatch};
use crate::pattern::{
    contains_val, fresh_spec, lemma_preds_spec_no_dups, no_dups, preds_spec, sat_inc, shape_wf,
    updated_spec, window_cap, AccessPattern, Feedback, PatternType,
};

verus! {

broadcast use vstd::std_specs::hash::group_hash_axioms;

/// Why a configuration was rejected at construction.
#[derive(Clone, Copy, Debug, PartialEq, Eq, Structural)]
pub enum ConfigError {
    /// A zero-length history makes pattern detection meaningless.
    ZeroHistorySize,
    /// A zero window could never emit a prediction.
    ZeroMaxWindowSize,
    /// A minimum confidence above the scale could never be reached.
    MinConfidenceOutOfRange,
}

/// Default minimum confidence (in thousandths) seeded into new descriptors.
pub const DEFAULT_MIN_CONFIDENCE: u32 = 200;

/// Default bound on how far a descriptor's window may grow.
pub const DEFAULT_MAX_WINDOW: usize = 4;

/// Emission threshold (in thousandths) for a descriptor of unknown shape:
/// the strictest, since such a prediction is a bare guess.
pub const UNKNOWN_THRESHOLD: u32 = 300;

/// Emission threshold (in thousandths) for a recognised shape that has not
/// yet recurred often.
pub const BASE_THRESHOLD: u32 = 200;

/// Emission threshold (in thousandths) for a recognised shape whose address
/// has recurred more than [`TRUST_FREQUENCY`] times.
pub const TRUSTED_THRESHOLD: u32 = 150;

/// How often an address must have recurred before its descriptor is trusted
/// with the looser threshold.
pub const TRUST_FREQUENCY: u32 = 3;

/// Added (in thousandths) to every threshold while the engine is still in its
/// training phase, before the history buffer has filled once.
pub const TRAINING_PENALTY: u32 = 100;

/// The abstract state of the engine. The delivery channel is not part of it:
/// delivery is best-effort and never affects what the engine predicts or
/// counts.
pub ghost struct Model {
    /// The most recent addresses, oldest first, at most `history_size` long.
    pub history: Seq<i32>,
    /// Learned descriptor of each address seen so far.
    pub table: Map<i32, AccessPattern>,
    /// The predictions emitted by the most recent access, still unconfirmed.
    pub pending: Seq<i32>,
    /// Capacity of the history buffer.
    pub history_size: usize,
    /// Accesses that matched a pending prediction.
    pub hits: u32,
    /// Accesses that matched none while predictions were pending.
    pub misses: u32,
    /// True until the history buffer has been filled once.
    pub training: bool,
    /// Confidence (in thousandths) seeded into new descriptors.
    pub min_confidence: u32,
    /// Bound on how far a descriptor's window may grow.
    pub max_window_size: usize,
}

/// Internal consistency of an engine state: a usable configuration, a history
/// within its bound, descriptors that agree with their shapes and stay inside
/// the window bounds, and pending predictions free of duplicates.
pub open spec fn wf(m: Model) -> bool {
    &&& m.history_size >= 1
    &&& m.history.len() <= m.history_size
    &&& m.min_confidence <= CONFIDENCE_SCALE
    &&& m.max_window_size >= 1
    &&& forall|a: i32| #[trigger]
        m.table.contains_key(a) ==> shape_wf(m.table[a]) && m.table[a].window_size <= window_cap(
            m.max_window_size,
        )
    &&& no_dups(m.pending)
}

/// The state of a freshly constructed engine.
pub open spec fn init_model(history_size: usize, min_confidence: u32, max_window_size: usize) -> Model {
    Model {
        history: Seq::empty(),
        table: Map::empty(),
        pending: Seq::empty(),
        history_size,
        hits: 0,
        misses: 0,
        training: true,
        min_confidence,
        max_window_size,
    }
}

/// Accuracy in thousandths: hits over all judged accesses, `0` before any
/// access was judged.
pub open spec fn accuracy_spec(hits: u32, misses: u32) -> u32 {
    if hits + misses > 0 {
        ((hits as int) * 1000 / (hits as int + misses as int)) as u32
    } else {
        0
    }
}

/// The emission threshold (in thousandths) a descriptor must reach: one pure
/// function of the shape, how often the address recurred, and whether the
/// engine is still training. Unknown shapes carry the strictest threshold,
/// recognised shapes that have recurred often a looser one, and the training
/// phase tightens every threshold.
pub open spec fn threshold_spec(pattern_type: PatternType, frequency: u32, training: bool) -> u32 {
    let base: u32 = if pattern_type == PatternType::Unknown {
        UNKNOWN_THRESHOLD
    } else if frequency > TRUST_FREQUENCY {
        TRUSTED_THRESHOLD
    } else {
        BASE_THRESHOLD
    };
    if training {
        (base + TRAINING_PENALTY) as u32
    } else {
        base
    }
}

/// Compute the emission threshold.
pub fn emit_threshold(pattern_type: PatternType, frequency: u32, training: bool) -> (t: u32)
    ensures
        t == threshold_spec(pattern_type, frequency, training),
{
    let base: u32 = match pattern_type {
        PatternType::Unknown => UNKNOWN_THRESHOLD,
        _ => if frequency > TRUST_FREQUENCY {
            TRUSTED_THRESHOLD
        } else {
            BASE_THRESHOLD
        },
    };
    if training {
        base + TRAINING_PENALTY
    } else {
        base
    }
}

/// How an access relates to the pending predictions: a hit if it matches one,
/// a miss if predictions were pending and none matched, nothing otherwise.
pub open spec fn feedback_of(pending: Seq<i32>, addr: i32) -> Feedback {
    if pending.contains(addr) {
        Feedback::Hit
    } else if pending.len() > 0 {
        Feedback::Miss
    } else {
        Feedback::Idle
    }
}

/// The history after recording an address: appended, and the oldest entry
/// evicted once the buffer would exceed its capacity.
pub open spec fn step_history(h: Seq<i32>, history_size: usize, addr: i32) -> Seq<i32> {
    let h1 = h.push(addr);
    if h1.len() > history_size {
        h1.remove(0)
    } else {
        h1
    }
}

/// The training flag after recording an address: cleared for good by the
/// first eviction.
pub open spec fn step_training(m: Model, addr: i32) -> bool {
    m.training && !(m.history.push(addr).len() > m.history_size)
}

/// The descriptor stored for the accessed address: refreshed from the
/// classifier and adjusted by the feedback when the address was seen before,
/// freshly seeded otherwise.
pub open spec fn step_entry(m: Model, addr: i32) -> AccessPattern {
    let shape = classify_spec(step_history(m.history, m.history_size, addr));
    let feedback = feedback_of(m.pending, addr);
    if m.table.contains_key(addr) {
        updated_spec(m.table[addr], shape, feedback, m.max_window_size)
    } else {
        fresh_spec(shape, m.min_confidence)
    }
}

/// Whether the access emits predictions: the refreshed descriptor's
/// confidence must reach its threshold.
pub open spec fn step_emits(m: Model, addr: i32) -> bool {
    step_entry(m, addr).confidence >= threshold_spec(
        step_entry(m, addr).pattern_type,
        step_entry(m, addr).frequency,
        step_training(m, addr),
    )
}

/// The predictions an access returns: the refreshed descriptor's predictions
/// when its confidence clears the threshold, nothing otherwise.
pub open spec fn step_preds(m: Model, addr: i32) -> Seq<i32> {
    if step_emits(m, addr) {
        preds_spec(step_entry(m, addr), addr, step_history(m.history, m.history_size, addr))
    } else {
        Seq::empty()
    }
}

/// The whole engine state after one access: a function of the previous state
/// and the address alone, which is what makes the engine deterministic.
pub open spec fn step_model(m: Model, addr: i32) -> Model {
    let feedback = feedback_of(m.pending, addr);
    Model {
        history: step_history(m.history, m.history_size, addr),
        table: m.table.insert(addr, step_entry(m, addr)),
        pending: step_preds(m, addr),
        history_size: m.history_size,
        hits: if feedback == Feedback::Hit {
            sat_inc(m.hits)
        } else {
            m.hits
        },
        misses: if feedback == Feedback::Miss {
            sat_inc(m.misses)
        } else {
            m.misses
        },
        training: step_training(m, addr),
        min_confidence: m.min_confidence,
        max_window_size: m.max_window_size,
    }
}

/// Copy a vector of addresses.
fn copy_addrs(v: &Vec<i32>) -> (r: Vec<i32>)
    ensures
        r@ == v@,
{
    let mut r: Vec<i32> = Vec::new();
    let mut i: usize = 0;
    while i < v.len()
        invariant
            i <= v@.len(),
            r@ == v@.subrange(0, i as int),
        decreases v@.len() - i,
    {
        r.push(v[i]);
        i = i + 1;
    }
    proof {
        assert(v@.subrange(0, v@.len() as int) =~= v@);
    }
    r
}

/// The predictive prefetcher engine. One instance views one address space;
/// concurrent callers must serialise externally.
pub struct PredictivePrefetcher {
    history: Vec<i32>,
    pattern_table: HashMap<i32, AccessPattern>,
    history_size: usize,
    hits: u32,
    misses: u32,
    pending: Vec<i32>,
    training: bool,
    min_confidence: u32,
    max_window_size: usize,
    prediction_tx: Option<tokio::sync::mpsc::Sender<PredictionBatch>>,
}

impl View for PredictivePrefetcher {
    type V = Model;

    closed spec fn view(&self) -> Model {
        Model {
            history: self.history@,
            table: self.pattern_table@,
            pending: self.pending@,
            history_size: self.history_size,
            hits: self.hits,
            misses: self.misses,
            training: self.training,
            min_confidence: self.min_confidence,
            max_window_size: self.max_window_size,
        }
    }
}

impl PredictivePrefetcher {
    /// Construct an engine with the default confidence and window
    /// configuration. The one degenerate configuration, a zero history size,
    /// is rejected.
    pub fn new(history_size: usize) -> (r: Result<PredictivePrefetcher, ConfigError>)
        ensures
            history_size >= 1 <==> r is Ok,
            r matches Ok(p) ==> p@ == init_model(
                history_size,
                DEFAULT_MIN_CONFIDENCE,
                DEFAULT_MAX_WINDOW,
            ) && wf(p@),
            history_size == 0 ==> (r matches Err(e) && e == ConfigError::ZeroHistorySize),
    {
        Self::with_config(history_size, DEFAULT_MIN_CONFIDENCE, DEFAULT_MAX_WINDOW)
    }

    /// Construct an engine with an explicit minimum confidence (in
    /// thousandths) and window bound. Degenerate configurations are rejected:
    /// a zero history size, a zero window bound, and a minimum confidence
    /// above the scale.
    pub fn with_config(history_size: usize, min_confidence: u32, max_window_size: usize) -> (r:
        Result<PredictivePrefetcher, ConfigError>)
        ensures
            (history_size >= 1 && max_window_size >= 1 && min_confidence <= CONFIDENCE_SCALE)
                <==> r is Ok,
            r matches Ok(p) ==> p@ == init_model(history_size, min_confidence, max_window_size)
                && wf(p@),
            history_size == 0 ==> (r matches Err(e) && e == ConfigError::ZeroHistorySize),
            history_size >= 1 && max_window_size == 0 ==> (r matches Err(e) && e
                == ConfigError::ZeroMaxWindowSize),
            history_size >= 1 && max_window_size >= 1 && min_confidence > CONFIDENCE_SCALE
                ==> (r matches Err(e) && e == ConfigError::MinConfidenceOutOfRange),
    {
        if history_size == 0 {
            return Err(ConfigError::ZeroHistorySize);
        }
        if max_window_size == 0 {
            return Err(ConfigError::ZeroMaxWindowSize);
        }
        if min_confidence > CONFIDENCE_SCALE {
            return Err(ConfigError::MinConfidenceOutOfRange);
        }
        let p = PredictivePrefetcher {
            history: Vec::new(),
            pattern_table: HashMap::new(),
            history_size,
            hits: 0,
            misses: 0,
            pending: Vec::new(),
            training: true,
            min_confidence,
            max_window_size,
            prediction_tx: None,
        };
        assert(p@.table =~= Map::<i32, AccessPattern>::empty());
        Ok(p)
    }

    /// Open the asynchronous delivery path: every later access hands its
    /// batch to the returned channel without blocking, dropping it when the
    /// channel is full or closed. Dropping the engine closes the channel, so
    /// a consumer's read loop terminates. The engine's observable state is
    /// untouched.
    pub fn start_async_predictor(&mut self) -> (rx: tokio::sync::mpsc::Receiver<PredictionBatch>)
        ensures
            final(self)@ == old(self)@,
    {
        let (tx, rx) = prediction_channel();
        self.prediction_tx = Some(tx);
        rx
    }

    /// Record one access and return the predicted next addresses. The whole
    /// transition is the pure function [`step_model`] of the previous state
    /// and the address: the access is judged against the pending predictions,
    /// the history and descriptor table are updated, and predictions are
    /// emitted exactly when the refreshed descriptor's confidence clears its
    /// threshold. The returned batch never repeats an address.
    #[verifier::rlimit(50)]
    pub fn access(&mut self, address: i32) -> (predictions: Vec<i32>)
        requires
            wf(old(self)@),
        ensures
            final(self)@ == step_model(old(self)@, address),
            predictions@ == step_preds(old(self)@, address),
            wf(final(self)@),
            no_dups(predictions@),
    {
        let ghost m0 = self@;

        // Judge the access against the pending predictions.
        let feedback = if contains_val(&self.pending, address) {
            Feedback::Hit
        } else if self.pending.len() > 0 {
            Feedback::Miss
        } else {
            Feedback::Idle
        };
        assert(feedback == feedback_of(m0.pending, address));
        match feedback {
            Feedback::Hit => if self.hits < u32::MAX {
                self.hits = self.hits + 1;
            },
            Feedback::Miss => if self.misses < u32::MAX {
                self.misses = self.misses + 1;
            },
            Feedback::Idle => {},
        }

        // Record the address, evicting the oldest entry once the buffer is
        // full; the first eviction ends the training phase.
        self.history.push(address);
        if self.history.len() > self.history_size {
            self.history.remove(0);
            self.training = false;
        }
        assert(self.history@ == step_history(m0.history, m0.history_size, address));
        assert(self.training == step_training(m0, address));

        // Classify the refreshed history and upsert the descriptor.
        let shape = classify(&self.history);
        proof {
            lemma_classify_spec_wf(self.history@);
        }
        let entry = match self.pattern_table.get(&address) {
            Some(p) => {
                let mut e = *p;
                e.update(shape, feedback, self.max_window_size);
                e
            },
            None => AccessPattern::new(shape, self.min_confidence),
        };
        assert(entry == step_entry(m0, address));
        self.pattern_table.insert(address, entry);

        // Emit predictions when the descriptor's confidence clears its
        // threshold.
        let threshold = emit_threshold(entry.pattern_type, entry.frequency, self.training);
        let predictions = if entry.confidence >= threshold {
            entry.generate_predictions(address, &self.history)
        } else {
            Vec::new()
        };
        assert(predictions@ == step_preds(m0, address));
        proof {
            lemma_preds_spec_no_dups(entry, address, self.history@);
        }
        self.pending = copy_addrs(&predictions);

        // Best-effort delivery of the batch.
        match &self.prediction_tx {
            Some(tx) => {
                let batch = PredictionBatch {
                    address,
                    predictions: copy_addrs(&predictions),
                    pattern_type: entry.pattern_type,
                    confidence: entry.confidence,
                };
                try_send_batch(tx, batch);
            },
            None => {},
        }

        predictions
    }

    /// The hit and miss counters, and the accuracy in thousandths:
    /// `hits * 1000 / (hits + misses)`, and `0` while nothing was judged.
    pub fn get_stats(&self) -> (r: (u32, u32, u32))
        ensures
            r.0 == self@.hits,
            r.1 == self@.misses,
            r.2 == accuracy_spec(self@.hits, self@.misses),
            r.2 <= 1000,
    {
        let total = self.hits as u64 + self.misses as u64;
        let accuracy = if total > 0 {
            let a = self.hits as u64 * 1000 / total;
            assert(a <= 1000) by {
                assert(self.hits as u64 <= total);
                assert(self.hits as int * 1000 / (total as int) <= 1000) by (nonlinear_arith)
                    requires
                        0 <= self.hits as int <= total as int,
                        total as int > 0,
                ;
            }
            a as u32
        } else {
            0
        };
        (self.hits, self.misses, accuracy)
    }
}

} // verus!
