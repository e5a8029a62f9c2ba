//! Laws of the engine, proved once and for all: what a fresh engine reports,
//! how forward patterns relate predictions to their trigger, that detected
//! cycles always predict, that accuracy is consistent, that the engine is
//! deterministic, and that no batch repeats an address.

use vstd::prelude::*;
use crate::classify::{classify_spec, lemma_classify_spec_wf, lemma_uniform_stride_classifies, stride_at};
use crate::engine::{
    accuracy_spec, init_model, step_emits, step_entry, step_history, step_model, step_preds,
    step_training, threshold_spec, wf, Model, BASE_THRESHOLD,
};
use crate::pattern::{
    addr_in_bounds, fresh_spec, lemma_preds_spec_no_dups, lemma_repeat_preds_nonempty,
    lemma_stride_preds_props, no_dups, shape_wf, stride_preds, unknown_preds, window_cap,
    PatternType,
};

verus! {

/// A freshly constructed engine has judged nothing: no hits, no misses, and
/// an accuracy of zero, whatever the configuration.
pub proof fn lemma_fresh_engine_stats(history_size: usize, min_confidence: u32, max_window_size: usize)
    ensures
        init_model(history_size, min_confidence, max_window_size).hits == 0,
        init_model(history_size, min_confidence, max_window_size).misses == 0,
        accuracy_spec(
            init_model(history_size, min_confidence, max_window_size).hits,
            init_model(history_size, min_confidence, max_window_size).misses,
        ) == 0,
{
}

/// Accuracy is recomputed consistently from the counters alone: the exact
/// quotient (in thousandths) whenever anything was judged, zero otherwise,
/// and never above the scale.
pub proof fn lemma_accuracy_consistent(hits: u32, misses: u32)
    ensures
        hits + misses > 0 ==> accuracy_spec(hits, misses) == (hits as int) * 1000 / (
        hits as int + misses as int),
        hits + misses == 0 ==> accuracy_spec(hits, misses) == 0,
        accuracy_spec(hits, misses) <= 1000,
{
    if hits + misses > 0 {
        assert((hits as int) * 1000 / (hits as int + misses as int) <= 1000) by (nonlinear_arith)
            requires
                0 <= hits as int,
                0 < hits as int + misses as int,
        ;
    }
}

/// When the classifier reads a forward pattern out of the refreshed history —
/// a positive stride, not a repeated cycle — every prediction the access
/// emits is strictly greater than the address that produced it.
pub proof fn lemma_forward_predictions_exceed_trigger(m: Model, addr: i32)
    requires
        wf(m),
        classify_spec(step_history(m.history, m.history_size, addr)).stride >= 1,
        classify_spec(step_history(m.history, m.history_size, addr)).pattern_type
            != PatternType::Repeated,
    ensures
        forall|k: int|
            0 <= k < step_preds(m, addr).len() ==> #[trigger] step_preds(m, addr)[k] > addr,
{
    let h1 = step_history(m.history, m.history_size, addr);
    let shape = classify_spec(h1);
    let entry = step_entry(m, addr);
    assert(entry.pattern_type == shape.pattern_type && entry.stride == shape.stride);
    match entry.pattern_type {
        PatternType::Sequential | PatternType::Strided => {
            lemma_stride_preds_props(addr as int, entry.stride as int, entry.window_size as nat);
        },
        PatternType::Unknown => {
            assert(unknown_preds(addr as int, entry.stride as int).len() <= 1);
        },
        PatternType::Repeated => {},
    }
}

/// When the classifier reads an even stride out of the refreshed history,
/// every prediction the access emits keeps the triggering address's parity:
/// an even address on an even stride is only ever extended by even addresses.
pub proof fn lemma_even_stride_keeps_parity(m: Model, addr: i32)
    requires
        wf(m),
        classify_spec(step_history(m.history, m.history_size, addr)).stride % 2 == 0,
        classify_spec(step_history(m.history, m.history_size, addr)).pattern_type
            != PatternType::Repeated,
    ensures
        forall|k: int|
            0 <= k < step_preds(m, addr).len() ==> (#[trigger] step_preds(m, addr)[k] as int) % 2
                == (addr as int) % 2,
{
    let h1 = step_history(m.history, m.history_size, addr);
    let shape = classify_spec(h1);
    let entry = step_entry(m, addr);
    assert(entry.pattern_type == shape.pattern_type && entry.stride == shape.stride);
    match entry.pattern_type {
        PatternType::Sequential | PatternType::Strided => {
            lemma_stride_preds_props(addr as int, entry.stride as int, entry.window_size as nat);
        },
        PatternType::Unknown => {
            if entry.stride != 0 && addr_in_bounds(addr as int + entry.stride) {
                vstd::arithmetic::div_mod::lemma_add_mod_noop(addr as int, entry.stride as int, 2);
            }
        },
        PatternType::Repeated => {},
    }
}

/// When the classifier reads a repeated cycle out of the refreshed history
/// and the descriptor's confidence clears its threshold, the access emits at
/// least one prediction.
pub proof fn lemma_repeated_cycle_predicts(m: Model, addr: i32)
    requires
        wf(m),
        classify_spec(step_history(m.history, m.history_size, addr)).pattern_type
            == PatternType::Repeated,
        crate::engine::step_emits(m, addr),
    ensures
        step_preds(m, addr).len() >= 1,
{
    let h1 = step_history(m.history, m.history_size, addr);
    let shape = classify_spec(h1);
    let entry = step_entry(m, addr);
    lemma_classify_spec_wf(h1);
    assert(entry.pattern_type == shape.pattern_type && entry.repeat_len == shape.repeat_len);
    assert(entry.window_size >= 1);
    lemma_repeat_preds_nonempty(h1, entry.repeat_len as int, entry.window_size as int);
}

/// No batch repeats an address, and the emitted batch is exactly what stays
/// pending: a predicted address never equals one already pending from the
/// same access.
pub proof fn lemma_no_duplicate_emission(m: Model, addr: i32)
    requires
        wf(m),
    ensures
        no_dups(step_preds(m, addr)),
        step_model(m, addr).pending == step_preds(m, addr),
{
    let h1 = step_history(m.history, m.history_size, addr);
    let entry = step_entry(m, addr);
    lemma_classify_spec_wf(h1);
    lemma_preds_spec_no_dups(entry, addr, h1);
}

/// Feeding a run of one positive stride pays off. Once the history buffer has
/// filled (the training phase is over) and holds only transitions of stride
/// `s`, an access to an address not seen before — as every address of a
/// strictly increasing run is — emits at least one prediction whenever the
/// configured minimum confidence reaches the base threshold, which the
/// default configuration does. Every emitted prediction lies strictly beyond
/// the trigger, and on an even stride keeps the trigger's parity: an even
/// run is extended by even addresses only.
pub proof fn lemma_uniform_run_emits(m: Model, addr: i32, s: int)
    requires
        wf(m),
        1 <= s,
        !step_training(m, addr),
        !m.table.contains_key(addr),
        m.min_confidence >= BASE_THRESHOLD,
        step_history(m.history, m.history_size, addr).len() >= 2,
        forall|i: int|
            1 <= i < step_history(m.history, m.history_size, addr).len() ==> stride_at(
                step_history(m.history, m.history_size, addr),
                i,
            ) == s,
        addr_in_bounds(addr as int + s),
    ensures
        step_preds(m, addr).len() >= 1,
        forall|k: int|
            0 <= k < step_preds(m, addr).len() ==> #[trigger] step_preds(m, addr)[k] > addr,
        s % 2 == 0 ==> forall|k: int|
            0 <= k < step_preds(m, addr).len() ==> (#[trigger] step_preds(m, addr)[k] as int) % 2
                == (addr as int) % 2,
{
    let h1 = step_history(m.history, m.history_size, addr);
    lemma_uniform_stride_classifies(h1, s);
    let shape = classify_spec(h1);
    let entry = step_entry(m, addr);
    assert(entry == fresh_spec(shape, m.min_confidence));
    assert(threshold_spec(entry.pattern_type, entry.frequency, step_training(m, addr))
        == BASE_THRESHOLD);
    assert(step_emits(m, addr));
    assert(entry.stride as int == s);
    lemma_stride_preds_props(addr as int, s, entry.window_size as nat);
    assert(stride_preds(addr as int, s, entry.window_size as nat).len() >= 1);
}

/// The engine state after a whole feed of addresses.
pub open spec fn run_model(m: Model, addrs: Seq<i32>) -> Model
    decreases addrs.len(),
{
    if addrs.len() == 0 {
        m
    } else {
        run_model(step_model(m, addrs[0]), addrs.drop_first())
    }
}

/// The prediction batches a whole feed of addresses emits, in order.
pub open spec fn run_outputs(m: Model, addrs: Seq<i32>) -> Seq<Seq<i32>>
    decreases addrs.len(),
{
    if addrs.len() == 0 {
        Seq::empty()
    } else {
        seq![step_preds(m, addrs[0])] + run_outputs(step_model(m, addrs[0]), addrs.drop_first())
    }
}

/// One access keeps the engine well-formed: the history stays within its
/// bound, every descriptor keeps agreeing with its shape and window bounds,
/// and the pending predictions stay free of duplicates.
pub proof fn lemma_step_preserves_wf(m: Model, addr: i32)
    requires
        wf(m),
    ensures
        wf(step_model(m, addr)),
{
    let h1 = step_history(m.history, m.history_size, addr);
    let entry = step_entry(m, addr);
    let m1 = step_model(m, addr);
    lemma_classify_spec_wf(h1);
    lemma_no_duplicate_emission(m, addr);
    assert forall|a: i32| #[trigger] m1.table.contains_key(a) implies shape_wf(m1.table[a])
        && m1.table[a].window_size <= window_cap(m1.max_window_size) by {
        if a != addr {
            assert(m.table.contains_key(a) && m1.table[a] == m.table[a]);
        }
    }
}

/// A whole feed keeps the engine well-formed.
pub proof fn lemma_run_preserves_wf(m: Model, addrs: Seq<i32>)
    requires
        wf(m),
    ensures
        wf(run_model(m, addrs)),
    decreases addrs.len(),
{
    if addrs.len() > 0 {
        lemma_step_preserves_wf(m, addrs[0]);
        lemma_run_preserves_wf(step_model(m, addrs[0]), addrs.drop_first());
    }
}

/// Construction is idempotent and the engine deterministic: two engines in
/// equal states fed equal address sequences end in equal states and emit
/// equal prediction sequences. The contract of `access` ties each engine's
/// evolution to `step_model` and `step_preds`, pure functions of state and
/// input alone, so equal feeds can never diverge.
pub proof fn lemma_engine_deterministic(m1: Model, m2: Model, addrs1: Seq<i32>, addrs2: Seq<i32>)
    requires
        m1 == m2,
        addrs1 == addrs2,
    ensures
        run_model(m1, addrs1) == run_model(m2, addrs2),
        run_outputs(m1, addrs1) == run_outputs(m2, addrs2),
{
}

/// One access keeps the engine's evolution in step with the run of the whole
/// feed: stepping the model by the feed's first address and running the rest
/// is running the feed itself.
pub proof fn lemma_run_unfold(m: Model, addrs: Seq<i32>)
    requires
        addrs.len() >= 1,
    ensures
        run_model(m, addrs) == run_model(step_model(m, addrs[0]), addrs.drop_first()),
        run_outputs(m, addrs) == seq![step_preds(m, addrs[0])] + run_outputs(
            step_model(m, addrs[0]),
            addrs.drop_first(),
        ),
{
}

} // verus!

