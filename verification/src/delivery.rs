//! Best-effort delivery of prediction batches over a bounded asynchronous
//! channel. The engine never waits on the consumer: a batch that finds the
//! channel full or closed is dropped, so the access path cannot stall.

use vstd::prelude::*;
use crate::pattern::PatternType;

verus! {

/// One batch of predictions, as handed to the delivery channel: the address
/// that triggered it, the predicted next addresses, and the shape and
/// confidence (in thousandths) of the emitting descriptor.
#[derive(Debug)]
pub struct PredictionBatch {
    pub address: i32,
    pub predictions: Vec<i32>,
    pub pattern_type: PatternType,
    pub confidence: u32,
}

#[verifier::external_type_specification]
#[verifier::external_body]
#[verifier::reject_recursive_types(T)]
pub struct ExSender<T>(tokio::sync::mpsc::Sender<T>);

#[verifier::external_type_specification]
#[verifier::external_body]
#[verifier::reject_recursive_types(T)]
pub struct ExReceiver<T>(tokio::sync::mpsc::Receiver<T>);

/// Relies on `tokio::sync::mpsc::channel`: creates a bounded channel pair of
/// capacity 100. The call panics only on a zero capacity, so the fixed
/// positive capacity keeps it total. Nothing is assumed about the pair:
/// delivery is best-effort and the contracts of the engine say nothing of it.
#[verifier::external_body]
pub(crate) fn prediction_channel() -> (
    tokio::sync::mpsc::Sender<PredictionBatch>,
    tokio::sync::mpsc::Receiver<PredictionBatch>,
) {
    tokio::sync::mpsc::channel(100)
}

/// Relies on `tokio::sync::mpsc::Sender::try_send`: hands the batch to the
/// channel without blocking and reports full or closed channels through its
/// result, which is deliberately discarded — a batch that cannot be delivered
/// is dropped. Nothing is assumed of the outcome.
#[verifier::external_body]
pub(crate) fn try_send_batch(tx: &tokio::sync::mpsc::Sender<PredictionBatch>, batch: PredictionBatch) {
    let _ = tx.try_send(batch);
}

} // verus!
