use ml_prefetcher::{ConfigError, PredictivePrefetcher};
use tokio::sync::mpsc::error::TryRecvError;

#[test]
fn test_zero_history_size_rejected() {
    let r = PredictivePrefetcher::new(0);
    assert!(matches!(r, Err(ConfigError::ZeroHistorySize)));
    let r = PredictivePrefetcher::with_config(0, 200, 4);
    assert!(matches!(r, Err(ConfigError::ZeroHistorySize)));
}

#[test]
fn test_zero_max_window_rejected() {
    let r = PredictivePrefetcher::with_config(4, 200, 0);
    assert!(matches!(r, Err(ConfigError::ZeroMaxWindowSize)));
}

#[test]
fn test_min_confidence_out_of_range_rejected() {
    let r = PredictivePrefetcher::with_config(4, 1001, 4);
    assert!(matches!(r, Err(ConfigError::MinConfidenceOutOfRange)));
    assert!(PredictivePrefetcher::with_config(4, 1000, 4).is_ok());
}

#[test]
fn test_fresh_engine_stats_for_various_sizes() {
    for history_size in 1..10 {
        let prefetcher = PredictivePrefetcher::new(history_size).unwrap();
        let (hits, misses, accuracy_milli) = prefetcher.get_stats();
        assert_eq!((hits, misses, accuracy_milli), (0, 0, 0));
    }
}

#[test]
fn test_sequential_exact_predictions() {
    let mut p = PredictivePrefetcher::new(4).unwrap();
    // While the history has not been filled once the engine is training and
    // emits nothing.
    for i in 1..=4 {
        assert_eq!(p.access(i), vec![]);
    }
    // The first eviction ends the training phase; a run of consecutive
    // addresses is extrapolated two steps ahead.
    assert_eq!(p.access(5), vec![6, 7]);
    // The next access matches the pending prediction: a hit.
    assert_eq!(p.access(6), vec![7, 8]);
    let (hits, misses, accuracy_milli) = p.get_stats();
    assert_eq!((hits, misses, accuracy_milli), (1, 0, 1000));
}

#[test]
fn test_descending_sequence_predicts_downward() {
    let mut p = PredictivePrefetcher::new(4).unwrap();
    for &a in &[100, 99, 98, 97] {
        assert_eq!(p.access(a), vec![]);
    }
    assert_eq!(p.access(96), vec![95, 94]);
}

#[test]
fn test_strided_exact_predictions() {
    let mut p = PredictivePrefetcher::new(4).unwrap();
    for &a in &[0, 2, 4, 6] {
        assert_eq!(p.access(a), vec![]);
    }
    assert_eq!(p.access(8), vec![10, 12]);
    assert_eq!(p.access(10), vec![12, 14]);
    let (hits, misses, _) = p.get_stats();
    assert_eq!((hits, misses), (1, 0));
}

#[test]
fn test_repeated_cycle_predicts_from_history() {
    // A history of six holds two full turns of a three-cycle, so the
    // classifier reads a repeated pattern once the cycle has been seen twice.
    let mut p = PredictivePrefetcher::new(6).unwrap();
    for &a in &[1, 2, 3, 1, 2, 3] {
        assert_eq!(p.access(a), vec![]);
    }
    // The seventh access evicts, ends training, and the cycle predicts the
    // addresses that followed its previous occurrence.
    assert_eq!(p.access(1), vec![2, 3]);
    assert_eq!(p.access(2), vec![3, 1]);
    assert_eq!(p.access(3), vec![1, 2]);
    let (hits, misses, accuracy_milli) = p.get_stats();
    assert_eq!((hits, misses, accuracy_milli), (2, 0, 1000));
}

#[test]
fn test_window_grows_on_confident_cycle() {
    let mut p = PredictivePrefetcher::new(6).unwrap();
    let mut last = Vec::new();
    for _ in 0..5 {
        for &a in &[1, 2, 3] {
            last = p.access(a);
        }
    }
    // After repeated confirmed hits the descriptor's confidence passes the
    // growth threshold and the window stretches from two to three.
    assert_eq!(last, vec![1, 2, 3]);
    let (hits, misses, _) = p.get_stats();
    assert_eq!((hits, misses), (8, 0));
}

#[test]
fn test_accuracy_consistent_across_interleavings() {
    let mut p = PredictivePrefetcher::new(4).unwrap();
    let feed = [1, 2, 3, 4, 5, 100, 6, 7, 8, 100, 101, 102, 103, 104, 9];
    for &a in &feed {
        p.access(a);
        let (hits, misses, accuracy_milli) = p.get_stats();
        let expected = if hits + misses > 0 {
            (hits as u64 * 1000 / (hits as u64 + misses as u64)) as u32
        } else {
            0
        };
        assert_eq!(accuracy_milli, expected);
    }
    let (hits, misses, _) = p.get_stats();
    assert!(hits + misses > 0);
}

#[test]
fn test_identical_engines_stay_identical() {
    let mut a = PredictivePrefetcher::with_config(5, 300, 3).unwrap();
    let mut b = PredictivePrefetcher::with_config(5, 300, 3).unwrap();
    let feed = [7, 9, 11, 3, 3, 3, 13, 15, 17, 19, 2, 4, 6, 8];
    for &addr in &feed {
        assert_eq!(a.access(addr), b.access(addr));
    }
    assert_eq!(a.get_stats(), b.get_stats());
}

#[test]
fn test_no_duplicate_predictions_in_any_batch() {
    let mut p = PredictivePrefetcher::new(6).unwrap();
    let feed = [1, 2, 3, 1, 2, 3, 1, 2, 3, 5, 10, 15, 20, 25, 42, 42, 42, 7, 8, 9];
    for &addr in &feed {
        let preds = p.access(addr);
        for i in 0..preds.len() {
            for j in (i + 1)..preds.len() {
                assert_ne!(preds[i], preds[j], "a batch never repeats an address");
            }
        }
    }
}

#[test]
fn test_unknown_pattern_falls_back_to_last_stride() {
    // With the minimum confidence at the top of the scale even an unknown
    // pattern clears its strict threshold, and the single fallback guess is
    // one step of the most recent observed stride.
    let mut p = PredictivePrefetcher::with_config(4, 1000, 4).unwrap();
    assert_eq!(p.access(5), vec![]);
    assert_eq!(p.access(5), vec![]);
    assert_eq!(p.access(9), vec![13]);
}

#[test]
fn test_overflow_suppresses_predictions() {
    let mut p = PredictivePrefetcher::new(4).unwrap();
    // Addresses beyond half the representable range are never extrapolated
    // to: the run is recognised, but every candidate is suppressed.
    let base = i32::MAX - 5;
    for i in 0..4 {
        assert_eq!(p.access(base + i), vec![]);
    }
    assert_eq!(p.access(base + 4), vec![]);
    let (_, _, accuracy_milli) = p.get_stats();
    assert!(accuracy_milli <= 1000);
}

#[test]
fn test_async_predictor_delivers_batches() {
    let mut p = PredictivePrefetcher::new(4).unwrap();
    let mut rx = p.start_async_predictor();
    let mut returned = Vec::new();
    for i in 1..=6 {
        returned.push(p.access(i));
    }
    for i in 1..=6 {
        let batch = rx.try_recv().expect("a batch per access");
        assert_eq!(batch.address, i as i32);
        assert_eq!(&batch.predictions, &returned[i - 1]);
        assert!(batch.confidence <= 1000);
    }
    assert!(matches!(rx.try_recv(), Err(TryRecvError::Empty)));
    drop(p);
    assert!(matches!(rx.try_recv(), Err(TryRecvError::Disconnected)));
}
