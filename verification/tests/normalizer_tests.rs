use semantic_map::normalizer::{Normalizer, Step, FLUSH_CADENCE, RETRY_BUDGET};

/// Drives a run to completion with a model that answers `model:<index>` for
/// record `index`, and returns the produced taglines, the cache-file writes
/// (processed count at the write, lines written), and the indices for which
/// the model was called.
fn drive(
    total: usize,
    cached: Vec<String>,
) -> (Vec<String>, Vec<(usize, Vec<String>)>, Vec<usize>) {
    let mut n = Normalizer::new(total, cached);
    let mut flushes: Vec<(usize, Vec<String>)> = Vec::new();
    let mut model_calls: Vec<usize> = Vec::new();
    loop {
        match n.next_step() {
            Step::UseCache => n.use_cached(),
            Step::CallModel => {
                let i = n.current_index();
                model_calls.push(i);
                n.model_succeeded(format!("model:{}", i));
            }
            Step::Flush => {
                let at = n.current_index();
                let lines = n.take_flush();
                flushes.push((at, lines));
            }
            Step::Done => break,
        }
    }
    (n.into_taglines(), flushes, model_calls)
}

#[test]
fn empty_input_is_done_at_once() {
    let n = Normalizer::new(0, Vec::new());
    assert_eq!(n.next_step(), Step::Done);
    let taglines = n.into_taglines();
    assert!(taglines.is_empty());
}

#[test]
fn cadence_and_budget_constants() {
    assert_eq!(FLUSH_CADENCE, 10);
    assert_eq!(RETRY_BUDGET, 10);
}

#[test]
fn warm_cache_issues_no_model_calls() {
    let cached = vec![
        "Alpha tagline".to_string(),
        "Beta tagline".to_string(),
        "Gamma tagline".to_string(),
    ];
    let (taglines, flushes, model_calls) = drive(3, cached.clone());
    assert_eq!(model_calls, Vec::<usize>::new());
    assert_eq!(flushes.len(), 0);
    assert_eq!(taglines, cached);
}

#[test]
fn warm_cache_second_run_matches_first() {
    // A cold run over two records, then a second run fed with the cache the
    // first run flushed: the second issues zero model calls and reproduces
    // the first run's taglines exactly.
    let (first, flushes, calls_first) = drive(2, Vec::new());
    assert_eq!(calls_first, vec![0, 1]);
    let file = flushes.last().unwrap().1.clone();
    assert_eq!(file, first);
    let (second, flushes2, calls_second) = drive(2, file);
    assert_eq!(calls_second, Vec::<usize>::new());
    assert_eq!(flushes2.len(), 0);
    assert_eq!(second, first);
}

#[test]
fn partial_resume_calls_model_only_past_cache() {
    let cached = vec!["cached:0".to_string(), "cached:1".to_string()];
    let (taglines, flushes, model_calls) = drive(5, cached.clone());
    assert_eq!(model_calls, vec![2, 3, 4]);
    assert_eq!(taglines.len(), 5);
    assert_eq!(&taglines[0], "cached:0");
    assert_eq!(&taglines[1], "cached:1");
    assert_eq!(&taglines[2], "model:2");
    assert_eq!(&taglines[3], "model:3");
    assert_eq!(&taglines[4], "model:4");
    // The single final flush keeps the cached prefix untouched.
    assert_eq!(flushes.len(), 1);
    let (at, lines) = &flushes[0];
    assert_eq!(*at, 5);
    assert_eq!(lines[0], "cached:0");
    assert_eq!(lines[1], "cached:1");
    assert_eq!(lines.len(), 5);
}

#[test]
fn flush_boundaries_at_cadence_and_remainder() {
    // 25 new (uncached) records with a cadence of 10: the cache file is
    // written after records 9, 19 and 24, each write holding every newly
    // normalized entry up to that point.
    let (taglines, flushes, model_calls) = drive(25, Vec::new());
    assert_eq!(taglines.len(), 25);
    assert_eq!(model_calls.len(), 25);
    let write_points: Vec<usize> = flushes.iter().map(|f| f.0).collect();
    assert_eq!(write_points, vec![10, 20, 25]);
    assert_eq!(flushes[0].1.len(), 10);
    assert_eq!(flushes[1].1.len(), 20);
    assert_eq!(flushes[2].1.len(), 25);
    for (k, f) in flushes.iter().enumerate() {
        for (i, line) in f.1.iter().enumerate() {
            assert_eq!(line, &format!("model:{}", i), "flush {} line {}", k, i);
        }
    }
}

#[test]
fn exact_multiple_of_cadence_has_no_extra_flush() {
    let (taglines, flushes, _) = drive(20, Vec::new());
    assert_eq!(taglines.len(), 20);
    let write_points: Vec<usize> = flushes.iter().map(|f| f.0).collect();
    assert_eq!(write_points, vec![10, 20]);
}

#[test]
fn retry_budget_exhaustion_aborts_and_keeps_flushes() {
    // Eleven records: the first ten succeed and are flushed at the cadence
    // boundary; the eleventh fails on all attempts. The run aborts without
    // an artifact, but the earlier flush persists untouched.
    let mut n = Normalizer::new(11, Vec::new());
    for i in 0..10 {
        assert_eq!(n.next_step(), Step::CallModel);
        n.model_succeeded(format!("model:{}", i));
    }
    assert_eq!(n.next_step(), Step::Flush);
    let file = n.take_flush();
    assert_eq!(n.next_step(), Step::CallModel);
    let mut exhausted = false;
    let mut attempts = 0;
    while !exhausted {
        assert_eq!(n.next_step(), Step::CallModel);
        exhausted = n.model_failed();
        attempts += 1;
        assert!(attempts <= 10);
    }
    // The budget allows exactly ten attempts.
    assert_eq!(attempts, 10);
    // Earlier flushed lines are exactly the ten successes.
    assert_eq!(file.len(), 10);
    for (i, line) in file.iter().enumerate() {
        assert_eq!(line, &format!("model:{}", i));
    }
}

#[test]
fn failures_then_success_keep_alignment() {
    let mut n = Normalizer::new(1, Vec::new());
    assert_eq!(n.next_step(), Step::CallModel);
    for _ in 0..9 {
        let exhausted = n.model_failed();
        assert!(!exhausted);
        assert_eq!(n.next_step(), Step::CallModel);
    }
    n.model_succeeded("finally".to_string());
    assert_eq!(n.next_step(), Step::Flush);
    let lines = n.take_flush();
    assert_eq!(lines, vec!["finally".to_string()]);
    assert_eq!(n.next_step(), Step::Done);
    let taglines = n.into_taglines();
    assert_eq!(taglines, vec!["finally".to_string()]);
}

#[test]
fn cache_longer_than_input_never_flushes() {
    let cached = vec!["a".to_string(), "b".to_string(), "c".to_string()];
    let (taglines, flushes, model_calls) = drive(2, cached);
    assert_eq!(taglines, vec!["a".to_string(), "b".to_string()]);
    assert_eq!(flushes.len(), 0);
    assert_eq!(model_calls.len(), 0);
}
