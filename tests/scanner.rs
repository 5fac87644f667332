use block_scanner::{
    Action, BlockResult, BlockScanner, BlockSource, Completion, FetchError, Log, ScanConfig,
    ScanError,
};

fn scanner(limit: usize, budget: u32, source: BlockSource) -> BlockScanner {
    BlockScanner::new(ScanConfig::new(limit, budget).unwrap(), source).unwrap()
}

fn launch(s: &mut BlockScanner) -> u64 {
    match s.next_action() {
        Action::Launch { height } => height,
        other => panic!("expected a launch, got {:?}", other),
    }
}

fn emit(s: &mut BlockScanner) -> BlockResult {
    match s.next_action() {
        Action::Emit(r) => r,
        other => panic!("expected an emission, got {:?}", other),
    }
}

fn logs_of(height: u64, n: u64) -> Vec<Log> {
    (0..n).map(|index| Log { height, index }).collect()
}

#[test]
fn slow_middle_height_is_emitted_in_order() {
    let mut s = scanner(3, 3, BlockSource::from_heights(vec![1, 2, 3]).unwrap());
    assert_eq!(launch(&mut s), 1);
    assert_eq!(launch(&mut s), 2);
    assert_eq!(launch(&mut s), 3);
    assert!(matches!(s.next_action(), Action::Wait));
    // Heights 1 and 3 finish first; 2 is slow.
    assert_eq!(s.complete(1, Ok(logs_of(1, 1))), Completion::Settled);
    assert_eq!(s.complete(3, Ok(logs_of(3, 2))), Completion::Settled);
    let r1 = emit(&mut s);
    assert_eq!(r1.height(), 1);
    // Height 3 is known, but 2 is not: the scanner waits.
    assert!(matches!(s.next_action(), Action::Wait));
    assert_eq!(s.complete(2, Ok(logs_of(2, 0))), Completion::Settled);
    let r2 = emit(&mut s);
    let r3 = emit(&mut s);
    assert_eq!(r2.height(), 2);
    assert_eq!(r3.height(), 3);
    match r3 {
        BlockResult::Success { logs, .. } => assert_eq!(logs, logs_of(3, 2)),
        other => panic!("unexpected {:?}", other),
    }
    assert!(matches!(s.next_action(), Action::Finished));
    assert!(s.is_finished());
}

#[test]
fn permanent_error_is_emitted_and_scan_continues() {
    let mut s = scanner(2, 3, BlockSource::range(5, 7));
    assert_eq!(launch(&mut s), 5);
    assert_eq!(launch(&mut s), 6);
    assert_eq!(s.complete(5, Err(FetchError::Permanent)), Completion::Settled);
    match emit(&mut s) {
        BlockResult::Failure { height, error } => {
            assert_eq!(height, 5);
            assert_eq!(error, FetchError::Permanent);
        }
        other => panic!("unexpected {:?}", other),
    }
    assert!(matches!(s.next_action(), Action::Wait));
    assert_eq!(s.complete(6, Ok(Vec::new())), Completion::Settled);
    let r = emit(&mut s);
    assert_eq!(r.height(), 6);
    assert!(r.is_success());
    assert!(matches!(s.next_action(), Action::Finished));
}

#[test]
fn reversed_completion_order_keeps_emission_order() {
    let heights: Vec<u64> = vec![2, 4, 8, 16, 32];
    let mut s = scanner(5, 1, BlockSource::from_heights(heights.clone()).unwrap());
    for h in &heights {
        assert_eq!(launch(&mut s), *h);
    }
    for h in heights.iter().rev() {
        assert_eq!(s.complete(*h, Ok(Vec::new())), Completion::Settled);
    }
    let emitted: Vec<u64> = (0..5).map(|_| emit(&mut s).height()).collect();
    assert_eq!(emitted, heights);
    assert!(matches!(s.next_action(), Action::Finished));
}

#[test]
fn every_height_is_emitted_once() {
    let mut s = scanner(2, 2, BlockSource::range(10, 17));
    let mut emitted: Vec<u64> = Vec::new();
    let mut outstanding: Vec<u64> = Vec::new();
    loop {
        match s.next_action() {
            Action::Launch { height } => outstanding.push(height),
            Action::Emit(r) => emitted.push(r.height()),
            Action::Wait => {
                // Complete the newest outstanding fetch first.
                let h = outstanding.pop().unwrap();
                let outcome = if h % 3 == 0 { Err(FetchError::Permanent) } else { Ok(Vec::new()) };
                assert_eq!(s.complete(h, outcome), Completion::Settled);
            }
            Action::Finished => break,
        }
    }
    assert_eq!(emitted, (10..17).collect::<Vec<u64>>());
}

#[test]
fn in_flight_never_exceeds_concurrency_limit() {
    let limit: usize = 3;
    let mut s = scanner(limit, 1, BlockSource::range(0, 20));
    let mut outstanding: Vec<u64> = Vec::new();
    let mut emitted: usize = 0;
    loop {
        assert!(s.in_flight() <= limit);
        assert!(s.window_len() <= limit);
        match s.next_action() {
            Action::Launch { height } => outstanding.push(height),
            Action::Emit(_) => emitted += 1,
            Action::Wait => {
                let h = outstanding.remove(outstanding.len() / 2);
                s.complete(h, Ok(Vec::new()));
            }
            Action::Finished => break,
        }
        assert!(outstanding.len() <= limit);
    }
    assert_eq!(emitted, 20);
}

#[test]
fn window_is_full_before_waiting() {
    let mut s = scanner(3, 1, BlockSource::range(0, 10));
    for h in 0..3 {
        assert_eq!(launch(&mut s), h);
    }
    assert_eq!(s.in_flight(), 3);
    assert!(matches!(s.next_action(), Action::Wait));
    assert_eq!(s.complete(0, Ok(Vec::new())), Completion::Settled);
    assert_eq!(s.in_flight(), 2);
    assert_eq!(s.window_len(), 3);
    // The settled front height frees its slot only once it is emitted.
    assert_eq!(emit(&mut s).height(), 0);
    assert_eq!(launch(&mut s), 3);
}

#[test]
fn transient_failures_within_budget_then_success() {
    let mut s = scanner(1, 3, BlockSource::range(7, 8));
    assert_eq!(launch(&mut s), 7);
    assert_eq!(s.complete(7, Err(FetchError::Transient)), Completion::Retry { attempt: 2 });
    assert_eq!(s.complete(7, Err(FetchError::Transient)), Completion::Retry { attempt: 3 });
    assert_eq!(s.complete(7, Ok(logs_of(7, 1))), Completion::Settled);
    let r = emit(&mut s);
    assert!(r.is_success());
    assert_eq!(r.height(), 7);
}

#[test]
fn transient_failures_exhaust_budget() {
    let mut s = scanner(1, 3, BlockSource::range(7, 9));
    assert_eq!(launch(&mut s), 7);
    let mut attempts: u32 = 1;
    loop {
        match s.complete(7, Err(FetchError::Transient)) {
            Completion::Retry { attempt } => {
                attempts += 1;
                assert_eq!(attempt, attempts);
            }
            Completion::Settled => break,
            Completion::Unknown => panic!("height 7 should be awaited"),
        }
    }
    assert_eq!(attempts, 3);
    match emit(&mut s) {
        BlockResult::Failure { height, error } => {
            assert_eq!(height, 7);
            assert_eq!(error, FetchError::Transient);
        }
        other => panic!("unexpected {:?}", other),
    }
    // The scan goes on after the failure.
    assert_eq!(launch(&mut s), 8);
}

#[test]
fn zero_retry_budget_still_makes_one_attempt() {
    let mut s = scanner(1, 0, BlockSource::range(1, 2));
    assert_eq!(launch(&mut s), 1);
    assert_eq!(s.complete(1, Err(FetchError::Transient)), Completion::Settled);
    assert!(!emit(&mut s).is_success());
}

#[test]
fn cancel_stops_launches() {
    let mut s = scanner(3, 3, BlockSource::range(0, 100));
    for h in 0..3 {
        assert_eq!(launch(&mut s), h);
    }
    assert_eq!(s.complete(0, Ok(Vec::new())), Completion::Settled);
    assert_eq!(emit(&mut s).height(), 0);
    assert_eq!(launch(&mut s), 3);
    assert_eq!(s.complete(2, Ok(Vec::new())), Completion::Settled);
    let abandoned = s.cancel();
    assert_eq!(abandoned, 2);
    assert!(abandoned <= 3);
    assert!(s.is_cancelled());
    assert!(s.is_finished());
    assert_eq!(s.in_flight(), 0);
    assert!(matches!(s.next_action(), Action::Finished));
    // Late completions of abandoned fetches are ignored.
    assert_eq!(s.complete(1, Ok(Vec::new())), Completion::Unknown);
    assert!(matches!(s.next_action(), Action::Finished));
}

#[test]
fn unknown_and_settled_heights_are_ignored() {
    let mut s = scanner(2, 3, BlockSource::range(1, 3));
    assert_eq!(launch(&mut s), 1);
    assert_eq!(s.complete(9, Ok(Vec::new())), Completion::Unknown);
    assert_eq!(s.complete(1, Err(FetchError::Permanent)), Completion::Settled);
    assert_eq!(s.complete(1, Ok(Vec::new())), Completion::Unknown);
    assert_eq!(launch(&mut s), 2);
    match emit(&mut s) {
        BlockResult::Failure { height: 1, error: FetchError::Permanent } => {}
        other => panic!("unexpected {:?}", other),
    }
}

#[test]
fn zero_concurrency_is_refused() {
    assert_eq!(ScanConfig::new(0, 3), Err(ScanError::ZeroConcurrency));
    let bad = ScanConfig { concurrency_limit: 0, retry_budget: 3 };
    assert!(matches!(
        BlockScanner::new(bad, BlockSource::range(0, 4)),
        Err(ScanError::ZeroConcurrency)
    ));
}

#[test]
fn unordered_heights_are_refused() {
    assert!(matches!(BlockSource::from_heights(vec![3, 2]), Err(ScanError::UnorderedHeights)));
    assert!(matches!(BlockSource::from_heights(vec![1, 1]), Err(ScanError::UnorderedHeights)));
    assert!(BlockSource::from_heights(vec![]).is_ok());
    assert!(BlockSource::from_heights(vec![0, u64::MAX]).is_ok());
}

#[test]
fn empty_source_finishes_at_once() {
    let mut s = scanner(4, 3, BlockSource::range(9, 9));
    assert!(s.is_finished());
    assert!(matches!(s.next_action(), Action::Finished));
    let mut r = BlockSource::range(9, 3);
    assert!(r.is_exhausted());
    assert_eq!(r.next_height(), None);
}

#[test]
fn sources_hand_out_heights_in_order() {
    let mut r = BlockSource::range(u64::MAX - 2, u64::MAX);
    assert_eq!(r.next_height(), Some(u64::MAX - 2));
    assert_eq!(r.next_height(), Some(u64::MAX - 1));
    assert_eq!(r.next_height(), None);
    let mut l = BlockSource::from_heights(vec![4, 9]).unwrap();
    assert!(!l.is_exhausted());
    assert_eq!(l.next_height(), Some(4));
    assert_eq!(l.next_height(), Some(9));
    assert!(l.is_exhausted());
}

#[test]
fn default_config_values() {
    let c = ScanConfig::default();
    assert_eq!(c.concurrency_limit, 8);
    assert_eq!(c.retry_budget, 3);
    assert_eq!(ScanConfig::new(2, 0), Ok(ScanConfig { concurrency_limit: 2, retry_budget: 0 }));
}
