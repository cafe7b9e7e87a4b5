use loadgen::config::TestType;
use loadgen::engine::{batch_sizes, watch_tick, Dispatcher, WatchStep};

#[test]
fn count_mode_batches_ten_by_three() {
    assert_eq!(batch_sizes(10, 3), vec![3, 3, 3, 1]);
}

#[test]
fn batches_without_remainder() {
    assert_eq!(batch_sizes(6, 3), vec![3, 3]);
    assert_eq!(batch_sizes(1, 1), vec![1]);
}

#[test]
fn dispatcher_count_mode_issues_plan_then_stops() {
    let mut d = Dispatcher::new(TestType::RequestCount, 10, 3);
    let mut sizes = Vec::new();
    // the clock does not end a count-bounded run
    while let Some(n) = d.next_batch(true) {
        sizes.push(n);
    }
    assert_eq!(sizes, vec![3, 3, 3, 1]);
    assert_eq!(sizes.iter().sum::<usize>(), 10);
    assert!(d.count_exhausted);
    assert_eq!(d.next_batch(false), None);
}

#[test]
fn dispatcher_duration_mode_stops_on_signal() {
    let mut d = Dispatcher::new(TestType::Duration, 5, 2);
    assert_eq!(d.next_batch(false), Some(2));
    assert_eq!(d.next_batch(false), Some(2));
    assert_eq!(d.next_batch(false), Some(2));
    assert_eq!(d.next_batch(true), None);
    assert!(d.stopped);
    assert!(!d.count_exhausted);
    assert_eq!(d.next_batch(false), None);
}

#[test]
fn dispatcher_both_mode_signal_skips_remaining() {
    let mut d = Dispatcher::new(TestType::Both, 10, 3);
    assert_eq!(d.next_batch(false), Some(3));
    assert_eq!(d.next_batch(true), None);
    assert!(!d.count_exhausted);
    assert_eq!(d.next_batch(false), None);
    assert_eq!(d.issued, 1);
}

#[test]
fn dispatcher_both_mode_count_first() {
    let mut d = Dispatcher::new(TestType::Both, 4, 4);
    assert_eq!(d.next_batch(false), Some(4));
    assert_eq!(d.next_batch(false), None);
    assert!(d.count_exhausted);
}

#[test]
fn watcher_duration_signals_after_limit() {
    assert_eq!(watch_tick(TestType::Duration, 2, 2_000_001, false, 1), WatchStep::Signal);
    assert_eq!(
        watch_tick(TestType::Duration, 2, 2_000_000, false, 1),
        WatchStep::Continue { progress_second: None }
    );
    assert_eq!(
        watch_tick(TestType::Duration, 2, 1_500_000, false, 0),
        WatchStep::Continue { progress_second: Some(1) }
    );
    assert_eq!(
        watch_tick(TestType::Duration, 2, 1_500_000, false, 1),
        WatchStep::Continue { progress_second: None }
    );
}

#[test]
fn watcher_both_exits_quietly_on_flag() {
    assert_eq!(watch_tick(TestType::Both, 2, 3_000_000, true, 1), WatchStep::Exit);
    assert_eq!(watch_tick(TestType::Both, 2, 3_000_000, false, 1), WatchStep::Signal);
}

#[test]
fn watcher_count_mode_never_signals() {
    assert_eq!(
        watch_tick(TestType::RequestCount, 0, 99_000_000, false, 0),
        WatchStep::Continue { progress_second: None }
    );
    assert_eq!(watch_tick(TestType::RequestCount, 0, 99_000_000, true, 0), WatchStep::Exit);
}
