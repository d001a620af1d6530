use mymusic_daw::audio::profiling::{AudioProfiler, OperationTimer};
use std::time::{Duration, Instant};

fn busy_wait(d: Duration) {
    let start = Instant::now();
    while start.elapsed() < d {}
}

#[test]
fn test_profiler_basic_functionality() {
    let mut profiler = AudioProfiler::new();
    for _ in 0..10 {
        let timer = profiler.start_callback();
        busy_wait(Duration::from_micros(100));
        timer.finish(&mut profiler);
    }
    let stats = profiler.get_stats();
    assert_eq!(stats.callback_count, 10);
    assert!(stats.avg_callback_time > 0);
    assert!(stats.max_callback_time >= stats.min_callback_time);
    assert!(stats.min_callback_time > 0);
}

#[test]
fn test_operation_profiling() {
    let mut profiler = AudioProfiler::new();
    for _ in 0..5 {
        let timer = OperationTimer::new("test_operation");
        busy_wait(Duration::from_micros(50));
        timer.finish(&mut profiler);
    }
    let stats = profiler.get_stats();
    let op = stats.operation_stats.iter().find(|(name, _)| name == "test_operation");
    assert!(op.is_some());
    let op_stats = &op.unwrap().1;
    assert_eq!(op_stats.call_count, 5);
    assert!(op_stats.avg_time > 0);
}

#[test]
fn test_profiler_reset() {
    let mut profiler = AudioProfiler::new();
    let timer = profiler.start_callback();
    busy_wait(Duration::from_micros(100));
    timer.finish(&mut profiler);
    let stats_before = profiler.get_stats();
    assert!(stats_before.callback_count > 0);
    profiler.reset();
    let stats_after = profiler.get_stats();
    assert_eq!(stats_after.callback_count, 0);
    assert_eq!(stats_after.total_callback_time, 0);
}

#[test]
fn recorded_times_give_exact_statistics() {
    let mut profiler = AudioProfiler::new();
    profiler.record_operation_nanos("mix", 100);
    profiler.record_operation_nanos("mix", 300);
    profiler.record_operation_nanos("filter", 50);
    profiler.record_operation("filter", Duration::from_nanos(150));
    let stats = profiler.get_stats();
    let names: Vec<&str> = stats.operation_stats.iter().map(|(n, _)| n.as_str()).collect();
    assert_eq!(names, vec!["mix", "filter"]);
    let mix = &stats.operation_stats[0].1;
    assert_eq!((mix.total_time, mix.call_count, mix.avg_time), (400, 2, 200));
    let filter = &stats.operation_stats[1].1;
    assert_eq!((filter.total_time, filter.call_count, filter.avg_time), (200, 2, 100));
    assert_eq!(stats.avg_callback_time, 0);
    assert_eq!(stats.min_callback_time, 0);

    profiler.reset();
    assert!(profiler.get_stats().operation_stats.is_empty());
}

#[test]
fn callback_times_track_total_and_maximum() {
    let mut profiler = AudioProfiler::new();
    let _ = profiler.start_callback();
    profiler.record_callback_time(700);
    let _ = profiler.start_callback();
    profiler.record_callback_time(300);
    let stats = profiler.get_stats();
    assert_eq!(stats.callback_count, 2);
    assert_eq!(stats.total_callback_time, 1000);
    assert_eq!(stats.avg_callback_time, 500);
    assert_eq!(stats.max_callback_time, 700);
    assert_eq!(stats.min_callback_time, 300);
}

#[test]
fn first_callback_sets_the_minimum() {
    let mut profiler = AudioProfiler::new();
    let _ = profiler.start_callback();
    profiler.record_callback_time(100);
    let stats = profiler.get_stats();
    assert_eq!(stats.min_callback_time, 100);
    assert!(stats.min_callback_time <= stats.avg_callback_time);
    assert!(stats.avg_callback_time <= stats.max_callback_time);
}
