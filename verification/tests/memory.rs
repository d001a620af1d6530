use mymusic_daw::audio::memory::{LeakSeverity, MemoryLeak, MemoryLeakReport, MemoryTracker};

#[test]
fn test_memory_tracker_basic() {
    let mut tracker = MemoryTracker::new();
    tracker.record_allocation("test_buffer", 1024);
    tracker.record_allocation("test_buffer", 512);
    tracker.record_allocation("test_object", 256);
    tracker.record_deallocation("test_buffer", 512);
    let stats = tracker.get_stats();
    assert_eq!(stats.total_allocations, 3);
    assert_eq!(stats.total_deallocations, 1);
    assert_eq!(stats.active_allocations, 2);
    let report = tracker.check_leaks();
    assert_eq!(report.leaked_allocations, 2);
}

#[test]
fn test_memory_tracker_reset() {
    let mut tracker = MemoryTracker::new();
    tracker.record_allocation("test", 100);
    tracker.record_deallocation("test", 100);
    tracker.reset();
    let stats = tracker.get_stats();
    assert_eq!(stats.total_allocations, 0);
    assert_eq!(stats.total_deallocations, 0);
    assert_eq!(stats.active_allocations, 0);
}

#[test]
fn test_memory_report_generation() {
    let mut tracker = MemoryTracker::new();
    tracker.record_allocation("buffer", 2048);
    tracker.record_allocation("object", 512);
    let report = tracker.check_leaks();
    let report_text = report.generate_report();
    assert!(report_text.contains("Total allocations: 2"));
    assert!(report_text.contains("Leaked allocations: 2"));
    assert!(report_text.contains("Peak memory usage"));
}

#[test]
fn test_leak_severity_classification_low() {
    let mut tracker = MemoryTracker::new();
    for _ in 0..100 {
        tracker.record_allocation("leaky_component", 1024);
    }
    for _ in 0..90 {
        tracker.record_deallocation("leaky_component", 1024);
    }
    let report = tracker.check_leaks();
    assert!(!report.leaks.is_empty());
    assert!(!report.has_critical_leaks());
}

#[test]
fn per_site_statistics_accumulate() {
    let mut tracker = MemoryTracker::new();
    tracker.record_allocation("a", 10);
    tracker.record_allocation("b", 7);
    tracker.record_allocation("a", 30);
    let stats = tracker.get_stats();
    assert_eq!(stats.allocation_stats.len(), 2);
    assert_eq!(stats.allocation_stats[0].0, "a");
    assert_eq!(stats.allocation_stats[0].1.count, 2);
    assert_eq!(stats.allocation_stats[0].1.total_bytes, 40);
    assert_eq!(stats.allocation_stats[0].1.peak_bytes, 30);
    assert_eq!(stats.allocation_stats[1].0, "b");
    assert_eq!(stats.peak_memory_usage, 3);
}

#[test]
fn leaks_are_the_sites_above_a_tenth_of_allocations() {
    let mut tracker = MemoryTracker::new();
    for _ in 0..19 {
        tracker.record_allocation("big", 100);
    }
    tracker.record_allocation("small", 5);
    let report = tracker.check_leaks();
    // "small" made 1 of 20 allocations: not more than a tenth
    assert_eq!(report.leaks.len(), 1);
    assert_eq!(report.leaks[0].component, "big");
    assert_eq!(report.leaks[0].allocated, 19);
    // 19 * 19 / 20 = 18.05
    assert_eq!(report.leaks[0].estimated_leaked, 18);
    // all 20 allocations are still live
    assert_eq!(report.leaks[0].severity, LeakSeverity::Critical);
    assert_eq!(report.total_leaked_bytes(), 1900);
}

#[test]
fn test_leak_severity_classification() {
    let mut tracker = MemoryTracker::new();
    for _ in 0..100 {
        tracker.record_allocation("leaky_component", 1024);
    }
    for _ in 0..10 {
        tracker.record_deallocation("leaky_component", 1024);
    }
    let report = tracker.check_leaks();
    assert!(!report.leaks.is_empty());
    assert!(report.has_critical_leaks());
}

#[test]
fn severity_follows_the_live_share() {
    let grade = |live: usize| {
        let mut tracker = MemoryTracker::new();
        for _ in 0..100 {
            tracker.record_allocation("site", 1);
        }
        for _ in 0..(100 - live) {
            tracker.record_deallocation("site", 1);
        }
        tracker.check_leaks().leaks[0].severity.clone()
    };
    assert_eq!(grade(100), LeakSeverity::Critical);
    assert_eq!(grade(90), LeakSeverity::Critical);
    assert_eq!(grade(89), LeakSeverity::High);
    assert_eq!(grade(50), LeakSeverity::High);
    assert_eq!(grade(10), LeakSeverity::High);
}

#[test]
fn no_leaks_when_everything_is_freed() {
    let mut tracker = MemoryTracker::new();
    tracker.record_allocation("x", 1);
    tracker.record_deallocation("x", 1);
    let report = tracker.check_leaks();
    assert!(report.leaks.is_empty());
    let text = report.generate_report();
    assert!(text.ends_with("✅ No memory leaks detected\n"));
}

#[test]
fn deallocation_without_allocation_wraps_the_active_count() {
    let mut tracker = MemoryTracker::new();
    tracker.record_deallocation("x", 1);
    let stats = tracker.get_stats();
    assert_eq!(stats.active_allocations, usize::MAX);
    assert_eq!(stats.leaked_allocations, 0);
}

#[test]
fn report_text_is_exact() {
    let report = MemoryLeakReport {
        total_allocations: 3,
        total_deallocations: 1,
        leaked_allocations: 2,
        peak_memory_usage: 3,
        current_active: 2,
        leaks: vec![MemoryLeak {
            component: "buf".to_string(),
            allocated: 2,
            estimated_leaked: 1,
            total_bytes: 1536,
            severity: LeakSeverity::Critical,
        }],
    };
    assert_eq!(
        report.generate_report(),
        "# Memory Leak Detection Report\n\nTotal allocations: 3\nTotal deallocations: 1\nLeaked allocations: 2\nPeak memory usage: 3 bytes\n\nCurrent active allocations: 2\n\n## Potential Memory Leaks:\n\nComponent: buf (Severity: Critical)\n  Allocated: 2 objects\n  Estimated leaked: 1 objects\n  Total bytes: 1536 bytes\n\n"
    );
    assert!(report.has_critical_leaks());
    assert_eq!(report.total_leaked_bytes(), 1536);
}
