use rust_lt::stats::{MetricType, VuEvent, VuEventType, VuLifecycleStats, VuStateSnapshot};

#[test]
fn test_vu_lifecycle_stats() {
    let start: u64 = 1_000;
    let events = vec![
        VuEvent { timestamp: start, vu_id: 1, event_type: VuEventType::Started },
        VuEvent { timestamp: start + 100, vu_id: 2, event_type: VuEventType::Started },
        VuEvent { timestamp: start + 200, vu_id: 1, event_type: VuEventType::Completed },
        VuEvent { timestamp: start + 300, vu_id: 3, event_type: VuEventType::Started },
        VuEvent { timestamp: start + 400, vu_id: 2, event_type: VuEventType::Failed },
    ];

    let stats = VuLifecycleStats::from_events(events);

    assert_eq!(stats.total_started, 3);
    assert_eq!(stats.total_completed, 1);
    assert_eq!(stats.total_failed, 1);
    assert_eq!(stats.currently_active, 1);
    assert_eq!(stats.events.len(), 5);
    assert_eq!(stats.state_snapshots.len(), 5);
    let finished = stats.total_completed + stats.total_failed;
    let success_rate = stats.total_completed as f64 / finished as f64 * 100.0;
    assert_eq!(success_rate, 50.0);
}

#[test]
fn test_vu_state_snapshot() {
    let snapshot = VuStateSnapshot {
        timestamp: 5,
        active: 5,
        completed: 10,
        failed: 2,
        total_started: 17,
    };

    assert_eq!(snapshot.total_finished(), 12);
    assert_eq!(snapshot.pending(), 5);
}

#[test]
fn test_vu_lifecycle_event() {
    let event = VuEvent { timestamp: 0, vu_id: 42, event_type: VuEventType::Started };

    assert_eq!(event.vu_id, 42);
    assert_eq!(event.event_type, VuEventType::Started);
}

#[test]
fn events_are_ordered_by_time_before_counting() {
    let events = vec![
        VuEvent { timestamp: 30, vu_id: 1, event_type: VuEventType::Completed },
        VuEvent { timestamp: 10, vu_id: 1, event_type: VuEventType::Started },
        VuEvent { timestamp: 20, vu_id: 2, event_type: VuEventType::Started },
    ];
    let stats = VuLifecycleStats::from_events(events);
    let times: Vec<u64> = stats.events.iter().map(|e| e.timestamp).collect();
    assert_eq!(times, vec![10, 20, 30]);
    assert_eq!(stats.state_snapshots[0].active, 1);
    assert_eq!(stats.state_snapshots[1].active, 2);
    assert_eq!(stats.state_snapshots[2].active, 1);
    assert_eq!(stats.state_snapshots[2].completed, 1);
    assert_eq!(stats.currently_active, 1);

    assert_eq!(stats.state_at(25).unwrap().timestamp, 20);
    assert_eq!(stats.state_at(30).unwrap().timestamp, 30);
    assert!(stats.state_at(5).is_none());
}

#[test]
fn default_lifecycle_is_empty() {
    let stats = VuLifecycleStats::default();
    assert_eq!(stats.total_started, 0);
    assert!(stats.events.is_empty());
    assert_eq!(MetricType::Custom("x".to_string()), MetricType::Custom("x".to_string()));
}
