use mmd::brightness::DisplayDimmingState;
use mmd::brightness::PendingBrightnessOperation;
use mmd::display::DisplayState;
use mmd::geometry::SimpleRect;
use mmd::ledger::Ledger;
use mmd::snapshot::capture_display_snapshots;
use mmd::snapshot::restore_display_snapshots;
use mmd::target::PhysicalMonitorTarget;
use mmd::target::TargetAvailability;
use mmd::target::TargetKey;
use mmd::text::normalize_name;

fn test_target(
    display_device_name: &str,
    description: &str,
    physical_index: usize,
    restore_brightness: Option<u32>,
    is_dimmed: bool,
) -> PhysicalMonitorTarget {
    PhysicalMonitorTarget {
        handle: 0,
        key: TargetKey {
            display_device_name: display_device_name.to_string(),
            description: normalize_name(description),
            physical_index,
        },
        description: description.to_string(),
        restore_brightness,
        is_dimmed,
        availability: TargetAvailability::Available,
        consecutive_failures: 0,
        disposed: true,
    }
}

fn test_display(
    device_name: &str,
    targets: Vec<PhysicalMonitorTarget>,
    dimming_state: DisplayDimmingState,
    pending_operation: Option<PendingBrightnessOperation>,
) -> DisplayState {
    DisplayState {
        device_name: device_name.to_string(),
        bounds: SimpleRect {
            left: 0,
            top: 0,
            right: 1,
            bottom: 1,
        },
        targets,
        dimming_state,
        pending_operation,
        last_blocking_window: None,
    }
}

#[test]
fn reenumeration_preserves_restore_brightness_and_manual_state() {
    let old_display = test_display(
        "display",
        vec![test_target("display", "monitor", 0, Some(73), true)],
        DisplayDimmingState::UserDimmed,
        None,
    );
    let mut snapshots = capture_display_snapshots(&[old_display]);
    let mut new_displays = vec![test_display(
        "display",
        vec![test_target("display", "monitor", 0, None, false)],
        DisplayDimmingState::Lit,
        None,
    )];

    restore_display_snapshots(&mut new_displays, &mut snapshots);

    assert!(snapshots.is_empty());
    assert_eq!(
        new_displays[0].dimming_state,
        DisplayDimmingState::UserDimmed
    );
    assert_eq!(new_displays[0].targets[0].restore_brightness, Some(73));
    assert!(!new_displays[0].targets[0].is_dimmed);
}

#[test]
fn reenumeration_preserves_pending_operation() {
    let operation = PendingBrightnessOperation::Restore {
        next_state: DisplayDimmingState::Lit,
    };
    let old_display = test_display(
        "display",
        vec![test_target("display", "monitor", 0, Some(73), true)],
        DisplayDimmingState::AutoDimmed,
        Some(operation),
    );
    let mut snapshots = capture_display_snapshots(&[old_display]);
    let mut new_displays = vec![test_display(
        "display",
        vec![test_target("display", "monitor", 0, None, false)],
        DisplayDimmingState::Lit,
        None,
    )];

    restore_display_snapshots(&mut new_displays, &mut snapshots);

    assert_eq!(new_displays[0].pending_operation, Some(operation));
    assert!(new_displays[0].targets[0].is_dimmed);
}

#[test]
fn snapshots_of_displays_that_are_gone_are_kept() {
    let mut snapshots = capture_display_snapshots(&[
        test_display(
            "left",
            vec![test_target("left", "monitor", 0, Some(10), true)],
            DisplayDimmingState::AutoDimmed,
            None,
        ),
        test_display(
            "right",
            vec![test_target("right", "monitor", 0, Some(20), false)],
            DisplayDimmingState::UserRestoredWhileEmpty,
            None,
        ),
    ]);
    assert_eq!(snapshots.len(), 2);
    let mut found = vec![
        test_display(
            "right",
            vec![test_target("right", "monitor", 0, None, false)],
            DisplayDimmingState::Lit,
            None,
        ),
        test_display(
            "third",
            vec![test_target("third", "monitor", 0, None, false)],
            DisplayDimmingState::Lit,
            None,
        ),
    ];
    restore_display_snapshots(&mut found, &mut snapshots);
    assert_eq!(found[0].dimming_state, DisplayDimmingState::UserRestoredWhileEmpty);
    assert_eq!(found[0].targets[0].restore_brightness, Some(20));
    assert_eq!(found[1].dimming_state, DisplayDimmingState::Lit);
    assert_eq!(found[1].targets[0].restore_brightness, None);
    assert_eq!(snapshots.len(), 1);
    assert!(snapshots.get(&"left".to_string()).is_some());
    assert!(snapshots.get(&"right".to_string()).is_none());
}

#[test]
fn snapshot_of_another_monitor_is_not_used() {
    let mut snapshots = capture_display_snapshots(&[test_display(
        "display",
        vec![test_target("display", "old monitor", 0, Some(10), true)],
        DisplayDimmingState::AutoDimmed,
        None,
    )]);
    let mut found = vec![test_display(
        "display",
        vec![test_target("display", "new monitor", 0, None, false)],
        DisplayDimmingState::Lit,
        None,
    )];
    restore_display_snapshots(&mut found, &mut snapshots);
    assert_eq!(found[0].dimming_state, DisplayDimmingState::Lit);
    assert_eq!(found[0].targets[0].restore_brightness, None);
    assert_eq!(snapshots.len(), 1);
}

#[test]
fn snapshot_of_a_display_without_monitors_is_used() {
    let mut snapshots = capture_display_snapshots(&[test_display(
        "display",
        vec![],
        DisplayDimmingState::UserRestoredWhileEmpty,
        None,
    )]);
    let mut found = vec![test_display(
        "display",
        vec![test_target("display", "monitor", 0, None, false)],
        DisplayDimmingState::Lit,
        None,
    )];
    restore_display_snapshots(&mut found, &mut snapshots);
    assert_eq!(found[0].dimming_state, DisplayDimmingState::UserRestoredWhileEmpty);
    assert!(snapshots.is_empty());
}

#[test]
fn ledger_replaces_and_removes() {
    let mut ledger: Ledger<String, Ledger<String, mmd::snapshot::TargetSnapshot>> = Ledger::new();
    assert!(ledger.is_empty());
    let mut inner = Ledger::new();
    inner.insert(
        "a".to_string(),
        mmd::snapshot::TargetSnapshot { restore_brightness: Some(1), is_dimmed: true },
    );
    ledger.insert("x".to_string(), inner);
    ledger.insert("y".to_string(), Ledger::new());
    ledger.insert("x".to_string(), Ledger::new());
    assert_eq!(ledger.len(), 2);
    assert!(ledger.get(&"x".to_string()).unwrap().is_empty());
    assert!(ledger.remove(&"x".to_string()).is_some());
    assert!(ledger.remove(&"x".to_string()).is_none());
    let mut other = Ledger::new();
    other.insert("y".to_string(), Ledger::new());
    other.insert("z".to_string(), Ledger::new());
    ledger.extend(other);
    assert_eq!(ledger.len(), 2);
}

#[test]
fn displays_and_monitors_may_be_found_in_another_order() {
    let operation = PendingBrightnessOperation::Restore {
        next_state: DisplayDimmingState::Lit,
    };
    let mut snapshots = capture_display_snapshots(&[
        test_display(
            "left",
            vec![
                test_target("left", "first", 0, Some(10), true),
                test_target("left", "second", 1, Some(20), false),
            ],
            DisplayDimmingState::AutoDimmed,
            Some(operation),
        ),
        test_display(
            "right",
            vec![test_target("right", "third", 0, Some(30), true)],
            DisplayDimmingState::UserDimmed,
            None,
        ),
    ]);
    let mut found = vec![
        test_display(
            "right",
            vec![test_target("right", "third", 0, None, false)],
            DisplayDimmingState::Lit,
            None,
        ),
        test_display(
            "left",
            vec![
                test_target("left", "second", 1, None, false),
                test_target("left", "new", 2, None, false),
                test_target("left", "first", 0, None, false),
            ],
            DisplayDimmingState::Lit,
            None,
        ),
    ];
    found[1].last_blocking_window = Some("note".to_string());
    found[1].targets[2].availability = TargetAvailability::TemporarilyUnavailable;
    found[1].targets[2].consecutive_failures = 2;
    restore_display_snapshots(&mut found, &mut snapshots);
    assert!(snapshots.is_empty());
    assert_eq!(found[0].dimming_state, DisplayDimmingState::UserDimmed);
    assert_eq!(found[0].targets[0].restore_brightness, Some(30));
    assert!(!found[0].targets[0].is_dimmed);
    assert_eq!(found[1].pending_operation, Some(operation));
    assert_eq!(found[1].targets[0].restore_brightness, Some(20));
    assert!(!found[1].targets[0].is_dimmed);
    assert_eq!(found[1].targets[1].restore_brightness, None);
    assert_eq!(found[1].targets[2].restore_brightness, Some(10));
    assert!(found[1].targets[2].is_dimmed);
    assert_eq!(found[1].last_blocking_window, Some("note".to_string()));
    assert_eq!(
        found[1].targets[2].availability,
        TargetAvailability::TemporarilyUnavailable
    );
    assert_eq!(found[1].targets[2].consecutive_failures, 2);
}
