use mmd::brightness::occupancy_state;
use mmd::brightness::percent_to_raw;
use mmd::brightness::reconcile_pending_operation;
use mmd::brightness::DisplayDimmingState;
use mmd::brightness::PendingBrightnessOperation;

#[test]
fn pending_auto_dim_turns_into_restore_when_a_window_arrives() {
    let operation = PendingBrightnessOperation::Dim {
        brightness: 0,
        next_state: DisplayDimmingState::AutoDimmed,
    };

    assert_eq!(
        reconcile_pending_operation(operation, true, 0),
        PendingBrightnessOperation::Restore {
            next_state: DisplayDimmingState::Lit,
        }
    );
}

#[test]
fn pending_auto_restore_turns_back_into_dim_when_window_leaves() {
    let operation = PendingBrightnessOperation::Restore {
        next_state: DisplayDimmingState::Lit,
    };

    assert_eq!(
        reconcile_pending_operation(operation, false, 10),
        PendingBrightnessOperation::Dim {
            brightness: 10,
            next_state: DisplayDimmingState::AutoDimmed,
        }
    );
}

#[test]
fn pending_manual_brightness_tracks_current_occupancy() {
    let operation = PendingBrightnessOperation::SetLevel {
        brightness: 50,
        next_state: DisplayDimmingState::UserRestoredWhileEmpty,
    };

    assert_eq!(
        reconcile_pending_operation(operation, true, 0),
        PendingBrightnessOperation::SetLevel {
            brightness: 50,
            next_state: DisplayDimmingState::Lit,
        }
    );
}

#[test]
fn pending_user_restore_becomes_an_ordinary_one_when_a_window_arrives() {
    let operation = PendingBrightnessOperation::Restore {
        next_state: DisplayDimmingState::UserRestoredWhileEmpty,
    };
    assert_eq!(
        reconcile_pending_operation(operation, true, 0),
        PendingBrightnessOperation::Restore {
            next_state: DisplayDimmingState::Lit,
        }
    );
    assert_eq!(reconcile_pending_operation(operation, false, 0), operation);
}

#[test]
fn pending_dimming_by_hand_is_never_reconsidered() {
    let operation = PendingBrightnessOperation::Dim {
        brightness: 5,
        next_state: DisplayDimmingState::UserDimmed,
    };
    assert_eq!(reconcile_pending_operation(operation, true, 0), operation);
    assert_eq!(reconcile_pending_operation(operation, false, 0), operation);
}

#[test]
fn reconciling_twice_does_no_more_than_once() {
    let states = vec![
        DisplayDimmingState::Lit,
        DisplayDimmingState::AutoDimmed,
        DisplayDimmingState::UserDimmed,
        DisplayDimmingState::UserRestoredWhileEmpty,
    ];
    for next_state in states {
        let operations = vec![
            PendingBrightnessOperation::Dim { brightness: 7, next_state },
            PendingBrightnessOperation::Restore { next_state },
            PendingBrightnessOperation::SetLevel { brightness: 7, next_state },
        ];
        for operation in operations {
            for has_window in vec![false, true] {
                let once = reconcile_pending_operation(operation, has_window, 3);
                assert_eq!(reconcile_pending_operation(once, has_window, 3), once);
            }
        }
    }
}

#[test]
fn brightness_percent_is_scaled_to_the_monitor_range() {
    assert_eq!(percent_to_raw(20, 220, 0), 20);
    assert_eq!(percent_to_raw(20, 220, 25), 70);
    assert_eq!(percent_to_raw(20, 220, 50), 120);
    assert_eq!(percent_to_raw(20, 220, 100), 220);
    assert_eq!(percent_to_raw(20, 220, 150), 220);
    assert_eq!(percent_to_raw(80, 80, 50), 80);
}

#[test]
fn scaling_rounds_to_the_nearest_level() {
    assert_eq!(percent_to_raw(0, 3, 50), 2);
    assert_eq!(percent_to_raw(0, 3, 49), 1);
    assert_eq!(percent_to_raw(0, 255, 10), 26);
    assert_eq!(percent_to_raw(90, 10, 50), 90);
    assert_eq!(percent_to_raw(0, u32::MAX, 100), u32::MAX);
    assert_eq!(percent_to_raw(1, u32::MAX, 1), 42_949_674);
}

#[test]
fn brightened_displays_are_lit_or_lit_while_empty() {
    assert_eq!(occupancy_state(true), DisplayDimmingState::Lit);
    assert_eq!(occupancy_state(false), DisplayDimmingState::UserRestoredWhileEmpty);
}

#[test]
fn operations_lead_to_their_states() {
    let next_state = DisplayDimmingState::UserDimmed;
    assert_eq!(
        PendingBrightnessOperation::Dim { brightness: 1, next_state }.next_state(),
        next_state
    );
    assert_eq!(PendingBrightnessOperation::Restore { next_state }.next_state(), next_state);
    assert_eq!(
        PendingBrightnessOperation::SetLevel { brightness: 1, next_state }.next_state(),
        next_state
    );
}
