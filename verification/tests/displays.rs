use mmd::brightness::DisplayDimmingState;
use mmd::brightness::PendingBrightnessOperation;
use mmd::display::apply_pending_operation;
use mmd::display::request_operation;
use mmd::display::resume_pending_operation;
use mmd::display::resume_visit;
use mmd::display::update_display_state;
use mmd::display::visit_display;
use mmd::display::Conditions;
use mmd::display::DisplayState;
use mmd::display::DisplayStep;
use mmd::display::SweepStep;
use mmd::display::Visit;
use mmd::geometry::SimpleRect;
use mmd::target::BrightnessReading;
use mmd::target::MonitorReply;
use mmd::target::PhysicalMonitorTarget;
use mmd::target::Stage;
use mmd::target::TargetAvailability;
use mmd::target::TargetKey;
use mmd::text::normalize_name;

fn test_target(
    display_device_name: &str,
    description: &str,
    physical_index: usize,
    restore_brightness: Option<u32>,
    is_dimmed: bool,
) -> PhysicalMonitorTarget {
    PhysicalMonitorTarget {
        handle: 0,
        key: TargetKey {
            display_device_name: display_device_name.to_string(),
            description: normalize_name(description),
            physical_index,
        },
        description: description.to_string(),
        restore_brightness,
        is_dimmed,
        availability: TargetAvailability::Available,
        consecutive_failures: 0,
        disposed: true,
    }
}

fn live_target(restore_brightness: Option<u32>, is_dimmed: bool) -> PhysicalMonitorTarget {
    let mut target = test_target("display", "monitor", 0, restore_brightness, is_dimmed);
    target.disposed = false;
    target
}

fn test_display(
    device_name: &str,
    targets: Vec<PhysicalMonitorTarget>,
    dimming_state: DisplayDimmingState,
    pending_operation: Option<PendingBrightnessOperation>,
) -> DisplayState {
    DisplayState {
        device_name: device_name.to_string(),
        bounds: SimpleRect {
            left: 0,
            top: 0,
            right: 1,
            bottom: 1,
        },
        targets,
        dimming_state,
        pending_operation,
        last_blocking_window: None,
    }
}

fn conditions(has_window: bool, manual_dimming: bool) -> Conditions {
    Conditions { has_window, manual_dimming, empty_brightness: 0 }
}

fn reply(stage: Stage, willing: bool) -> MonitorReply {
    match stage {
        Stage::Capabilities => MonitorReply::Capabilities(Some(2)),
        Stage::Reading => MonitorReply::Reading(
            if willing {
                Some(BrightnessReading { minimum: 0, current: 80, maximum: 100 })
            } else {
                None
            },
        ),
        Stage::Writing { .. } => MonitorReply::Written(willing),
    }
}

fn finish(
    display: &mut DisplayState,
    conditions: Conditions,
    step: DisplayStep,
    willing: Vec<bool>,
) -> usize {
    let mut step = step;
    let mut questions: usize = 0;
    while let DisplayStep::Waiting { errand, at } = step {
        questions += 1;
        let answer = reply(at.stage, willing[at.target]);
        step = resume_visit(display, conditions, errand, at, answer);
    }
    questions
}

fn update(display: &mut DisplayState, conditions: Conditions, willing: Vec<bool>) -> usize {
    let step = update_display_state(display, conditions);
    finish(display, conditions, step, willing)
}

#[test]
fn failed_brightness_operation_remains_pending() {
    let operation = PendingBrightnessOperation::Restore {
        next_state: DisplayDimmingState::Lit,
    };
    let mut display = test_display(
        "test",
        vec![test_target("test", "test", 0, Some(50), true)],
        DisplayDimmingState::AutoDimmed,
        Some(operation),
    );

    assert_eq!(
        apply_pending_operation(&mut display),
        SweepStep::Finished { settled: false }
    );
    assert_eq!(display.dimming_state, DisplayDimmingState::AutoDimmed);
    assert_eq!(display.pending_operation, Some(operation));
}

#[test]
fn nothing_pending_is_done_at_once() {
    let mut display = test_display(
        "test",
        vec![live_target(None, false)],
        DisplayDimmingState::Lit,
        None,
    );
    assert_eq!(
        apply_pending_operation(&mut display),
        SweepStep::Finished { settled: true }
    );
}

#[test]
fn operation_goes_on_to_the_next_target_when_one_fails() {
    let operation = PendingBrightnessOperation::Dim {
        brightness: 10,
        next_state: DisplayDimmingState::AutoDimmed,
    };
    let mut display = test_display(
        "test",
        vec![live_target(None, false), live_target(None, false)],
        DisplayDimmingState::Lit,
        None,
    );
    let mut step = request_operation(&mut display, operation);
    let mut questions: usize = 0;
    while let SweepStep::Waiting { at } = step {
        questions += 1;
        step = resume_pending_operation(&mut display, at, reply(at.stage, at.target == 1));
    }
    assert_eq!(questions, 3);
    assert_eq!(step, SweepStep::Finished { settled: false });
    assert!(!display.targets[0].is_dimmed);
    assert_eq!(display.targets[0].consecutive_failures, 1);
    assert!(display.targets[1].is_dimmed);
    assert_eq!(display.pending_operation, Some(operation));
    assert_eq!(display.dimming_state, DisplayDimmingState::Lit);
}

#[test]
fn display_without_targets_is_lit() {
    let operation = PendingBrightnessOperation::Dim {
        brightness: 10,
        next_state: DisplayDimmingState::AutoDimmed,
    };
    let mut display = test_display(
        "test",
        vec![],
        DisplayDimmingState::AutoDimmed,
        Some(operation),
    );
    assert_eq!(
        request_operation(&mut display, operation),
        SweepStep::Finished { settled: true }
    );
    assert_eq!(display.dimming_state, DisplayDimmingState::Lit);
    assert_eq!(display.pending_operation, None);

    display.dimming_state = DisplayDimmingState::UserDimmed;
    display.pending_operation = Some(operation);
    assert_eq!(update(&mut display, conditions(false, true), vec![]), 0);
    assert_eq!(display.dimming_state, DisplayDimmingState::Lit);
    assert_eq!(display.pending_operation, None);
}

#[test]
fn empty_display_goes_dark_and_a_window_lights_it() {
    let mut display = test_display(
        "test",
        vec![live_target(None, false)],
        DisplayDimmingState::Lit,
        None,
    );
    assert_eq!(update(&mut display, conditions(false, false), vec![true]), 2);
    assert_eq!(display.dimming_state, DisplayDimmingState::AutoDimmed);
    assert!(display.targets[0].is_dimmed);
    assert_eq!(display.targets[0].restore_brightness, Some(80));
    assert_eq!(update(&mut display, conditions(false, false), vec![true]), 0);

    assert_eq!(update(&mut display, conditions(true, false), vec![true]), 1);
    assert_eq!(display.dimming_state, DisplayDimmingState::Lit);
    assert!(!display.targets[0].is_dimmed);
    assert_eq!(update(&mut display, conditions(true, false), vec![true]), 0);
}

#[test]
fn failed_dimming_is_turned_round_when_a_window_arrives() {
    let mut display = test_display(
        "test",
        vec![live_target(None, false)],
        DisplayDimmingState::Lit,
        None,
    );
    let _ = update(&mut display, conditions(false, false), vec![false]);
    assert_eq!(
        display.pending_operation,
        Some(PendingBrightnessOperation::Dim {
            brightness: 0,
            next_state: DisplayDimmingState::AutoDimmed,
        })
    );
    let _ = update(&mut display, conditions(true, false), vec![true]);
    assert_eq!(display.pending_operation, None);
    assert_eq!(display.dimming_state, DisplayDimmingState::Lit);
    assert!(!display.targets[0].is_dimmed);
}

#[test]
fn failed_dimming_is_tried_again_until_the_target_is_given_up() {
    let mut display = test_display(
        "test",
        vec![live_target(None, false)],
        DisplayDimmingState::Lit,
        None,
    );
    let empty = conditions(false, false);
    assert_eq!(update(&mut display, empty, vec![false]), 1);
    assert!(display.pending_operation.is_some());
    assert_eq!(update(&mut display, empty, vec![false]), 1);
    assert!(display.pending_operation.is_some());
    assert_eq!(update(&mut display, empty, vec![false]), 1);
    assert_eq!(display.pending_operation, None);
    assert_eq!(display.dimming_state, DisplayDimmingState::AutoDimmed);
    assert_eq!(display.targets[0].availability, TargetAvailability::Unavailable);
    assert_eq!(update(&mut display, empty, vec![false]), 0);
}

#[test]
fn dimming_by_hand_wins_over_windows() {
    let pending = PendingBrightnessOperation::SetLevel {
        brightness: 50,
        next_state: DisplayDimmingState::Lit,
    };
    let mut display = test_display(
        "test",
        vec![live_target(None, false)],
        DisplayDimmingState::Lit,
        Some(pending),
    );
    assert_eq!(update(&mut display, conditions(true, true), vec![true]), 2);
    assert_eq!(display.dimming_state, DisplayDimmingState::UserDimmed);
    assert_eq!(display.pending_operation, None);
    assert!(display.targets[0].is_dimmed);
    assert_eq!(update(&mut display, conditions(true, true), vec![true]), 0);
}

#[test]
fn display_lit_by_hand_stays_lit_while_empty() {
    let mut display = test_display(
        "test",
        vec![live_target(Some(60), true)],
        DisplayDimmingState::UserRestoredWhileEmpty,
        None,
    );
    assert_eq!(update(&mut display, conditions(false, false), vec![true]), 1);
    assert_eq!(display.dimming_state, DisplayDimmingState::UserRestoredWhileEmpty);
    assert!(!display.targets[0].is_dimmed);
    assert_eq!(update(&mut display, conditions(false, false), vec![true]), 0);
    assert_eq!(update(&mut display, conditions(true, false), vec![true]), 0);
    assert_eq!(display.dimming_state, DisplayDimmingState::Lit);
}

#[test]
fn display_no_longer_dimmed_by_hand_counts_as_dimmed_for_being_empty() {
    let mut display = test_display(
        "test",
        vec![live_target(Some(60), true)],
        DisplayDimmingState::UserDimmed,
        None,
    );
    assert_eq!(update(&mut display, conditions(true, false), vec![true]), 0);
    assert_eq!(display.dimming_state, DisplayDimmingState::UserDimmed);
    assert_eq!(update(&mut display, conditions(false, false), vec![true]), 0);
    assert_eq!(display.dimming_state, DisplayDimmingState::AutoDimmed);
}

#[test]
fn lit_display_with_a_dimmed_target_is_restored() {
    let mut display = test_display(
        "test",
        vec![live_target(Some(60), true)],
        DisplayDimmingState::Lit,
        None,
    );
    assert_eq!(update(&mut display, conditions(true, false), vec![true]), 1);
    assert!(!display.targets[0].is_dimmed);
    assert_eq!(display.dimming_state, DisplayDimmingState::Lit);
}

#[test]
fn dark_display_with_a_lit_target_is_dimmed_again() {
    let mut display = test_display(
        "test",
        vec![live_target(Some(60), true), live_target(Some(70), false)],
        DisplayDimmingState::AutoDimmed,
        None,
    );
    assert_eq!(update(&mut display, conditions(false, false), vec![true, true]), 4);
    assert!(display.targets[1].is_dimmed);
    assert_eq!(display.targets[1].restore_brightness, Some(70));
    assert_eq!(display.dimming_state, DisplayDimmingState::AutoDimmed);
}

#[test]
fn shutdown_clears_what_is_pending() {
    let pending = PendingBrightnessOperation::Dim {
        brightness: 0,
        next_state: DisplayDimmingState::AutoDimmed,
    };
    let mut display = test_display(
        "test",
        vec![live_target(Some(60), true), live_target(Some(70), false)],
        DisplayDimmingState::AutoDimmed,
        Some(pending),
    );
    let now = conditions(false, false);
    let step = visit_display(&mut display, Visit::Shutdown, now);
    assert_eq!(finish(&mut display, now, step, vec![false, true]), 1);
    assert_eq!(display.pending_operation, None);
    assert_eq!(display.dimming_state, DisplayDimmingState::AutoDimmed);
    assert!(display.targets[0].is_dimmed);

    let step = visit_display(&mut display, Visit::Shutdown, now);
    assert_eq!(finish(&mut display, now, step, vec![true, true]), 1);
    assert_eq!(display.dimming_state, DisplayDimmingState::Lit);
    assert!(!display.targets[0].is_dimmed);
}

#[test]
fn updates_keep_the_display_and_its_monitors() {
    let mut first = live_target(None, false);
    first.handle = 31;
    let mut second = live_target(None, false);
    second.handle = 32;
    second.key.physical_index = 1;
    let mut display = test_display("test", vec![first, second], DisplayDimmingState::Lit, None);
    display.last_blocking_window = Some("note".to_string());
    for (has_window, willing) in vec![(false, true), (true, false), (true, true), (false, false)] {
        let _ = update(&mut display, conditions(has_window, false), vec![willing, true]);
        assert_eq!(display.device_name, "test");
        assert_eq!(display.bounds, SimpleRect { left: 0, top: 0, right: 1, bottom: 1 });
        assert_eq!(display.last_blocking_window, Some("note".to_string()));
        assert_eq!(display.targets.len(), 2);
        for (at, target) in display.targets.iter().enumerate() {
            assert_eq!(target.handle, 31 + at as isize);
            assert_eq!(target.key.physical_index, at);
            assert_eq!(target.description, "monitor");
            assert!(!target.is_dimmed || target.restore_brightness.is_some());
        }
    }
}
