use mmd::target::BrightnessReading;
use mmd::target::MonitorReply;
use mmd::target::PhysicalMonitorTarget;
use mmd::target::Stage;
use mmd::target::TargetAvailability;
use mmd::target::TargetCommand;
use mmd::target::TargetKey;
use mmd::target::TargetStep;
use mmd::text::normalize_name;

fn test_target(
    display_device_name: &str,
    description: &str,
    physical_index: usize,
    restore_brightness: Option<u32>,
    is_dimmed: bool,
) -> PhysicalMonitorTarget {
    PhysicalMonitorTarget {
        handle: 0,
        key: TargetKey {
            display_device_name: display_device_name.to_string(),
            description: normalize_name(description),
            physical_index,
        },
        description: description.to_string(),
        restore_brightness,
        is_dimmed,
        availability: TargetAvailability::Available,
        consecutive_failures: 0,
        disposed: true,
    }
}

fn live_target(restore_brightness: Option<u32>, is_dimmed: bool) -> PhysicalMonitorTarget {
    let mut target = test_target("display", "monitor", 0, restore_brightness, is_dimmed);
    target.disposed = false;
    target
}

fn reading(minimum: u32, current: u32, maximum: u32) -> MonitorReply {
    MonitorReply::Reading(Some(BrightnessReading { minimum, current, maximum }))
}

fn writing(level: u32) -> Stage {
    Stage::Writing { level }
}

#[test]
fn failed_target_is_only_disabled_after_repeated_failures() {
    let mut target = test_target("display", "monitor", 0, None, false);
    target.availability = TargetAvailability::Unknown;

    assert!(!target.record_failure());
    assert_eq!(
        target.availability,
        TargetAvailability::TemporarilyUnavailable
    );
    assert!(!target.record_failure());
    assert!(target.record_failure());
    assert_eq!(target.availability, TargetAvailability::Unavailable);
}

#[test]
fn success_makes_up_for_earlier_failures() {
    let mut target = live_target(None, false);
    assert!(!target.record_failure());
    assert!(!target.record_failure());
    target.record_success();
    assert_eq!(target.availability, TargetAvailability::Available);
    assert!(!target.record_failure());
    assert!(!target.record_failure());
    assert!(target.can_attempt_operations());
    assert!(target.record_failure());
    assert!(!target.can_attempt_operations());
}

#[test]
fn failures_are_counted_no_further_than_the_counter_goes() {
    let mut target = live_target(None, false);
    target.consecutive_failures = u8::MAX;
    assert!(target.record_failure());
    assert_eq!(target.consecutive_failures, u8::MAX);
}

#[test]
fn monitor_without_a_description_gets_one() {
    let key = TargetKey {
        display_device_name: "display".to_string(),
        description: String::new(),
        physical_index: 0,
    };
    let target = PhysicalMonitorTarget::new(7, key, " \t".to_string());
    assert_eq!(target.description, "Unknown monitor");
    assert_eq!(target.handle, 7);
    assert_eq!(target.availability, TargetAvailability::Unknown);
    assert_eq!(target.restore_brightness, None);
    assert!(!target.is_dimmed);
    assert!(!target.disposed);
}

#[test]
fn probe_tells_unsupported_monitors_apart() {
    let mut target = live_target(None, false);
    target.availability = TargetAvailability::Unknown;
    assert_eq!(
        target.begin(TargetCommand::Probe),
        TargetStep::Ask { stage: Stage::Capabilities }
    );
    let step = target.resume(
        TargetCommand::Probe,
        Stage::Capabilities,
        MonitorReply::Capabilities(Some(5)),
    );
    assert_eq!(step, TargetStep::Done { settled: true });
    assert_eq!(target.availability, TargetAvailability::Unsupported);
    assert!(!target.can_attempt_operations());
}

#[test]
fn probe_reads_the_brightness_where_capabilities_are_unknown() {
    let mut target = live_target(None, false);
    target.availability = TargetAvailability::Unknown;
    let step = target.resume(
        TargetCommand::Probe,
        Stage::Capabilities,
        MonitorReply::Capabilities(None),
    );
    assert_eq!(step, TargetStep::Ask { stage: Stage::Reading });
    let step = target.resume(TargetCommand::Probe, Stage::Reading, MonitorReply::Reading(None));
    assert_eq!(step, TargetStep::Done { settled: true });
    assert_eq!(target.availability, TargetAvailability::TemporarilyUnavailable);

    let step = target.resume(
        TargetCommand::Probe,
        Stage::Capabilities,
        MonitorReply::Capabilities(Some(2)),
    );
    assert_eq!(step, TargetStep::Ask { stage: Stage::Reading });
    let step = target.resume(TargetCommand::Probe, Stage::Reading, reading(0, 50, 100));
    assert_eq!(step, TargetStep::Done { settled: true });
    assert_eq!(target.availability, TargetAvailability::Available);
    assert_eq!(target.consecutive_failures, 0);
}

#[test]
fn restoring_returns_to_the_level_before_dimming() {
    let mut target = live_target(None, false);
    let dim = TargetCommand::Dim { percent: 10 };
    assert_eq!(target.begin(dim), TargetStep::Ask { stage: Stage::Reading });
    assert_eq!(
        target.resume(dim, Stage::Reading, reading(20, 150, 220)),
        TargetStep::Ask { stage: writing(40) }
    );
    assert_eq!(
        target.resume(dim, writing(40), MonitorReply::Written(true)),
        TargetStep::Done { settled: true }
    );
    assert!(target.is_dimmed);
    assert_eq!(target.restore_brightness, Some(150));

    assert_eq!(
        target.begin(TargetCommand::Restore),
        TargetStep::Ask { stage: writing(150) }
    );
    assert_eq!(
        target.resume(TargetCommand::Restore, writing(150), MonitorReply::Written(true)),
        TargetStep::Done { settled: true }
    );
    assert!(!target.is_dimmed);
    assert_eq!(target.restore_brightness, Some(150));
}

#[test]
fn dimming_again_keeps_the_noted_level() {
    let mut target = live_target(Some(150), true);
    let dim = TargetCommand::Dim { percent: 0 };
    let _ = target.begin(dim);
    let _ = target.resume(dim, Stage::Reading, reading(0, 3, 100));
    let _ = target.resume(dim, writing(0), MonitorReply::Written(true));
    assert_eq!(target.restore_brightness, Some(150));
}

#[test]
fn refused_level_leaves_the_target_as_it_was() {
    let mut target = live_target(Some(80), false);
    let dim = TargetCommand::Dim { percent: 0 };
    let _ = target.begin(dim);
    let _ = target.resume(dim, Stage::Reading, reading(0, 80, 100));
    let step = target.resume(dim, writing(0), MonitorReply::Written(false));
    assert_eq!(step, TargetStep::Done { settled: false });
    assert!(!target.is_dimmed);
    assert_eq!(target.availability, TargetAvailability::TemporarilyUnavailable);
}

#[test]
fn third_failure_in_a_row_settles_a_command() {
    let mut target = live_target(Some(80), false);
    let dim = TargetCommand::Dim { percent: 0 };
    for settled in vec![false, false, true] {
        assert_eq!(target.begin(dim), TargetStep::Ask { stage: Stage::Reading });
        assert_eq!(
            target.resume(dim, Stage::Reading, MonitorReply::Reading(None)),
            TargetStep::Done { settled }
        );
    }
    assert_eq!(target.begin(dim), TargetStep::Done { settled: true });
    assert_eq!(target.availability, TargetAvailability::Unavailable);
}

#[test]
fn picked_brightness_becomes_the_level_to_return_to() {
    let mut target = live_target(Some(80), true);
    let set = TargetCommand::SetLevel { percent: 50 };
    assert_eq!(target.begin(set), TargetStep::Ask { stage: Stage::Reading });
    assert_eq!(
        target.resume(set, Stage::Reading, reading(20, 20, 220)),
        TargetStep::Ask { stage: writing(120) }
    );
    let _ = target.resume(set, writing(120), MonitorReply::Written(true));
    assert_eq!(target.restore_brightness, Some(120));
    assert!(!target.is_dimmed);
}

#[test]
fn restoring_without_a_noted_level_asks_nothing() {
    let mut target = live_target(None, true);
    assert_eq!(
        target.begin(TargetCommand::RestoreForShutdown),
        TargetStep::Done { settled: false }
    );
    assert!(target.is_dimmed);
    assert_eq!(target.begin(TargetCommand::Restore), TargetStep::Done { settled: true });
    assert!(!target.is_dimmed);
}

#[test]
fn shutdown_tries_even_a_target_that_was_given_up() {
    let mut target = live_target(Some(70), true);
    target.availability = TargetAvailability::Unavailable;
    assert_eq!(target.begin(TargetCommand::Restore), TargetStep::Done { settled: true });
    assert!(target.is_dimmed);
    let command = TargetCommand::RestoreForShutdown;
    assert_eq!(target.begin(command), TargetStep::Ask { stage: writing(70) });
    assert_eq!(
        target.resume(command, writing(70), MonitorReply::Written(false)),
        TargetStep::Done { settled: false }
    );
    assert!(target.is_dimmed);
    assert_eq!(
        target.resume(command, writing(70), MonitorReply::Written(true)),
        TargetStep::Done { settled: true }
    );
    assert!(!target.is_dimmed);
    assert_eq!(target.availability, TargetAvailability::Unavailable);
}

#[test]
fn disposed_target_is_never_talked_to() {
    let mut target = test_target("display", "monitor", 0, Some(50), true);
    assert_eq!(target.begin(TargetCommand::Probe), TargetStep::Done { settled: true });
    assert_eq!(
        target.begin(TargetCommand::Dim { percent: 0 }),
        TargetStep::Done { settled: false }
    );
    assert_eq!(
        target.begin(TargetCommand::SetLevel { percent: 0 }),
        TargetStep::Done { settled: false }
    );
    assert_eq!(target.begin(TargetCommand::Restore), TargetStep::Done { settled: false });
    assert_eq!(
        target.begin(TargetCommand::RestoreForShutdown),
        TargetStep::Done { settled: false }
    );
    assert!(!target.can_attempt_operations());
    assert_eq!(target.dispose(), None);
}

#[test]
fn disposing_tells_the_handle_once() {
    let mut target = live_target(None, false);
    target.handle = 99;
    assert_eq!(target.dispose(), Some(99));
    assert_eq!(target.dispose(), None);
    assert!(target.disposed);
}

#[test]
fn answers_are_matched_to_questions() {
    assert!(MonitorReply::Written(true).is_answer_to(writing(3)));
    assert!(!MonitorReply::Written(true).is_answer_to(Stage::Reading));
    assert!(reading(0, 0, 0).is_answer_to(Stage::Reading));
    assert!(!MonitorReply::Capabilities(None).is_answer_to(writing(0)));
    assert!(MonitorReply::Capabilities(None).is_answer_to(Stage::Capabilities));
}
