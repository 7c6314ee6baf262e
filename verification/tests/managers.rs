use mmd::brightness::DisplayDimmingState;
use mmd::brightness::PendingBrightnessOperation;
use mmd::display::DisplayState;
use mmd::geometry::SimpleRect;
use mmd::ledger::Ledger;
use mmd::manager::MonitorManager;
use mmd::manager::Operation;
use mmd::settings::AppSettings;
use mmd::target::BrightnessReading;
use mmd::target::MonitorReply;
use mmd::target::PhysicalMonitorTarget;
use mmd::target::Stage;
use mmd::target::TargetAvailability;
use mmd::target::TargetKey;
use mmd::text::normalize_name;
use mmd::tracking::try_find_blocking_window;
use mmd::tracking::TrackedWindow;

fn test_target(
    display_device_name: &str,
    description: &str,
    physical_index: usize,
    restore_brightness: Option<u32>,
    is_dimmed: bool,
) -> PhysicalMonitorTarget {
    PhysicalMonitorTarget {
        handle: 0,
        key: TargetKey {
            display_device_name: display_device_name.to_string(),
            description: normalize_name(description),
            physical_index,
        },
        description: description.to_string(),
        restore_brightness,
        is_dimmed,
        availability: TargetAvailability::Available,
        consecutive_failures: 0,
        disposed: true,
    }
}

fn test_display(
    device_name: &str,
    targets: Vec<PhysicalMonitorTarget>,
    dimming_state: DisplayDimmingState,
    pending_operation: Option<PendingBrightnessOperation>,
) -> DisplayState {
    DisplayState {
        device_name: device_name.to_string(),
        bounds: SimpleRect {
            left: 0,
            top: 0,
            right: 1,
            bottom: 1,
        },
        targets,
        dimming_state,
        pending_operation,
        last_blocking_window: None,
    }
}

fn live_display(device_name: &str, handle: isize, left: i32) -> DisplayState {
    let mut target = test_target(device_name, "monitor", 0, None, false);
    target.handle = handle;
    target.disposed = false;
    let mut display = test_display(device_name, vec![target], DisplayDimmingState::Lit, None);
    display.bounds = SimpleRect { left, top: 0, right: left + 1920, bottom: 1080 };
    display
}

fn window(left: i32, top: i32, right: i32, bottom: i32) -> TrackedWindow {
    TrackedWindow {
        process_name: "notepad".to_string(),
        title: "Notes".to_string(),
        bounds: SimpleRect { left, top, right, bottom },
    }
}

struct Monitors {
    levels: Vec<u32>,
    answering: Vec<bool>,
    written: Vec<(isize, u32)>,
}

impl Monitors {
    fn new(levels: Vec<u32>) -> Self {
        let answering = levels.iter().map(|_| true).collect();
        Monitors { levels, answering, written: vec![] }
    }

    fn reply(&mut self, monitor: isize, stage: Stage) -> MonitorReply {
        let at = monitor as usize;
        let answering = self.answering[at];
        match stage {
            Stage::Capabilities => MonitorReply::Capabilities(
                if answering { Some(2) } else { None },
            ),
            Stage::Reading => MonitorReply::Reading(
                if answering {
                    Some(BrightnessReading {
                        minimum: 0,
                        current: self.levels[at],
                        maximum: 100,
                    })
                } else {
                    None
                },
            ),
            Stage::Writing { level } => {
                if answering {
                    self.levels[at] = level;
                    self.written.push((monitor, level));
                }
                MonitorReply::Written(answering)
            }
        }
    }

    fn finish(&mut self, manager: &mut MonitorManager, operation: Option<Operation>) {
        let mut operation = operation;
        while let Some(waiting) = operation {
            let request = manager.request(&waiting);
            let reply = self.reply(request.monitor, request.stage);
            operation = manager.resume(waiting, reply);
        }
    }
}

fn two_displays() -> MonitorManager {
    let mut manager = MonitorManager::new(AppSettings::default());
    manager.attach_displays(vec![live_display("left", 0, 0), live_display("right", 1, 1920)]);
    manager
}

#[test]
fn manual_dimming_check_state_tracks_user_intent_even_when_ddc_fails() {
    let mut manager = MonitorManager {
        settings: AppSettings::default(),
        displays: vec![test_display(
            "display",
            vec![test_target("display", "monitor", 0, Some(73), false)],
            DisplayDimmingState::Lit,
            None,
        )],
        detached_snapshots: Ledger::new(),
        manual_dimming_enabled: false,
    };

    assert!(manager.dim_all().is_none());

    assert!(manager.manual_dimming_enabled());
    assert!(manager.displays[0].pending_operation.is_some());
    assert!(!manager.displays[0].targets[0].is_dimmed);

    assert!(manager.restore_all_from_user(&[]).is_none());

    assert!(!manager.manual_dimming_enabled());
}

#[test]
fn update_darkens_the_display_without_a_window() {
    let mut manager = two_displays();
    let mut monitors = Monitors::new(vec![70, 90]);
    let operation = manager.update(&[window(100, 100, 500, 500)]);
    monitors.finish(&mut manager, operation);
    assert_eq!(monitors.written, vec![(1, 0)]);
    assert_eq!(manager.displays[0].dimming_state, DisplayDimmingState::Lit);
    assert_eq!(
        manager.displays[0].last_blocking_window,
        Some("notepad: Notes".to_string())
    );
    assert_eq!(manager.displays[1].dimming_state, DisplayDimmingState::AutoDimmed);
    assert_eq!(manager.displays[1].last_blocking_window, None);
    assert_eq!(manager.dimmed_display_count(), 1);

    let operation = manager.update(&[window(2000, 100, 2500, 500)]);
    monitors.finish(&mut manager, operation);
    assert_eq!(monitors.levels, vec![0, 90]);
    assert_eq!(manager.displays[0].dimming_state, DisplayDimmingState::AutoDimmed);
    assert_eq!(manager.displays[1].dimming_state, DisplayDimmingState::Lit);
}

#[test]
fn failure_on_one_display_does_not_stop_the_others() {
    let mut manager = two_displays();
    let mut monitors = Monitors::new(vec![70, 90]);
    monitors.answering[0] = false;
    let operation = manager.update(&[]);
    monitors.finish(&mut manager, operation);
    assert_eq!(manager.pending_operation_count(), 1);
    assert!(manager.displays[0].pending_operation.is_some());
    assert_eq!(manager.displays[1].dimming_state, DisplayDimmingState::AutoDimmed);
    assert_eq!(monitors.levels, vec![70, 0]);
}

#[test]
fn dimming_and_restoring_by_hand_returns_to_the_earlier_levels() {
    let mut manager = two_displays();
    let mut monitors = Monitors::new(vec![70, 90]);
    let operation = manager.dim_all();
    monitors.finish(&mut manager, operation);
    assert_eq!(monitors.levels, vec![0, 0]);
    assert_eq!(
        manager.displays[0].last_blocking_window,
        Some("Tray icon click".to_string())
    );
    assert_eq!(manager.displays[1].dimming_state, DisplayDimmingState::UserDimmed);

    let operation = manager.restore_all_from_user(&[window(0, 0, 1920, 1080)]);
    monitors.finish(&mut manager, operation);
    assert_eq!(monitors.levels, vec![70, 90]);
    assert_eq!(manager.displays[0].dimming_state, DisplayDimmingState::Lit);
    assert_eq!(
        manager.displays[1].dimming_state,
        DisplayDimmingState::UserRestoredWhileEmpty
    );
}

#[test]
fn picked_brightness_is_set_everywhere_and_noted() {
    let mut manager = two_displays();
    let mut monitors = Monitors::new(vec![70, 90]);
    let operation = manager.set_all_brightness(25, &[window(0, 0, 1920, 1080)]);
    monitors.finish(&mut manager, operation);
    assert_eq!(monitors.levels, vec![25, 25]);
    assert_eq!(
        manager.displays[0].last_blocking_window,
        Some("notepad: Notes".to_string())
    );
    assert_eq!(
        manager.displays[1].last_blocking_window,
        Some("Brightness set to 25%".to_string())
    );
    assert_eq!(manager.displays[0].targets[0].restore_brightness, Some(25));
    assert_eq!(
        manager.displays[1].dimming_state,
        DisplayDimmingState::UserRestoredWhileEmpty
    );
}

#[test]
fn shutdown_returns_every_monitor_and_closes_it() {
    let mut manager = two_displays();
    let mut monitors = Monitors::new(vec![70, 90]);
    let operation = manager.update(&[]);
    monitors.finish(&mut manager, operation);
    assert_eq!(monitors.levels, vec![0, 0]);
    let operation = manager.restore_all();
    monitors.finish(&mut manager, operation);
    assert_eq!(monitors.levels, vec![70, 90]);
    assert_eq!(manager.pending_operation_count(), 0);
    assert_eq!(manager.release_displays(), vec![0, 1]);
    assert!(manager.displays.is_empty());
}

#[test]
fn reenumeration_dims_again_and_remembers_the_levels() {
    let mut manager = two_displays();
    let mut monitors = Monitors::new(vec![70, 90, 0, 0]);
    let operation = manager.update(&[]);
    monitors.finish(&mut manager, operation);
    monitors.written.clear();

    assert_eq!(manager.detach_displays(), vec![0, 1]);
    assert_eq!(manager.detached_snapshots.len(), 2);
    let operation = manager.reenumerate(vec![live_display("right", 2, 0)], &[]);
    monitors.finish(&mut manager, operation);
    assert_eq!(monitors.written, vec![(2, 0)]);
    assert_eq!(manager.displays[0].targets[0].restore_brightness, Some(90));
    assert_eq!(manager.displays[0].dimming_state, DisplayDimmingState::AutoDimmed);
    assert_eq!(manager.detached_snapshots.len(), 1);

    assert_eq!(manager.detach_displays(), vec![2]);
    let found = vec![live_display("left", 3, 0), live_display("right", 2, 1920)];
    let everywhere = window(0, 0, 4000, 1080);
    let operation = manager.reenumerate(found, &[everywhere]);
    monitors.finish(&mut manager, operation);
    assert_eq!(manager.detached_snapshots.len(), 0);
    assert_eq!(manager.displays[0].targets[0].restore_brightness, Some(70));
    assert_eq!(manager.displays[0].dimming_state, DisplayDimmingState::Lit);
}

#[test]
fn only_enough_of_a_window_keeps_a_display_lit() {
    let settings = AppSettings::default();
    let display = live_display("left", 0, 0);
    let slim = window(1900, 0, 2200, 1080);
    assert_eq!(try_find_blocking_window(&settings, &display, &[slim]), (false, None));
    let flat = window(0, 1050, 1920, 1200);
    assert_eq!(try_find_blocking_window(&settings, &display, &[flat]), (false, None));
    let corner = window(1888, 1048, 3000, 3000);
    assert_eq!(
        try_find_blocking_window(&settings, &display, &[corner]),
        (true, Some("notepad: Notes".to_string()))
    );
    let beside = window(1920, 0, 3840, 1080);
    assert_eq!(try_find_blocking_window(&settings, &display, &[beside]), (false, None));
    let mut first = window(0, 0, 100, 100);
    first.title = "First".to_string();
    assert_eq!(
        try_find_blocking_window(
            &settings,
            &display,
            &[window(-50, 0, 10, 100), first, window(0, 0, 1920, 1080)],
        ),
        (true, Some("notepad: First".to_string()))
    );
}

#[test]
fn area_counts_besides_width_and_height() {
    let mut settings = AppSettings::default();
    settings.minimum_overlap_pixels = 5000;
    let display = live_display("left", 0, 0);
    let small = window(0, 0, 70, 70);
    assert_eq!(try_find_blocking_window(&settings, &display, &[small]), (false, None));
    let enough = window(0, 0, 100, 50);
    assert!(try_find_blocking_window(&settings, &display, &[enough]).0);
    let mut huge = live_display("huge", 0, 0);
    huge.bounds = SimpleRect { left: i32::MIN, top: i32::MIN, right: i32::MAX, bottom: i32::MAX };
    let all = window(i32::MIN, i32::MIN, i32::MAX, i32::MAX);
    assert!(try_find_blocking_window(&settings, &huge, &[all]).0);
}

#[test]
fn diagnostics_tell_of_every_display() {
    let mut manager = two_displays();
    let mut monitors = Monitors::new(vec![70, 90]);
    monitors.answering[1] = false;
    let operation = manager.update(&[window(0, 0, 500, 500)]);
    monitors.finish(&mut manager, operation);
    manager.displays[0].pending_operation = Some(PendingBrightnessOperation::SetLevel {
        brightness: 50,
        next_state: DisplayDimmingState::Lit,
    });
    assert_eq!(
        manager.build_diagnostic_text(),
        "DPI mode: PerMonitorV2\r\n\
         Manual dimming: false\r\n\
         Controllable displays: 2/2\r\n\
         Dimmed displays: 0\r\n\
         Detached display snapshots: 0\r\n\
         \r\n\
         left 1920x1080 targets=1\r\n\
         \x20 State: Lit\r\n\
         \x20 Pending: Some(Set { brightness: 50, next_state: Lit })\r\n\
         \x20 Blocking window: notepad: Notes\r\n\
         \x20 Monitor: monitor dimmed=false availability=Available\r\n\
         right 1920x1080 targets=1\r\n\
         \x20 State: Lit\r\n\
         \x20 Pending: Some(Dim { brightness: 0, next_state: AutoDimmed })\r\n\
         \x20 Blocking window: (none)\r\n\
         \x20 Monitor: monitor dimmed=false availability=TemporarilyUnavailable"
    );
    manager.displays[0].pending_operation = Some(PendingBrightnessOperation::Restore {
        next_state: DisplayDimmingState::UserRestoredWhileEmpty,
    });
    assert!(manager
        .build_diagnostic_text()
        .contains("  Pending: Some(Restore { next_state: UserRestoredWhileEmpty })\r\n"));
}

#[test]
fn displays_are_counted() {
    let mut manager = two_displays();
    assert_eq!(manager.controllable_display_count(), 2);
    assert_eq!(manager.dimmed_display_count(), 0);
    assert_eq!(manager.pending_operation_count(), 0);
    manager.displays[0].targets[0].availability = TargetAvailability::Unavailable;
    manager.displays[0].targets[0].is_dimmed = true;
    manager.displays[1].pending_operation = Some(PendingBrightnessOperation::Restore {
        next_state: DisplayDimmingState::Lit,
    });
    assert_eq!(manager.controllable_display_count(), 1);
    assert_eq!(manager.dimmed_display_count(), 1);
    assert_eq!(manager.pending_operation_count(), 1);
}
