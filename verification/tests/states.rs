use mmd::brightness::DisplayDimmingState;
use mmd::brightness::PendingBrightnessOperation;
use mmd::commands::ID_BRIGHTNESS_50;
use mmd::commands::ID_DIAGNOSTICS;
use mmd::commands::ID_EXIT;
use mmd::commands::ID_REFRESH;
use mmd::commands::ID_TOGGLE_DIMMING;
use mmd::display::DisplayState;
use mmd::enumeration::DisplayInfo;
use mmd::enumeration::EnumerationReply;
use mmd::enumeration::EnumerationRequest;
use mmd::enumeration::MonitorInfo;
use mmd::events::EpochTime;
use mmd::events::EventLog;
use mmd::events::LastEvent;
use mmd::events::EVENT_OBJECT_SHOW;
use mmd::geometry::SimpleRect;
use mmd::manager::MonitorRequest;
use mmd::settings::AppSettings;
use mmd::state::AppAction;
use mmd::state::AppState;
use mmd::state::AppStep;
use mmd::state::Effect;
use mmd::state::Task;
use mmd::state::Turn;
use mmd::target::BrightnessReading;
use mmd::target::MonitorReply;
use mmd::target::PhysicalMonitorTarget;
use mmd::target::Stage;
use mmd::target::TargetAvailability;
use mmd::target::TargetKey;
use mmd::tracking::TrackedWindow;
use mmd::utf16::wide_null;

struct World {
    level: u32,
    answering: bool,
    timer: Option<u32>,
    timer_works: bool,
    tooltip: String,
    windows: usize,
    closed: Vec<isize>,
}

impl World {
    fn new() -> Self {
        World {
            level: 80,
            answering: true,
            timer: None,
            timer_works: true,
            tooltip: String::new(),
            windows: 0,
            closed: vec![],
        }
    }

    fn reply(&mut self, request: MonitorRequest) -> MonitorReply {
        match request.stage {
            Stage::Capabilities => MonitorReply::Capabilities(Some(2)),
            Stage::Reading => MonitorReply::Reading(
                if self.answering {
                    Some(BrightnessReading { minimum: 0, current: self.level, maximum: 100 })
                } else {
                    None
                },
            ),
            Stage::Writing { level } => {
                if self.answering {
                    self.level = level;
                }
                MonitorReply::Written(self.answering)
            }
        }
    }

    fn list_windows(&self) -> Vec<TrackedWindow> {
        let mut windows = vec![];
        for _ in 0..self.windows {
            windows.push(TrackedWindow {
                process_name: "app".to_string(),
                title: "Window".to_string(),
                bounds: bounds(),
            });
        }
        windows
    }

    fn run(&mut self, state: &mut AppState, turn: Turn) -> AppAction {
        let mut turn = turn;
        loop {
            for effect in turn.effects {
                match effect {
                    Effect::StopTimer => self.timer = None,
                    Effect::StartTimer { milliseconds } => {
                        if self.timer_works {
                            self.timer = Some(milliseconds);
                        } else {
                            let lost = state.timer_lost();
                            for effect in lost.effects {
                                if let Effect::SetTooltip { text } = effect {
                                    self.tooltip = text;
                                }
                            }
                        }
                    }
                    Effect::SetTooltip { text } => self.tooltip = text,
                }
            }
            let mut step = turn.step;
            loop {
                step = match step {
                    AppStep::Finished { action } => {
                        return action;
                    }
                    AppStep::ListWindows { task } => state.take_windows(task, self.list_windows()),
                    AppStep::ListDisplays { closing, windows } => {
                        self.closed.extend(closing);
                        let infos = vec![DisplayInfo {
                            handle: 9,
                            device_name: "display".to_string(),
                            bounds: bounds(),
                        }];
                        state.take_displays(infos, windows)
                    }
                    AppStep::Enumerate { enumeration, windows } => {
                        let reply = match enumeration.request() {
                            EnumerationRequest::CountMonitors { display } => {
                                assert_eq!(display, 9);
                                EnumerationReply::MonitorCount(Some(1))
                            }
                            EnumerationRequest::ListMonitors { .. } => {
                                EnumerationReply::Monitors(Some(vec![MonitorInfo {
                                    handle: 8,
                                    description: wide_null("Monitor"),
                                }]))
                            }
                            EnumerationRequest::Monitor { request } => {
                                EnumerationReply::Monitor(self.reply(request))
                            }
                        };
                        state.resume_enumeration(enumeration, windows, reply)
                    }
                    AppStep::Talk { task, operation } => {
                        let request = state.monitor_manager.request(&operation);
                        let reply = self.reply(request);
                        state.resume_operation(task, operation, reply)
                    }
                    AppStep::Conclude { task } => {
                        turn = state.conclude(task, false);
                        break;
                    }
                };
            }
        }
    }
}

fn bounds() -> SimpleRect {
    SimpleRect { left: 0, top: 0, right: 1920, bottom: 1080 }
}

fn one_display() -> AppState {
    let display = DisplayState {
        device_name: "display".to_string(),
        bounds: bounds(),
        targets: vec![PhysicalMonitorTarget {
            handle: 3,
            key: TargetKey {
                display_device_name: "display".to_string(),
                description: "monitor".to_string(),
                physical_index: 0,
            },
            description: "Monitor".to_string(),
            restore_brightness: None,
            is_dimmed: false,
            availability: TargetAvailability::Available,
            consecutive_failures: 0,
            disposed: false,
        }],
        dimming_state: DisplayDimmingState::Lit,
        pending_operation: None,
        last_blocking_window: None,
    };
    AppState::new(AppSettings::default(), vec![display])
}

#[test]
fn first_update_darkens_the_empty_display() {
    let mut state = one_display();
    let mut world = World::new();
    let turn = state.update_brightness_state();
    assert!(matches!(world.run(&mut state, turn), AppAction::Nothing));
    assert_eq!(world.level, 0);
    assert_eq!(world.tooltip, "MMD - 1/1 dimmed");
    assert_eq!(world.timer, None);
    assert_eq!(state.last_error, None);
}

#[test]
fn events_schedule_one_update() {
    let mut state = one_display();
    let mut world = World::new();
    let turn = state.schedule_update();
    let _ = world.run(&mut state, turn);
    assert_eq!(world.timer, Some(1000));
    assert!(state.update_scheduled);
    let turn = state.schedule_update();
    assert!(turn.effects.is_empty());
    let turn = state.timer_elapsed();
    let _ = world.run(&mut state, turn);
    assert_eq!(world.timer, None);
    assert!(!state.update_scheduled);
    assert_eq!(world.level, 0);
}

#[test]
fn failed_update_is_tried_again() {
    let mut state = one_display();
    let mut world = World::new();
    world.answering = false;
    let turn = state.update_brightness_state();
    let _ = world.run(&mut state, turn);
    assert_eq!(world.tooltip, "MMD - retrying 1 brightness update(s)");
    assert_eq!(world.timer, Some(5000));
    assert!(state.retry_timer_scheduled);

    let turn = state.schedule_update();
    let _ = world.run(&mut state, turn);
    assert_eq!(world.timer, Some(1000));
    assert!(!state.retry_timer_scheduled);

    world.answering = true;
    let turn = state.timer_elapsed();
    let _ = world.run(&mut state, turn);
    assert_eq!(world.tooltip, "MMD - 1/1 dimmed");
    assert_eq!(world.timer, None);
}

#[test]
fn timer_never_runs_for_no_time() {
    let mut state = one_display();
    state.settings.event_debounce_milliseconds = 0;
    let mut world = World::new();
    let turn = state.schedule_update();
    let _ = world.run(&mut state, turn);
    assert_eq!(world.timer, Some(1));
}

#[test]
fn timer_that_cannot_be_started_is_an_error() {
    let mut state = one_display();
    let mut world = World::new();
    world.timer_works = false;
    let turn = state.schedule_update();
    let _ = world.run(&mut state, turn);
    assert!(!state.update_scheduled);
    assert!(!state.retry_timer_scheduled);
    assert_eq!(world.tooltip, "MMD - Error: Failed to schedule brightness update");
    let turn = state.update_brightness_state();
    let _ = world.run(&mut state, turn);
    assert_eq!(state.last_error, None);
}

#[test]
fn toggling_dims_and_restores() {
    let mut state = one_display();
    let mut world = World::new();
    world.windows = 1;
    let log = EventLog::new();
    let turn = state.schedule_update();
    let _ = world.run(&mut state, turn);
    let turn = state.handle_command(ID_TOGGLE_DIMMING, &log);
    let _ = world.run(&mut state, turn);
    assert_eq!(world.timer, None);
    assert_eq!(world.level, 0);
    assert!(state.monitor_manager.manual_dimming_enabled());
    let turn = state.toggle_tray_brightness();
    let _ = world.run(&mut state, turn);
    assert_eq!(world.level, 80);
    assert!(!state.monitor_manager.manual_dimming_enabled());
    assert_eq!(world.tooltip, "MMD - 0/1 dimmed");
}

#[test]
fn picked_brightness_is_set() {
    let mut state = one_display();
    let mut world = World::new();
    let turn = state.handle_command(ID_BRIGHTNESS_50, &EventLog::new());
    let _ = world.run(&mut state, turn);
    assert_eq!(world.level, 50);
    assert_eq!(
        state.monitor_manager.displays[0].dimming_state,
        DisplayDimmingState::UserRestoredWhileEmpty
    );
}

#[test]
fn refresh_finds_the_displays_anew() {
    let mut state = one_display();
    let mut world = World::new();
    let turn = state.schedule_display_refresh();
    let _ = world.run(&mut state, turn);
    assert!(state.display_refresh_needed);
    let turn = state.handle_command(ID_REFRESH, &EventLog::new());
    let _ = world.run(&mut state, turn);
    assert!(!state.display_refresh_needed);
    assert_eq!(world.timer, None);
    assert_eq!(world.closed, vec![3]);
    assert_eq!(state.monitor_manager.displays.len(), 1);
    assert_eq!(state.monitor_manager.displays[0].targets[0].handle, 8);
    assert_eq!(world.level, 0);
}

#[test]
fn exit_and_unknown_commands_change_nothing() {
    let mut state = one_display();
    let mut world = World::new();
    let log = EventLog::new();
    let turn = state.handle_command(ID_EXIT, &log);
    assert!(matches!(world.run(&mut state, turn), AppAction::Exit));
    let turn = state.handle_command(5, &log);
    assert!(turn.effects.is_empty());
    assert!(matches!(world.run(&mut state, turn), AppAction::Nothing));
    assert_eq!(world.level, 80);
}

#[test]
fn update_that_breaks_off_is_an_error() {
    let mut state = one_display();
    let turn = state.conclude(Task::Update, true);
    assert_eq!(state.last_error, Some("Unexpected update error".to_string()));
    assert_eq!(turn.effects.len(), 1);
    assert_eq!(state.tray_text(), "MMD - Error: Unexpected update error");
    let _ = state.conclude(Task::Toggle, false);
    assert_eq!(state.last_error, Some("Unexpected update error".to_string()));
    let _ = state.conclude(Task::Update, false);
    assert_eq!(state.last_error, None);
}

#[test]
fn tray_icon_errors_are_forgotten_once_it_is_back() {
    let mut state = one_display();
    let _ = state.restore_tray_icon(Some("no shell".to_string()));
    assert_eq!(
        state.last_error,
        Some("Failed to restore tray icon: no shell".to_string())
    );
    assert_eq!(state.tray_text(), "MMD - Error: Failed to restore tray icon: no shell");
    let _ = state.restore_tray_icon(None);
    assert_eq!(state.last_error, None);
    state.last_error = Some("Something else".to_string());
    let _ = state.restore_tray_icon(None);
    assert_eq!(state.last_error, Some("Something else".to_string()));
}

#[test]
fn diagnostics_tell_of_events_and_errors() {
    let mut state = one_display();
    let mut world = World::new();
    let log = EventLog {
        count: 12,
        last: Some(LastEvent {
            event_type: EVENT_OBJECT_SHOW,
            when: Some(EpochTime { seconds: 3, milliseconds: 4 }),
        }),
    };
    state.last_error = Some("Unexpected update error".to_string());
    state.monitor_manager.displays[0].pending_operation =
        Some(PendingBrightnessOperation::Restore { next_state: DisplayDimmingState::Lit });
    let turn = state.handle_command(ID_DIAGNOSTICS, &log);
    let text = match world.run(&mut state, turn) {
        AppAction::ShowDiagnostics { text } => text,
        _ => panic!("diagnostics were asked for"),
    };
    assert_eq!(
        text,
        "Dimmed displays: 0\r\n\
         Debounce: 1000 ms\r\n\
         Brightness retry: 5000 ms\r\n\
         Window events: 12\r\n\
         Last window event: Object change at unix+3.004s\r\n\
         \r\n\
         DPI mode: PerMonitorV2\r\n\
         Manual dimming: false\r\n\
         Controllable displays: 1/1\r\n\
         Dimmed displays: 0\r\n\
         Detached display snapshots: 0\r\n\
         \r\n\
         display 1920x1080 targets=1\r\n\
         \x20 State: Lit\r\n\
         \x20 Pending: Some(Restore { next_state: Lit })\r\n\
         \x20 Blocking window: (none)\r\n\
         \x20 Monitor: Monitor dimmed=false availability=Available\r\n\
         \r\n\
         Last error: Unexpected update error"
    );
    state.last_error = None;
    assert!(!state.build_diagnostics(&log).contains("Last error"));
}
