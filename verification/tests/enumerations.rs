use mmd::brightness::DisplayDimmingState;
use mmd::display::DisplayState;
use mmd::enumeration::display_info;
use mmd::enumeration::enumerate_displays;
use mmd::enumeration::DisplayInfo;
use mmd::enumeration::EnumerationReply;
use mmd::enumeration::EnumerationRequest;
use mmd::enumeration::EnumerationStep;
use mmd::enumeration::MonitorInfo;
use mmd::geometry::SimpleRect;
use mmd::target::BrightnessReading;
use mmd::target::MonitorReply;
use mmd::target::Stage;
use mmd::target::TargetAvailability;
use mmd::utf16::wide_null;

fn bounds() -> SimpleRect {
    SimpleRect { left: 0, top: 0, right: 800, bottom: 600 }
}

fn info(handle: isize, name: &str) -> DisplayInfo {
    DisplayInfo { handle, device_name: name.to_string(), bounds: bounds() }
}

fn monitor(handle: isize, description: &str) -> MonitorInfo {
    let mut buffer = wide_null(description);
    buffer.push(77);
    MonitorInfo { handle, description: buffer }
}

fn answer(request: EnumerationRequest) -> EnumerationReply {
    match request {
        EnumerationRequest::CountMonitors { display } => EnumerationReply::MonitorCount(
            match display {
                1 => Some(2),
                2 => Some(0),
                3 => None,
                _ => Some(1),
            },
        ),
        EnumerationRequest::ListMonitors { display, count } => {
            if display == 1 {
                assert_eq!(count, 2);
                EnumerationReply::Monitors(
                    Some(vec![monitor(11, "Dell U2720Q"), monitor(12, "  ")]),
                )
            } else {
                assert_eq!(count, 1);
                EnumerationReply::Monitors(
                    if display == 4 { None } else { Some(vec![monitor(51, "Built-in")]) },
                )
            }
        }
        EnumerationRequest::Monitor { request } => EnumerationReply::Monitor(match request.stage {
            Stage::Capabilities => MonitorReply::Capabilities(
                if request.monitor == 51 { Some(1) } else { None },
            ),
            Stage::Reading => MonitorReply::Reading(
                if request.monitor == 11 {
                    Some(BrightnessReading { minimum: 0, current: 40, maximum: 100 })
                } else {
                    None
                },
            ),
            Stage::Writing { .. } => unreachable!(),
        }),
    }
}

fn finish(step: EnumerationStep) -> Vec<DisplayState> {
    let mut step = step;
    loop {
        match step {
            EnumerationStep::Finished(displays) => {
                return displays;
            }
            EnumerationStep::Waiting(enumeration) => {
                let reply = answer(enumeration.request());
                assert!(reply.is_answer_to(enumeration.stage));
                step = enumeration.resume(reply);
            }
        }
    }
}

#[test]
fn every_listed_display_is_found() {
    let infos = vec![info(1, "A"), info(2, "B"), info(3, "C"), info(4, "D"), info(5, "E")];
    let displays = finish(enumerate_displays(infos));
    assert_eq!(displays.len(), 5);
    let names: Vec<&str> = displays.iter().map(|display| display.device_name.as_str()).collect();
    assert_eq!(names, vec!["A", "B", "C", "D", "E"]);
    let counts: Vec<usize> = displays.iter().map(|display| display.targets.len()).collect();
    assert_eq!(counts, vec![2, 0, 0, 0, 1]);
    for display in &displays {
        assert_eq!(display.dimming_state, DisplayDimmingState::Lit);
        assert_eq!(display.pending_operation, None);
        assert_eq!(display.last_blocking_window, None);
        assert_eq!(display.bounds, bounds());
    }
}

#[test]
fn found_monitors_are_probed_and_keyed() {
    let displays = finish(enumerate_displays(vec![info(1, "A"), info(5, "E")]));
    let first = &displays[0].targets[0];
    assert_eq!(first.handle, 11);
    assert_eq!(first.description, "Dell U2720Q");
    assert_eq!(first.key.display_device_name, "A");
    assert_eq!(first.key.description, "dell u2720q");
    assert_eq!(first.key.physical_index, 0);
    assert_eq!(first.availability, TargetAvailability::Available);
    let second = &displays[0].targets[1];
    assert_eq!(second.description, "Unknown monitor");
    assert_eq!(second.key.description, "  ");
    assert_eq!(second.key.physical_index, 1);
    assert_eq!(second.availability, TargetAvailability::TemporarilyUnavailable);
    assert_eq!(second.consecutive_failures, 1);
    let built_in = &displays[1].targets[0];
    assert_eq!(built_in.availability, TargetAvailability::Unsupported);
}

#[test]
fn no_listed_display_means_none_found() {
    assert!(finish(enumerate_displays(vec![])).is_empty());
}

#[test]
fn display_without_a_device_name_is_passed_over() {
    assert!(display_info(1, &[32, 32, 0], bounds()).is_none());
    assert!(display_info(1, &[0; 32], bounds()).is_none());
    let found = display_info(7, &wide_null("\\\\.\\DISPLAY1"), bounds()).unwrap();
    assert_eq!(found.handle, 7);
    assert_eq!(found.device_name, "\\\\.\\DISPLAY1");
    assert_eq!(found.bounds, bounds());
}
