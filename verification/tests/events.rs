use mmd::events::format_system_time;
use mmd::events::get_event_name;
use mmd::events::is_relevant_window_event;
use mmd::events::watched_ranges;
use mmd::events::EpochTime;
use mmd::events::EventLog;
use mmd::events::WindowEvent;
use mmd::events::CHILDID_SELF;
use mmd::events::EVENT_OBJECT_CLOAKED;
use mmd::events::EVENT_OBJECT_CREATE;
use mmd::events::EVENT_OBJECT_DESTROY;
use mmd::events::EVENT_OBJECT_HIDE;
use mmd::events::EVENT_OBJECT_LOCATIONCHANGE;
use mmd::events::EVENT_OBJECT_SHOW;
use mmd::events::EVENT_OBJECT_UNCLOAKED;
use mmd::events::EVENT_SYSTEM_DESKTOPSWITCH;
use mmd::events::EVENT_SYSTEM_FOREGROUND;
use mmd::events::EVENT_SYSTEM_MINIMIZEEND;
use mmd::events::EVENT_SYSTEM_MINIMIZESTART;
use mmd::events::OBJID_WINDOW;

#[test]
fn accessibility_child_events_are_ignored() {
    assert!(is_relevant_window_event(
        EVENT_OBJECT_SHOW,
        true,
        OBJID_WINDOW,
        CHILDID_SELF,
    ));
    assert!(!is_relevant_window_event(
        EVENT_OBJECT_SHOW,
        true,
        OBJID_WINDOW,
        1,
    ));
    assert!(!is_relevant_window_event(
        EVENT_OBJECT_SHOW,
        true,
        OBJID_WINDOW + 1,
        CHILDID_SELF,
    ));
}

#[test]
fn system_events_do_not_require_a_window_handle() {
    assert!(is_relevant_window_event(
        EVENT_SYSTEM_DESKTOPSWITCH,
        false,
        0,
        0,
    ));
}

#[test]
fn object_events_require_a_window_handle() {
    assert!(!is_relevant_window_event(EVENT_OBJECT_SHOW, false, 0, 0));
    assert!(is_relevant_window_event(EVENT_OBJECT_HIDE, true, 0, 0));
    assert!(!is_relevant_window_event(EVENT_OBJECT_HIDE + 1, true, 0, 0));
    assert!(!is_relevant_window_event(0, true, 0, 0));
}

#[test]
fn everything_relevant_is_watched() {
    let ranges = watched_ranges();
    assert_eq!(ranges.len(), 5);
    let types = vec![
        EVENT_SYSTEM_FOREGROUND,
        EVENT_SYSTEM_MINIMIZESTART,
        EVENT_SYSTEM_MINIMIZEEND,
        EVENT_SYSTEM_DESKTOPSWITCH,
        EVENT_OBJECT_CREATE,
        EVENT_OBJECT_DESTROY,
        EVENT_OBJECT_SHOW,
        EVENT_OBJECT_HIDE,
        EVENT_OBJECT_LOCATIONCHANGE,
        EVENT_OBJECT_CLOAKED,
        EVENT_OBJECT_UNCLOAKED,
    ];
    for event_type in types {
        assert!(is_relevant_window_event(event_type, true, 0, 0));
        assert!(ranges
            .iter()
            .any(|range| range.first <= event_type && event_type <= range.last));
    }
}

#[test]
fn events_have_names() {
    assert_eq!(get_event_name(EVENT_SYSTEM_FOREGROUND), "Foreground");
    assert_eq!(get_event_name(EVENT_SYSTEM_MINIMIZESTART), "Minimize start");
    assert_eq!(get_event_name(EVENT_SYSTEM_MINIMIZEEND), "Minimize end");
    assert_eq!(get_event_name(EVENT_SYSTEM_DESKTOPSWITCH), "Desktop switch");
    assert_eq!(get_event_name(EVENT_OBJECT_CLOAKED), "Object cloaked");
    assert_eq!(get_event_name(EVENT_OBJECT_UNCLOAKED), "Object uncloaked");
    assert_eq!(get_event_name(EVENT_OBJECT_CREATE), "Object change");
    assert_eq!(get_event_name(32774), "Object change");
    assert_eq!(get_event_name(EVENT_OBJECT_LOCATIONCHANGE), "Object change");
    assert_eq!(get_event_name(0x1A), "0x001A");
    assert_eq!(get_event_name(0), "0x0000");
    assert_eq!(get_event_name(0xDEADBEEF), "0xDEADBEEF");
}

#[test]
fn times_are_counted_from_the_epoch() {
    let time = EpochTime { seconds: 1_700_000_000, milliseconds: 7 };
    assert_eq!(format_system_time(Some(time)), "unix+1700000000.007s");
    let start = EpochTime { seconds: 0, milliseconds: 0 };
    assert_eq!(format_system_time(Some(start)), "unix+0.000s");
    let late = EpochTime { seconds: 12, milliseconds: 987 };
    assert_eq!(format_system_time(Some(late)), "unix+12.987s");
    assert_eq!(format_system_time(None), "(unknown time)");
}

#[test]
fn log_keeps_the_last_relevant_event() {
    let mut log = EventLog::new();
    assert_eq!(log.event_count(), 0);
    assert_eq!(log.last_event_description(), "(none)");
    let shown = WindowEvent {
        event_type: EVENT_OBJECT_SHOW,
        has_window: true,
        id_object: OBJID_WINDOW,
        id_child: CHILDID_SELF,
    };
    let part = WindowEvent { id_child: 4, ..shown };
    let when = Some(EpochTime { seconds: 5, milliseconds: 60 });
    assert_eq!(log.take_event(part, when, 42), None);
    assert_eq!(log.event_count(), 0);
    assert_eq!(log.take_event(shown, when, 42), Some(42));
    assert_eq!(log.take_event(shown, when, 0), None);
    assert_eq!(log.event_count(), 2);
    assert_eq!(log.last_event_description(), "Object change at unix+5.060s");
    let switched = WindowEvent {
        event_type: EVENT_SYSTEM_DESKTOPSWITCH,
        has_window: false,
        id_object: 9,
        id_child: 9,
    };
    assert_eq!(log.take_event(switched, None, 1), Some(1));
    assert_eq!(log.last_event_description(), "Desktop switch at (unknown time)");
}

#[test]
fn event_count_starts_over_behind_the_largest_number() {
    let mut log = EventLog { count: i64::MAX, last: None };
    let event = WindowEvent {
        event_type: EVENT_SYSTEM_FOREGROUND,
        has_window: false,
        id_object: 0,
        id_child: 0,
    };
    let _ = log.take_event(event, None, 0);
    assert_eq!(log.event_count(), i64::MIN);
}
