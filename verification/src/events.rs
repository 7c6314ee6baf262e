//! Window events: which of them matter, and what is told of the last one.

use vstd::prelude::*;

use crate::text::decimal;
use crate::text::numeral;
use crate::text::pad_with_zeros;
use crate::text::write_hex;
use crate::text::write_unsigned;
use crate::text::zero_padded;

verus! {

pub const EVENT_SYSTEM_FOREGROUND: u32 = 3;

pub const EVENT_SYSTEM_MINIMIZESTART: u32 = 22;

pub const EVENT_SYSTEM_MINIMIZEEND: u32 = 23;

pub const EVENT_SYSTEM_DESKTOPSWITCH: u32 = 32;

pub const EVENT_OBJECT_CREATE: u32 = 32768;

pub const EVENT_OBJECT_DESTROY: u32 = 32769;

pub const EVENT_OBJECT_SHOW: u32 = 32770;

pub const EVENT_OBJECT_HIDE: u32 = 32771;

pub const EVENT_OBJECT_LOCATIONCHANGE: u32 = 32779;

pub const EVENT_OBJECT_CLOAKED: u32 = 32791;

pub const EVENT_OBJECT_UNCLOAKED: u32 = 32792;

/// The object that stands for the window itself.
pub const OBJID_WINDOW: i32 = 0;

/// The child that stands for the object itself.
pub const CHILDID_SELF: i32 = 0;

/// What the operating system tells of an event.
#[derive(Debug, Clone, Copy, PartialEq, Eq, Structural)]
pub struct WindowEvent {
    pub event_type: u32,
    pub has_window: bool,
    pub id_object: i32,
    pub id_child: i32,
}

/// An event of the desktop as a whole that matters.
pub open spec fn system_event(event_type: u32) -> bool {
    ||| event_type == EVENT_SYSTEM_FOREGROUND
    ||| event_type == EVENT_SYSTEM_MINIMIZESTART
    ||| event_type == EVENT_SYSTEM_MINIMIZEEND
    ||| event_type == EVENT_SYSTEM_DESKTOPSWITCH
}

/// An event of a single object that matters where the object is a window.
pub open spec fn object_event(event_type: u32) -> bool {
    ||| EVENT_OBJECT_CREATE <= event_type <= EVENT_OBJECT_HIDE
    ||| event_type == EVENT_OBJECT_LOCATIONCHANGE
    ||| event_type == EVENT_OBJECT_CLOAKED
    ||| event_type == EVENT_OBJECT_UNCLOAKED
}

impl WindowEvent {
    /// The event is one of a window itself, not of a part of it.
    pub open spec fn concerns_window(self) -> bool {
        self.has_window && self.id_object == OBJID_WINDOW && self.id_child == CHILDID_SELF
    }

    /// The window to which word of the event is to be sent, if it matters and
    /// there is one.
    pub open spec fn receiver(self, listener: isize) -> Option<isize> {
        if self.relevant() && listener != 0 {
            Some(listener)
        } else {
            None
        }
    }

    /// The event may change which displays are empty.
    pub open spec fn relevant(self) -> bool {
        system_event(self.event_type) || (object_event(self.event_type) && self.concerns_window())
    }
}

/// Tests whether an event may change which displays are empty.
pub fn is_relevant_window_event(
    event_type: u32,
    has_window: bool,
    id_object: i32,
    id_child: i32,
) -> (result: bool)
    ensures
        result == (WindowEvent { event_type, has_window, id_object, id_child }).relevant(),
{
    if event_type == EVENT_SYSTEM_FOREGROUND || event_type == EVENT_SYSTEM_MINIMIZESTART
        || event_type == EVENT_SYSTEM_MINIMIZEEND || event_type == EVENT_SYSTEM_DESKTOPSWITCH {
        return true;
    }
    has_window && id_object == OBJID_WINDOW && id_child == CHILDID_SELF && (event_type
        == EVENT_OBJECT_CREATE || event_type == EVENT_OBJECT_DESTROY || event_type
        == EVENT_OBJECT_SHOW || event_type == EVENT_OBJECT_HIDE || event_type
        == EVENT_OBJECT_LOCATIONCHANGE || event_type == EVENT_OBJECT_CLOAKED || event_type
        == EVENT_OBJECT_UNCLOAKED)
}

/// A range of event types to listen to, both ends included.
#[derive(Debug, Clone, Copy, PartialEq, Eq, Structural)]
pub struct EventRange {
    pub first: u32,
    pub last: u32,
}

impl EventRange {
    /// The range holds the event type.
    pub open spec fn holds(self, event_type: u32) -> bool {
        self.first <= event_type <= self.last
    }
}

/// The ranges of event types to listen to, in the order in which they are
/// hooked.
pub open spec fn watched() -> Seq<EventRange> {
    seq![
        EventRange { first: EVENT_SYSTEM_FOREGROUND, last: EVENT_SYSTEM_FOREGROUND },
        EventRange { first: EVENT_SYSTEM_MINIMIZESTART, last: EVENT_SYSTEM_MINIMIZEEND },
        EventRange { first: EVENT_SYSTEM_DESKTOPSWITCH, last: EVENT_SYSTEM_DESKTOPSWITCH },
        EventRange { first: EVENT_OBJECT_CREATE, last: EVENT_OBJECT_LOCATIONCHANGE },
        EventRange { first: EVENT_OBJECT_CLOAKED, last: EVENT_OBJECT_UNCLOAKED },
    ]
}

/// Lists the ranges of event types to listen to.
pub fn watched_ranges() -> (ranges: Vec<EventRange>)
    ensures
        ranges@ == watched(),
{
    let mut ranges: Vec<EventRange> = Vec::new();
    ranges.push(EventRange { first: EVENT_SYSTEM_FOREGROUND, last: EVENT_SYSTEM_FOREGROUND });
    ranges.push(EventRange { first: EVENT_SYSTEM_MINIMIZESTART, last: EVENT_SYSTEM_MINIMIZEEND });
    ranges.push(EventRange { first: EVENT_SYSTEM_DESKTOPSWITCH, last: EVENT_SYSTEM_DESKTOPSWITCH });
    ranges.push(EventRange { first: EVENT_OBJECT_CREATE, last: EVENT_OBJECT_LOCATIONCHANGE });
    ranges.push(EventRange { first: EVENT_OBJECT_CLOAKED, last: EVENT_OBJECT_UNCLOAKED });
    ranges
}

/// The name of an event type; one without a name is told by its number.
pub open spec fn event_name(event_type: u32) -> Seq<char> {
    if event_type == EVENT_SYSTEM_FOREGROUND {
        "Foreground"@
    } else if event_type == EVENT_SYSTEM_MINIMIZESTART {
        "Minimize start"@
    } else if event_type == EVENT_SYSTEM_MINIMIZEEND {
        "Minimize end"@
    } else if event_type == EVENT_SYSTEM_DESKTOPSWITCH {
        "Desktop switch"@
    } else if event_type == EVENT_OBJECT_CLOAKED {
        "Object cloaked"@
    } else if event_type == EVENT_OBJECT_UNCLOAKED {
        "Object uncloaked"@
    } else if EVENT_OBJECT_CREATE <= event_type <= EVENT_OBJECT_LOCATIONCHANGE {
        "Object change"@
    } else {
        "0x"@ + zero_padded(numeral(event_type as nat, 16), 4)
    }
}

/// Names an event type.
pub fn get_event_name(event_type: u32) -> (name: String)
    ensures
        name@ == event_name(event_type),
{
    if event_type == EVENT_SYSTEM_FOREGROUND {
        "Foreground".to_string()
    } else if event_type == EVENT_SYSTEM_MINIMIZESTART {
        "Minimize start".to_string()
    } else if event_type == EVENT_SYSTEM_MINIMIZEEND {
        "Minimize end".to_string()
    } else if event_type == EVENT_SYSTEM_DESKTOPSWITCH {
        "Desktop switch".to_string()
    } else if event_type == EVENT_OBJECT_CLOAKED {
        "Object cloaked".to_string()
    } else if event_type == EVENT_OBJECT_UNCLOAKED {
        "Object uncloaked".to_string()
    } else if EVENT_OBJECT_CREATE <= event_type && event_type <= EVENT_OBJECT_LOCATIONCHANGE {
        "Object change".to_string()
    } else {
        let mut name = "0x".to_string();
        name.append(write_hex(event_type, 4).as_str());
        name
    }
}

/// A point in time, counted from the start of the Unix epoch.
#[derive(Debug, Clone, Copy, PartialEq, Eq, Structural)]
pub struct EpochTime {
    pub seconds: u64,
    /// The milliseconds beyond the full seconds.
    pub milliseconds: u32,
}

/// A point in time in writing. One before the epoch is not known.
pub open spec fn time_text(time: Option<EpochTime>) -> Seq<char> {
    match time {
        Some(time) => "unix+"@ + decimal(time.seconds as int) + "."@ + zero_padded(
            decimal(time.milliseconds as int),
            3,
        ) + "s"@,
        None => "(unknown time)"@,
    }
}

/// Writes a point in time. One before the epoch is not known.
pub fn format_system_time(time: Option<EpochTime>) -> (text: String)
    ensures
        text@ == time_text(time),
{
    match time {
        Some(time) => {
            let mut text = "unix+".to_string();
            text.append(write_unsigned(time.seconds).as_str());
            text.append(".");
            text.append(
                pad_with_zeros(write_unsigned(time.milliseconds as u64), 3).as_str(),
            );
            text.append("s");
            text
        },
        None => "(unknown time)".to_string(),
    }
}

/// An event and when it came.
#[derive(Debug, Clone, Copy, PartialEq, Eq, Structural)]
pub struct LastEvent {
    pub event_type: u32,
    pub when: Option<EpochTime>,
}

/// The events that mattered: how many there were, and the last of them.
#[derive(Debug, Clone, Copy, PartialEq, Eq, Structural)]
pub struct EventLog {
    pub count: i64,
    pub last: Option<LastEvent>,
}

/// The text on the last event.
pub open spec fn last_event_text(last: Option<LastEvent>) -> Seq<char> {
    match last {
        Some(last) => event_name(last.event_type) + " at "@ + time_text(last.when),
        None => "(none)"@,
    }
}

impl EventLog {
    /// The log with one event more. Beyond the largest number the count starts
    /// again at the smallest.
    pub open spec fn with(self, event: WindowEvent, when: Option<EpochTime>) -> EventLog {
        if event.relevant() {
            EventLog {
                count: if self.count < i64::MAX {
                    (self.count + 1) as i64
                } else {
                    i64::MIN
                },
                last: Some(LastEvent { event_type: event.event_type, when }),
            }
        } else {
            self
        }
    }

    /// A log without events.
    pub fn new() -> (log: Self)
        ensures
            log == (EventLog { count: 0, last: None }),
    {
        EventLog { count: 0, last: None }
    }

    /// Notes an event if it matters, and tells to which window, if there is
    /// one, word of it is to be sent.
    pub fn take_event(&mut self, event: WindowEvent, when: Option<EpochTime>, listener: isize) -> (
    receiver: Option<isize>)
        ensures
            *final(self) == old(self).with(event, when),
            receiver == event.receiver(listener),
    {
        if !is_relevant_window_event(
            event.event_type,
            event.has_window,
            event.id_object,
            event.id_child,
        ) {
            return None;
        }
        self.count = if self.count < i64::MAX {
            self.count + 1
        } else {
            i64::MIN
        };
        self.last = Some(LastEvent { event_type: event.event_type, when });
        if listener != 0 {
            Some(listener)
        } else {
            None
        }
    }

    /// How many events there were.
    pub fn event_count(&self) -> (count: i64)
        ensures
            count == self.count,
    {
        self.count
    }

    /// Tells of the last event.
    pub fn last_event_description(&self) -> (text: String)
        ensures
            text@ == last_event_text(self.last),
    {
        match self.last {
            Some(last) => {
                let mut text = get_event_name(last.event_type);
                text.append(" at ");
                text.append(format_system_time(last.when).as_str());
                text
            },
            None => "(none)".to_string(),
        }
    }
}

/// Everything that matters is listened to.
pub proof fn relevant_events_are_watched(event: WindowEvent)
    requires
        event.relevant(),
    ensures
        exists|i: int| 0 <= i < watched().len() && (#[trigger] watched()[i]).holds(event.event_type),
{
    let ranges = watched();
    assert(ranges[0].holds(event.event_type) || ranges[1].holds(event.event_type)
        || ranges[2].holds(event.event_type) || ranges[3].holds(event.event_type)
        || ranges[4].holds(event.event_type));
}

/// Events of the desktop as a whole matter whatever else is told of them.
pub proof fn system_events_need_no_window(event: WindowEvent)
    requires
        system_event(event.event_type),
    ensures
        event.relevant(),
{
}

/// Any other event matters only where it is one of a window itself: those of a
/// window's parts are passed over.
pub proof fn events_of_parts_are_passed_over(event: WindowEvent)
    requires
        !system_event(event.event_type),
        !event.concerns_window(),
    ensures
        !event.relevant(),
{
}

} // verus!
