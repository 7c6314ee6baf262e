//! The messages that the program's window gets, and what they call for.

use vstd::prelude::*;

verus! {

pub const WM_DESTROY: u32 = 2;

pub const WM_CLOSE: u32 = 16;

pub const WM_CONTEXTMENU: u32 = 123;

pub const WM_DISPLAYCHANGE: u32 = 126;

pub const WM_NCCREATE: u32 = 129;

pub const WM_COMMAND: u32 = 273;

pub const WM_TIMER: u32 = 275;

pub const WM_LBUTTONUP: u32 = 514;

pub const WM_RBUTTONUP: u32 = 517;

pub const WM_POWERBROADCAST: u32 = 536;

/// The messages from here on are a program's own.
pub const WM_APP: u32 = 32768;

/// Sent by the tray icon.
pub const WM_TRAYICON: u32 = 32769;

/// Sent when a window event has come in.
pub const WM_WINDOW_EVENT: u32 = 32770;

/// Told when the computer has woken up by itself.
pub const PBT_APMRESUMEAUTOMATIC: usize = 18;

/// The timer that runs while an update is scheduled.
pub const TIMER_DEBOUNCE: usize = 1;

/// What a message calls for.
#[derive(Debug, Clone, Copy, PartialEq, Eq, Structural)]
pub enum Reaction {
    /// The system's own handling, with the answer that it gives.
    Default,
    /// Nothing.
    Ignore,
    /// The program ends.
    Quit,
    /// The tray icon is put back.
    RestoreTrayIcon,
    /// Dimming by hand is switched on or off.
    ToggleDimming,
    /// The context menu is shown, and what is picked there is carried out.
    ShowMenu,
    /// A command is carried out.
    RunCommand { id: usize },
    /// An update is scheduled.
    ScheduleUpdate,
    /// The scheduled update is made.
    Update,
    /// An update is scheduled for which the displays are found anew.
    ScheduleRefresh,
}

/// The lower sixteen bits of a message parameter.
pub open spec fn low_bits(value: int) -> int {
    value % 0x1_0000
}

/// The lower sixteen bits of a message parameter.
pub fn low_word(value: isize) -> (word: u32)
    ensures
        word == low_bits(value as int),
{
    proof {
        assert(((value as u32) & 0xffff) as int == (value as int) % 0x1_0000) by (bit_vector);
    }
    (value as u32) & 0xffff
}

/// What a message from the tray icon calls for.
pub open spec fn tray_reaction(event: int) -> Reaction {
    if event == WM_LBUTTONUP {
        Reaction::ToggleDimming
    } else if event == WM_RBUTTONUP || event == WM_CONTEXTMENU {
        Reaction::ShowMenu
    } else {
        Reaction::Ignore
    }
}

/// What a message calls for once the program is up.
pub open spec fn ready_reaction(message: u32, wparam: usize, lparam: isize) -> Reaction {
    if message == WM_TRAYICON {
        tray_reaction(low_bits(lparam as int))
    } else if message == WM_COMMAND {
        Reaction::RunCommand { id: low_bits(wparam as int) as usize }
    } else if message == WM_WINDOW_EVENT {
        Reaction::ScheduleUpdate
    } else if message == WM_TIMER {
        if wparam == TIMER_DEBOUNCE {
            Reaction::Update
        } else {
            Reaction::Ignore
        }
    } else if message == WM_DISPLAYCHANGE {
        Reaction::ScheduleRefresh
    } else if message == WM_POWERBROADCAST && wparam == PBT_APMRESUMEAUTOMATIC {
        Reaction::ScheduleRefresh
    } else if message == WM_CLOSE || message == WM_DESTROY {
        Reaction::Quit
    } else {
        Reaction::Default
    }
}

/// What a message calls for. `ready` says whether the program is up, and
/// `taskbar_created` is the message that tells of a new taskbar, if it could
/// be registered.
pub open spec fn reaction(
    message: u32,
    wparam: usize,
    lparam: isize,
    ready: bool,
    taskbar_created: Option<u32>,
) -> Reaction {
    if message == WM_NCCREATE {
        Reaction::Default
    } else if !ready {
        if message == WM_DESTROY {
            Reaction::Quit
        } else {
            Reaction::Default
        }
    } else if taskbar_created == Some(message) {
        Reaction::RestoreTrayIcon
    } else {
        ready_reaction(message, wparam, lparam)
    }
}

/// The answer to a message where that is not left to the system: the computer's
/// waking up is agreed to, anything else just taken note of.
pub open spec fn answer(message: u32, reaction: Reaction) -> isize {
    if message == WM_POWERBROADCAST && reaction == Reaction::ScheduleRefresh {
        1
    } else {
        0
    }
}

/// Decides what a message from the tray icon calls for.
fn react_to_tray(event: u32) -> (result: Reaction)
    ensures
        result == tray_reaction(event as int),
{
    match event {
        WM_LBUTTONUP => Reaction::ToggleDimming,
        WM_RBUTTONUP => Reaction::ShowMenu,
        WM_CONTEXTMENU => Reaction::ShowMenu,
        _ => Reaction::Ignore,
    }
}

/// Decides what a message calls for, and what is answered to it where that is
/// not left to the system.
pub fn react(
    message: u32,
    wparam: usize,
    lparam: isize,
    ready: bool,
    taskbar_created: Option<u32>,
) -> (result: (Reaction, isize))
    ensures
        result.0 == reaction(message, wparam, lparam, ready, taskbar_created),
        result.1 == answer(message, result.0),
{
    if message == WM_NCCREATE {
        return (Reaction::Default, 0);
    }
    if !ready {
        if message == WM_DESTROY {
            return (Reaction::Quit, 0);
        }
        return (Reaction::Default, 0);
    }
    if let Some(created) = taskbar_created {
        if message == created {
            return (Reaction::RestoreTrayIcon, 0);
        }
    }
    match message {
        WM_TRAYICON => (react_to_tray(low_word(lparam)), 0),
        WM_COMMAND => {
            proof {
                assert(wparam & 0xffff == wparam % 0x1_0000) by (bit_vector);
            }
            (Reaction::RunCommand { id: wparam & 0xffff }, 0)
        },
        WM_WINDOW_EVENT => (Reaction::ScheduleUpdate, 0),
        WM_TIMER => {
            if wparam == TIMER_DEBOUNCE {
                (Reaction::Update, 0)
            } else {
                (Reaction::Ignore, 0)
            }
        },
        WM_DISPLAYCHANGE => (Reaction::ScheduleRefresh, 0),
        WM_POWERBROADCAST => {
            if wparam == PBT_APMRESUMEAUTOMATIC {
                (Reaction::ScheduleRefresh, 1)
            } else {
                (Reaction::Default, 0)
            }
        },
        WM_CLOSE => (Reaction::Quit, 0),
        WM_DESTROY => (Reaction::Quit, 0),
        _ => (Reaction::Default, 0),
    }
}

/// Before the program is up nothing but the end of its window is acted on.
pub proof fn nothing_happens_before_the_program_is_up(
    message: u32,
    wparam: usize,
    lparam: isize,
    taskbar_created: Option<u32>,
)
    ensures
        reaction(message, wparam, lparam, false, taskbar_created) == (if message == WM_DESTROY {
            Reaction::Quit
        } else {
            Reaction::Default
        }),
{
}

} // verus!
