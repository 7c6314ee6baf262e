use mmd::commands::find_command;
use mmd::commands::menu_entries;
use mmd::commands::picked_command;
use mmd::commands::Command;
use mmd::commands::MenuEntry;
use mmd::commands::ID_BRIGHTNESS_75;
use mmd::commands::ID_EXIT;
use mmd::commands::ID_TOGGLE_DIMMING;
use mmd::messages::low_word;
use mmd::messages::react;
use mmd::messages::Reaction;
use mmd::messages::PBT_APMRESUMEAUTOMATIC;
use mmd::messages::TIMER_DEBOUNCE;
use mmd::messages::WM_APP;
use mmd::messages::WM_CLOSE;
use mmd::messages::WM_COMMAND;
use mmd::messages::WM_CONTEXTMENU;
use mmd::messages::WM_DESTROY;
use mmd::messages::WM_DISPLAYCHANGE;
use mmd::messages::WM_LBUTTONUP;
use mmd::messages::WM_NCCREATE;
use mmd::messages::WM_POWERBROADCAST;
use mmd::messages::WM_RBUTTONUP;
use mmd::messages::WM_TIMER;
use mmd::messages::WM_TRAYICON;
use mmd::messages::WM_WINDOW_EVENT;

const TASKBAR: Option<u32> = Some(0xC123);

fn reaction(message: u32, wparam: usize, lparam: isize) -> (Reaction, isize) {
    react(message, wparam, lparam, true, TASKBAR)
}

#[test]
fn low_word_drops_the_upper_bits() {
    assert_eq!(low_word(0x12345), 0x2345);
    assert_eq!(low_word(-1), 0xffff);
    assert_eq!(low_word(-0x10000), 0);
    assert_eq!(low_word(514), 514);
}

#[test]
fn own_messages_lie_above_the_system_ones() {
    assert_eq!(WM_TRAYICON, WM_APP + 1);
    assert_eq!(WM_WINDOW_EVENT, WM_APP + 2);
}

#[test]
fn tray_icon_reacts_to_the_mouse() {
    let left = 0x70000 + WM_LBUTTONUP as isize;
    assert_eq!(reaction(WM_TRAYICON, 1, left), (Reaction::ToggleDimming, 0));
    assert_eq!(reaction(WM_TRAYICON, 1, WM_RBUTTONUP as isize), (Reaction::ShowMenu, 0));
    assert_eq!(reaction(WM_TRAYICON, 1, WM_CONTEXTMENU as isize), (Reaction::ShowMenu, 0));
    assert_eq!(reaction(WM_TRAYICON, 1, 512), (Reaction::Ignore, 0));
}

#[test]
fn messages_call_for_what_they_should() {
    assert_eq!(
        reaction(WM_COMMAND, 0x1_07D2, 0),
        (Reaction::RunCommand { id: ID_EXIT }, 0)
    );
    assert_eq!(reaction(WM_WINDOW_EVENT, 3, 0), (Reaction::ScheduleUpdate, 0));
    assert_eq!(reaction(WM_TIMER, TIMER_DEBOUNCE, 0), (Reaction::Update, 0));
    assert_eq!(reaction(WM_TIMER, TIMER_DEBOUNCE + 1, 0), (Reaction::Ignore, 0));
    assert_eq!(reaction(WM_DISPLAYCHANGE, 0, 0), (Reaction::ScheduleRefresh, 0));
    assert_eq!(
        reaction(WM_POWERBROADCAST, PBT_APMRESUMEAUTOMATIC, 0),
        (Reaction::ScheduleRefresh, 1)
    );
    assert_eq!(reaction(WM_POWERBROADCAST, 4, 0), (Reaction::Default, 0));
    assert_eq!(reaction(WM_CLOSE, 0, 0), (Reaction::Quit, 0));
    assert_eq!(reaction(WM_DESTROY, 0, 0), (Reaction::Quit, 0));
    assert_eq!(reaction(WM_NCCREATE, 0, 0), (Reaction::Default, 0));
    assert_eq!(reaction(0xC123, 0, 0), (Reaction::RestoreTrayIcon, 0));
    assert_eq!(reaction(1, 0, 0), (Reaction::Default, 0));
    assert_eq!(react(0xC123, 0, 0, true, None), (Reaction::Default, 0));
}

#[test]
fn only_the_end_of_the_window_matters_before_the_program_is_up() {
    assert_eq!(react(WM_DESTROY, 0, 0, false, TASKBAR), (Reaction::Quit, 0));
    assert_eq!(react(WM_CLOSE, 0, 0, false, TASKBAR), (Reaction::Default, 0));
    assert_eq!(react(0xC123, 0, 0, false, TASKBAR), (Reaction::Default, 0));
    assert_eq!(react(WM_TIMER, TIMER_DEBOUNCE, 0, false, TASKBAR), (Reaction::Default, 0));
}

#[test]
fn menu_shows_whether_dimming_is_on() {
    for checked in vec![false, true] {
        assert_eq!(
            menu_entries(checked)[0],
            MenuEntry::CheckItem { id: ID_TOGGLE_DIMMING, label: "Dimming", checked }
        );
    }
}

#[test]
fn menu_entries_do_what_they_are_labelled_with() {
    let entries = menu_entries(false);
    assert_eq!(entries.len(), 13);
    let mut levels: Vec<u32> = vec![];
    for entry in entries {
        if let MenuEntry::Item { id, label } = entry {
            match find_command(id).unwrap() {
                Command::SetBrightness { percent } => {
                    assert_eq!(label, format!("{percent}%"));
                    levels.push(percent);
                }
                Command::Refresh => assert_eq!(label, "Refresh now"),
                Command::Diagnostics => assert_eq!(label, "Diagnostics"),
                Command::Exit => assert_eq!(label, "Exit"),
                Command::ToggleDimming => panic!("not a plain item"),
            }
        }
    }
    assert_eq!(levels, vec![0, 10, 25, 50, 75, 100]);
}

#[test]
fn unknown_identifiers_are_no_commands() {
    assert_eq!(find_command(0), None);
    assert_eq!(find_command(1001), None);
    assert_eq!(
        find_command(ID_BRIGHTNESS_75),
        Some(Command::SetBrightness { percent: 75 })
    );
}

#[test]
fn nothing_picked_is_no_command() {
    assert_eq!(picked_command(0), None);
    assert_eq!(picked_command(-3), None);
    assert_eq!(picked_command(1900), Some(ID_TOGGLE_DIMMING));
}
