//! The commands of the context menu.

use vstd::prelude::*;

use crate::text::decimal;
use crate::text::numeral;

verus! {

pub const ID_BRIGHTNESS_0: usize = 1000;

pub const ID_BRIGHTNESS_10: usize = 1010;

pub const ID_BRIGHTNESS_25: usize = 1025;

pub const ID_BRIGHTNESS_50: usize = 1050;

pub const ID_BRIGHTNESS_75: usize = 1075;

pub const ID_BRIGHTNESS_100: usize = 1100;

pub const ID_TOGGLE_DIMMING: usize = 1900;

pub const ID_REFRESH: usize = 2000;

pub const ID_DIAGNOSTICS: usize = 2001;

pub const ID_EXIT: usize = 2002;

/// What the user can ask for.
#[derive(Debug, Clone, Copy, PartialEq, Eq, Structural)]
pub enum Command {
    SetBrightness { percent: u32 },
    ToggleDimming,
    Refresh,
    Diagnostics,
    Exit,
}

/// The command with the identifier, if there is one.
pub open spec fn command_with(id: usize) -> Option<Command> {
    if id == ID_BRIGHTNESS_0 {
        Some(Command::SetBrightness { percent: 0 })
    } else if id == ID_BRIGHTNESS_10 {
        Some(Command::SetBrightness { percent: 10 })
    } else if id == ID_BRIGHTNESS_25 {
        Some(Command::SetBrightness { percent: 25 })
    } else if id == ID_BRIGHTNESS_50 {
        Some(Command::SetBrightness { percent: 50 })
    } else if id == ID_BRIGHTNESS_75 {
        Some(Command::SetBrightness { percent: 75 })
    } else if id == ID_BRIGHTNESS_100 {
        Some(Command::SetBrightness { percent: 100 })
    } else if id == ID_TOGGLE_DIMMING {
        Some(Command::ToggleDimming)
    } else if id == ID_REFRESH {
        Some(Command::Refresh)
    } else if id == ID_DIAGNOSTICS {
        Some(Command::Diagnostics)
    } else if id == ID_EXIT {
        Some(Command::Exit)
    } else {
        None
    }
}

/// Finds the command with the identifier.
pub fn find_command(id: usize) -> (command: Option<Command>)
    ensures
        command == command_with(id),
{
    match id {
        ID_BRIGHTNESS_0 => Some(Command::SetBrightness { percent: 0 }),
        ID_BRIGHTNESS_10 => Some(Command::SetBrightness { percent: 10 }),
        ID_BRIGHTNESS_25 => Some(Command::SetBrightness { percent: 25 }),
        ID_BRIGHTNESS_50 => Some(Command::SetBrightness { percent: 50 }),
        ID_BRIGHTNESS_75 => Some(Command::SetBrightness { percent: 75 }),
        ID_BRIGHTNESS_100 => Some(Command::SetBrightness { percent: 100 }),
        ID_TOGGLE_DIMMING => Some(Command::ToggleDimming),
        ID_REFRESH => Some(Command::Refresh),
        ID_DIAGNOSTICS => Some(Command::Diagnostics),
        ID_EXIT => Some(Command::Exit),
        _ => None,
    }
}

/// An entry of the context menu.
#[derive(Debug, Clone, Copy, PartialEq, Eq)]
pub enum MenuEntry {
    Separator,
    Item { id: usize, label: &'static str },
    /// An item with a check mark, or room for one.
    CheckItem { id: usize, label: &'static str, checked: bool },
}

/// The contents of a `MenuEntry`.
#[verifier::ext_equal]
pub enum EntryView {
    Separator,
    Item { id: usize, label: Seq<char> },
    CheckItem { id: usize, label: Seq<char>, checked: bool },
}

impl View for MenuEntry {
    type V = EntryView;

    open spec fn view(&self) -> EntryView {
        match *self {
            MenuEntry::Separator => EntryView::Separator,
            MenuEntry::Item { id, label } => EntryView::Item { id, label: label@ },
            MenuEntry::CheckItem { id, label, checked } => EntryView::CheckItem {
                id,
                label: label@,
                checked,
            },
        }
    }
}

/// The contents of a list of entries.
pub open spec fn entry_views(entries: Seq<MenuEntry>) -> Seq<EntryView> {
    entries.map_values(|entry: MenuEntry| entry@)
}

/// The context menu, from top to bottom.
pub open spec fn menu(manual_dimming_enabled: bool) -> Seq<EntryView> {
    seq![
        EntryView::CheckItem {
            id: ID_TOGGLE_DIMMING,
            label: "Dimming"@,
            checked: manual_dimming_enabled,
        },
        EntryView::Separator,
        EntryView::Item { id: ID_BRIGHTNESS_0, label: "0%"@ },
        EntryView::Item { id: ID_BRIGHTNESS_10, label: "10%"@ },
        EntryView::Item { id: ID_BRIGHTNESS_25, label: "25%"@ },
        EntryView::Item { id: ID_BRIGHTNESS_50, label: "50%"@ },
        EntryView::Item { id: ID_BRIGHTNESS_75, label: "75%"@ },
        EntryView::Item { id: ID_BRIGHTNESS_100, label: "100%"@ },
        EntryView::Separator,
        EntryView::Item { id: ID_REFRESH, label: "Refresh now"@ },
        EntryView::Item { id: ID_DIAGNOSTICS, label: "Diagnostics"@ },
        EntryView::Separator,
        EntryView::Item { id: ID_EXIT, label: "Exit"@ },
    ]
}

/// Lists the entries of the context menu, from top to bottom.
pub fn menu_entries(manual_dimming_enabled: bool) -> (entries: Vec<MenuEntry>)
    ensures
        entry_views(entries@) == menu(manual_dimming_enabled),
{
    let mut entries: Vec<MenuEntry> = Vec::new();
    entries.push(
        MenuEntry::CheckItem {
            id: ID_TOGGLE_DIMMING,
            label: "Dimming",
            checked: manual_dimming_enabled,
        },
    );
    entries.push(MenuEntry::Separator);
    entries.push(MenuEntry::Item { id: ID_BRIGHTNESS_0, label: "0%" });
    entries.push(MenuEntry::Item { id: ID_BRIGHTNESS_10, label: "10%" });
    entries.push(MenuEntry::Item { id: ID_BRIGHTNESS_25, label: "25%" });
    entries.push(MenuEntry::Item { id: ID_BRIGHTNESS_50, label: "50%" });
    entries.push(MenuEntry::Item { id: ID_BRIGHTNESS_75, label: "75%" });
    entries.push(MenuEntry::Item { id: ID_BRIGHTNESS_100, label: "100%" });
    entries.push(MenuEntry::Separator);
    entries.push(MenuEntry::Item { id: ID_REFRESH, label: "Refresh now" });
    entries.push(MenuEntry::Item { id: ID_DIAGNOSTICS, label: "Diagnostics" });
    entries.push(MenuEntry::Separator);
    entries.push(MenuEntry::Item { id: ID_EXIT, label: "Exit" });
    assert(entry_views(entries@) == menu(manual_dimming_enabled));
    entries
}

/// The identifier that was picked in the menu; zero or less stands for none.
pub open spec fn picked_id(picked: i32) -> Option<usize> {
    if picked > 0 {
        Some(picked as usize)
    } else {
        None
    }
}

/// The identifier that was picked in the menu; zero or less stands for none.
pub fn picked_command(picked: i32) -> (id: Option<usize>)
    ensures
        id == picked_id(picked),
{
    if picked > 0 {
        Some(picked as usize)
    } else {
        None
    }
}

impl EntryView {
    /// The identifier of an entry that can be picked.
    pub open spec fn id(self) -> Option<usize> {
        match self {
            EntryView::Separator => None,
            EntryView::Item { id, .. } => Some(id),
            EntryView::CheckItem { id, .. } => Some(id),
        }
    }

    /// The label of an entry that can be picked.
    pub open spec fn label(self) -> Option<Seq<char>> {
        match self {
            EntryView::Separator => None,
            EntryView::Item { label, .. } => Some(label),
            EntryView::CheckItem { label, .. } => Some(label),
        }
    }
}

/// Every entry of the menu that can be picked is a command, and one that sets
/// the brightness sets the percentage that it is labelled with.
pub proof fn menu_entries_are_commands(manual_dimming_enabled: bool, at: int)
    requires
        0 <= at < menu(manual_dimming_enabled).len(),
    ensures
        menu(manual_dimming_enabled)[at].id() matches Some(id) ==> command_with(id) is Some,
        menu(manual_dimming_enabled)[at].id() matches Some(id) ==> (command_with(id) matches Some(
            Command::SetBrightness { percent },
        ) ==> menu(manual_dimming_enabled)[at].label() == Some(decimal(percent as int) + "%"@)),
{
    reveal_strlit("0%");
    reveal_strlit("10%");
    reveal_strlit("25%");
    reveal_strlit("50%");
    reveal_strlit("75%");
    reveal_strlit("100%");
    reveal_strlit("%");
    reveal_with_fuel(numeral, 4);
    assert("0%"@ == decimal(0) + "%"@);
    assert("10%"@ == decimal(10) + "%"@);
    assert("25%"@ == decimal(25) + "%"@);
    assert("50%"@ == decimal(50) + "%"@);
    assert("75%"@ == decimal(75) + "%"@);
    assert("100%"@ == decimal(100) + "%"@);
}

/// Every command is in the menu.
pub proof fn commands_are_in_the_menu(manual_dimming_enabled: bool, id: usize)
    requires
        command_with(id) is Some,
    ensures
        exists|at: int|
            0 <= at < menu(manual_dimming_enabled).len() && (#[trigger] menu(
                manual_dimming_enabled,
            )[at]).id() == Some(id),
{
    let entries = menu(manual_dimming_enabled);
    assert(entries[0].id() == Some(ID_TOGGLE_DIMMING));
    assert(entries[2].id() == Some(ID_BRIGHTNESS_0));
    assert(entries[3].id() == Some(ID_BRIGHTNESS_10));
    assert(entries[4].id() == Some(ID_BRIGHTNESS_25));
    assert(entries[5].id() == Some(ID_BRIGHTNESS_50));
    assert(entries[6].id() == Some(ID_BRIGHTNESS_75));
    assert(entries[7].id() == Some(ID_BRIGHTNESS_100));
    assert(entries[9].id() == Some(ID_REFRESH));
    assert(entries[10].id() == Some(ID_DIAGNOSTICS));
    assert(entries[12].id() == Some(ID_EXIT));
}

} // verus!
