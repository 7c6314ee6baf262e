//! The settings.

use vstd::prelude::*;

use crate::text::normalize_name;
use crate::text::normalized;

verus! {

/// A set of names.
#[derive(Debug)]
pub struct NameSet {
    names: Vec<String>,
}

impl View for NameSet {
    type V = Set<Seq<char>>;

    closed spec fn view(&self) -> Set<Seq<char>> {
        Set::new(
            |name: Seq<char>|
                exists|i: int| 0 <= i < self.names@.len() && #[trigger] self.names@[i]@ == name,
        )
    }
}

impl NameSet {
    /// A set without names.
    pub fn new() -> (set: Self)
        ensures
            set@ == Set::<Seq<char>>::empty(),
    {
        let set = NameSet { names: Vec::new() };
        assert(set@ =~= Set::<Seq<char>>::empty());
        set
    }

    /// Puts a name into the set.
    pub fn insert(&mut self, name: String)
        ensures
            final(self)@ == old(self)@.insert(name@),
    {
        let ghost before = self.names@;
        self.names.push(name);
        proof {
            assert forall|other: Seq<char>| old(self)@.insert(name@).contains(other) implies #[trigger] self@.contains(other) by {
                if other == name@ {
                    assert(self.names@[before.len() as int]@ == other);
                } else {
                    let i = choose|i: int| 0 <= i < before.len() && #[trigger] before[i]@ == other;
                    assert(self.names@[i]@ == other);
                }
            }
            assert forall|other: Seq<char>| #[trigger] self@.contains(other) implies old(self)@.insert(name@).contains(other) by {
                let i = choose|i: int| 0 <= i < self.names@.len() && #[trigger] self.names@[i]@ == other;
                if i < before.len() {
                    assert(before[i]@ == other);
                }
            }
            assert(self@ =~= old(self)@.insert(name@));
        }
    }

    /// Tests whether a name is in the set.
    pub fn contains(&self, name: &String) -> (result: bool)
        ensures
            result == self@.contains(name@),
    {
        let mut at: usize = 0;
        while at < self.names.len()
            invariant
                at <= self.names@.len(),
                forall|i: int| 0 <= i < at ==> #[trigger] self.names@[i]@ != name@,
            decreases self.names@.len() - at,
        {
            if self.names[at] == *name {
                return true;
            }
            at = at + 1;
        }
        false
    }
}

impl Clone for NameSet {
    fn clone(&self) -> (set: Self)
        ensures
            set@ == self@,
    {
        let mut names: Vec<String> = Vec::new();
        let mut at: usize = 0;
        while at < self.names.len()
            invariant
                at <= self.names@.len(),
                names@ == self.names@.take(at as int),
            decreases self.names@.len() - at,
        {
            names.push(self.names[at].clone());
            at = at + 1;
        }
        assert(names@ == self.names@);
        NameSet { names }
    }
}

/// The settings.
#[derive(Debug)]
pub struct AppSettings {
    pub empty_brightness: u32,
    pub minimum_overlap_pixels: i32,
    pub minimum_overlap_width: i32,
    pub minimum_overlap_height: i32,
    pub event_debounce_milliseconds: u32,
    pub brightness_retry_milliseconds: u32,
    pub include_tool_windows: bool,
    pub excluded_process_names: NameSet,
    pub excluded_class_names: NameSet,
}

/// The contents of `AppSettings`.
#[verifier::ext_equal]
pub struct SettingsView {
    pub empty_brightness: u32,
    pub minimum_overlap_pixels: int,
    pub minimum_overlap_width: int,
    pub minimum_overlap_height: int,
    pub event_debounce_milliseconds: u32,
    pub brightness_retry_milliseconds: u32,
    pub include_tool_windows: bool,
    pub excluded_process_names: Set<Seq<char>>,
    pub excluded_class_names: Set<Seq<char>>,
}

impl View for AppSettings {
    type V = SettingsView;

    open spec fn view(&self) -> SettingsView {
        SettingsView {
            empty_brightness: self.empty_brightness,
            minimum_overlap_pixels: self.minimum_overlap_pixels as int,
            minimum_overlap_width: self.minimum_overlap_width as int,
            minimum_overlap_height: self.minimum_overlap_height as int,
            event_debounce_milliseconds: self.event_debounce_milliseconds,
            brightness_retry_milliseconds: self.brightness_retry_milliseconds,
            include_tool_windows: self.include_tool_windows,
            excluded_process_names: self.excluded_process_names@,
            excluded_class_names: self.excluded_class_names@,
        }
    }
}

impl Clone for AppSettings {
    fn clone(&self) -> (settings: Self)
        ensures
            settings@ == self@,
    {
        AppSettings {
            empty_brightness: self.empty_brightness,
            minimum_overlap_pixels: self.minimum_overlap_pixels,
            minimum_overlap_width: self.minimum_overlap_width,
            minimum_overlap_height: self.minimum_overlap_height,
            event_debounce_milliseconds: self.event_debounce_milliseconds,
            brightness_retry_milliseconds: self.brightness_retry_milliseconds,
            include_tool_windows: self.include_tool_windows,
            excluded_process_names: self.excluded_process_names.clone(),
            excluded_class_names: self.excluded_class_names.clone(),
        }
    }
}

/// The processes of the shell whose windows do not keep a display lit.
pub open spec fn shell_processes() -> Set<Seq<char>> {
    set![
        normalized("LockApp"@),
        normalized("SearchHost"@),
        normalized("ShellExperienceHost"@),
        normalized("StartMenuExperienceHost"@),
        normalized("TextInputHost"@),
        normalized("WidgetService"@),
        normalized("Widgets"@),
    ]
}

/// The window classes of the desktop and the taskbars.
pub open spec fn shell_classes() -> Set<Seq<char>> {
    set![
        normalized("NotifyIconOverflowWindow"@),
        normalized("Progman"@),
        normalized("Shell_SecondaryTrayWnd"@),
        normalized("Shell_TrayWnd"@),
        normalized("WorkerW"@),
    ]
}

impl SettingsView {
    /// The settings where none are given.
    pub open spec fn usual() -> SettingsView {
        SettingsView {
            empty_brightness: 0,
            minimum_overlap_pixels: 1024,
            minimum_overlap_width: 32,
            minimum_overlap_height: 32,
            event_debounce_milliseconds: 1000,
            brightness_retry_milliseconds: 5000,
            include_tool_windows: false,
            excluded_process_names: shell_processes(),
            excluded_class_names: shell_classes(),
        }
    }
}

impl Default for AppSettings {
    fn default() -> (settings: Self)
        ensures
            settings@ == SettingsView::usual(),
    {
        let mut processes = NameSet::new();
        processes.insert(normalize_name("LockApp"));
        processes.insert(normalize_name("SearchHost"));
        processes.insert(normalize_name("ShellExperienceHost"));
        processes.insert(normalize_name("StartMenuExperienceHost"));
        processes.insert(normalize_name("TextInputHost"));
        processes.insert(normalize_name("WidgetService"));
        processes.insert(normalize_name("Widgets"));
        let mut classes = NameSet::new();
        classes.insert(normalize_name("NotifyIconOverflowWindow"));
        classes.insert(normalize_name("Progman"));
        classes.insert(normalize_name("Shell_SecondaryTrayWnd"));
        classes.insert(normalize_name("Shell_TrayWnd"));
        classes.insert(normalize_name("WorkerW"));
        AppSettings {
            empty_brightness: 0,
            minimum_overlap_pixels: 1024,
            minimum_overlap_width: 32,
            minimum_overlap_height: 32,
            event_debounce_milliseconds: 1000,
            brightness_retry_milliseconds: 5000,
            include_tool_windows: false,
            excluded_process_names: processes,
            excluded_class_names: classes,
        }
    }
}

} // verus!
