use mmd::geometry::SimpleRect;
use mmd::inspection::get_process_name;
use mmd::inspection::process_name_from_stem;
use mmd::inspection::Inspection;
use mmd::inspection::InspectionStep;
use mmd::inspection::WindowAnswer;
use mmd::inspection::WindowFlags;
use mmd::inspection::WindowTracker;
use mmd::settings::AppSettings;
use mmd::settings::NameSet;
use mmd::tracking::TrackedWindow;
use mmd::utf16::encode;

struct Window {
    flags: WindowFlags,
    style: isize,
    cloak: Option<u32>,
    frame: Option<SimpleRect>,
    title: String,
    class_name: String,
    process_id: u32,
    process_name: String,
}

fn ordinary() -> Window {
    Window {
        flags: WindowFlags {
            is_null: false,
            is_shell: false,
            is_visible: true,
            is_iconic: false,
        },
        style: 0x100,
        cloak: Some(0),
        frame: Some(SimpleRect { left: 0, top: 0, right: 10, bottom: 10 }),
        title: "Notes".to_string(),
        class_name: "Notepad".to_string(),
        process_id: 4,
        process_name: "notepad".to_string(),
    }
}

fn inspect(tracker: &WindowTracker, window: &Window) -> (Option<TrackedWindow>, usize) {
    let mut step = tracker.try_get_tracked_window(window.flags);
    let mut questions: usize = 0;
    loop {
        match step {
            InspectionStep::Rejected => {
                return (None, questions);
            }
            InspectionStep::Accepted(found) => {
                return (Some(found), questions);
            }
            InspectionStep::Ask(inspection) => {
                questions += 1;
                let answer = match &inspection {
                    Inspection::TitleLength => WindowAnswer::TitleLength(
                        encode(&window.title).len() as i32,
                    ),
                    Inspection::Style { .. } => WindowAnswer::Style(window.style),
                    Inspection::Cloak { .. } => WindowAnswer::Cloak(window.cloak),
                    Inspection::Frame { .. } => WindowAnswer::Frame(window.frame),
                    Inspection::Title { capacity, .. } => {
                        assert_eq!(*capacity, encode(&window.title).len() + 1);
                        WindowAnswer::Title(window.title.clone())
                    }
                    Inspection::ClassName { .. } => WindowAnswer::ClassName(
                        window.class_name.clone(),
                    ),
                    Inspection::ProcessId { .. } => WindowAnswer::ProcessId(window.process_id),
                    Inspection::ProcessName { process_id, .. } => {
                        assert_eq!(*process_id, window.process_id);
                        WindowAnswer::ProcessName(window.process_name.clone())
                    }
                };
                step = tracker.resume_inspection(inspection, answer);
            }
        }
    }
}

fn counts(window: &Window) -> bool {
    let tracker = WindowTracker::new(AppSettings::default());
    inspect(&tracker, window).0.is_some()
}

#[test]
fn ordinary_windows_count() {
    let tracker = WindowTracker::new(AppSettings::default());
    let (found, questions) = inspect(&tracker, &ordinary());
    let found = found.unwrap();
    assert_eq!(questions, 8);
    assert_eq!(found.process_name, "notepad");
    assert_eq!(found.title, "Notes");
    assert_eq!(found.bounds, SimpleRect { left: 0, top: 0, right: 10, bottom: 10 });
}

#[test]
fn windows_off_the_screen_do_not_count() {
    let mut window = ordinary();
    window.flags.is_null = true;
    assert!(!counts(&window));
    let mut window = ordinary();
    window.flags.is_shell = true;
    assert!(!counts(&window));
    let mut window = ordinary();
    window.flags.is_visible = false;
    assert!(!counts(&window));
    let mut window = ordinary();
    window.flags.is_iconic = true;
    assert!(!counts(&window));
}

#[test]
fn tool_windows_count_only_if_included() {
    let mut window = ordinary();
    window.style = 0x180;
    assert!(!counts(&window));
    let mut settings = AppSettings::default();
    settings.include_tool_windows = true;
    let tracker = WindowTracker::new(settings);
    assert!(inspect(&tracker, &window).0.is_some());
}

#[test]
fn cloaked_windows_do_not_count() {
    let mut window = ordinary();
    window.cloak = Some(2);
    assert!(!counts(&window));
    window.cloak = None;
    assert!(counts(&window));
}

#[test]
fn windows_without_an_area_do_not_count() {
    let mut window = ordinary();
    window.frame = None;
    assert!(!counts(&window));
    window.frame = Some(SimpleRect { left: 5, top: 0, right: 5, bottom: 10 });
    assert!(!counts(&window));
    window.frame = Some(SimpleRect { left: 0, top: 11, right: 5, bottom: 10 });
    assert!(!counts(&window));
}

#[test]
fn untitled_windows_count_under_a_placeholder() {
    let tracker = WindowTracker::new(AppSettings::default());
    let mut window = ordinary();
    window.title = String::new();
    let (found, questions) = inspect(&tracker, &window);
    assert_eq!(found.unwrap().title, "(untitled)");
    assert_eq!(questions, 7);
    window.title = " ".to_string();
    assert_eq!(inspect(&tracker, &window).0.unwrap().title, "(untitled)");
}

#[test]
fn windows_of_the_shell_do_not_count() {
    for class_name in vec!["Progman", "WORKERW", "shell_traywnd", "Shell_SecondaryTrayWnd"] {
        let mut window = ordinary();
        window.class_name = class_name.to_string();
        assert!(!counts(&window));
    }
    for process_name in vec!["SearchHost", "lockapp", "TextInputHost", "Widgets"] {
        let mut window = ordinary();
        window.process_name = process_name.to_string();
        assert!(!counts(&window));
    }
}

#[test]
fn windows_of_unknown_processes_count() {
    let tracker = WindowTracker::new(AppSettings::default());
    let mut window = ordinary();
    window.process_name = String::new();
    assert!(counts(&window));
    window.process_id = 0;
    let (found, questions) = inspect(&tracker, &window);
    assert_eq!(found.unwrap().process_name, "");
    assert_eq!(questions, 7);
}

#[test]
fn processes_are_named_by_the_stem_of_their_image() {
    let named = |path: &str| get_process_name(Some(encode(path)));
    assert_eq!(named("notepad.exe"), "notepad");
    assert_eq!(named("archive.tar.gz"), "archive.tar");
    assert_eq!(named(".hidden"), ".hidden");
    assert_eq!(named("plain"), "plain");
    assert_eq!(named("C:/Windows/System32/cmd.exe"), "cmd");
    assert_eq!(named("opt/tools/v1.2/run.me.sh"), "run.me");
    for front in vec![
        "C:\\Windows\\System32\\",
        "d:\\v1.2\\",
        "\\\\server\\share\\dir\\",
        "\\\\?\\C:\\long\\",
        "\\\\?\\UNC\\server\\share\\",
        "\\\\?\\Volume{12}\\",
        "\\\\.\\device\\",
        "C:",
        "\\Device\\HarddiskVolume3\\",
    ] {
        let stem = named(&format!("{front}cmd.exe"));
        assert!(stem == "cmd" || stem == format!("{front}cmd"));
    }
    assert_eq!(named("//server/share/dir/cmd.exe"), "cmd");
    assert_eq!(named("tools/cmd.exe/./"), "cmd");
    assert_eq!(named("./cmd.exe//"), "cmd");
    assert_eq!(named("tools/.."), "");
    assert_eq!(named("."), "");
    assert_eq!(named("..."), "..");
    assert_eq!(named(".."), "");
    assert_eq!(named("/"), "");
    assert_eq!(get_process_name(None), "");
    assert_eq!(get_process_name(Some(vec![])), "");
}

#[test]
fn process_without_a_stem_has_no_name() {
    assert_eq!(process_name_from_stem(None), "");
    assert_eq!(process_name_from_stem(Some("cmd".to_string())), "cmd");
}

#[test]
fn default_settings_leave_the_shell_out() {
    let settings = AppSettings::default();
    assert_eq!(settings.empty_brightness, 0);
    assert_eq!(settings.minimum_overlap_pixels, 1024);
    assert_eq!(settings.minimum_overlap_width, 32);
    assert_eq!(settings.minimum_overlap_height, 32);
    assert_eq!(settings.event_debounce_milliseconds, 1000);
    assert_eq!(settings.brightness_retry_milliseconds, 5000);
    assert!(!settings.include_tool_windows);
    for name in vec![
        "lockapp",
        "searchhost",
        "shellexperiencehost",
        "startmenuexperiencehost",
        "textinputhost",
        "widgetservice",
        "widgets",
    ] {
        assert!(settings.excluded_process_names.contains(&name.to_string()));
    }
    for name in vec![
        "notifyiconoverflowwindow",
        "progman",
        "shell_secondarytraywnd",
        "shell_traywnd",
        "workerw",
    ] {
        assert!(settings.excluded_class_names.contains(&name.to_string()));
    }
    assert!(!settings.excluded_class_names.contains(&"Progman".to_string()));
    let copy = settings.clone();
    assert!(copy.excluded_class_names.contains(&"progman".to_string()));
    assert_eq!(copy.brightness_retry_milliseconds, 5000);
}

#[test]
fn name_sets_hold_what_is_put_into_them() {
    let mut set = NameSet::new();
    assert!(!set.contains(&"a".to_string()));
    set.insert("a".to_string());
    set.insert("a".to_string());
    assert!(set.contains(&"a".to_string()));
    assert!(!set.contains(&"A".to_string()));
}
