//! What the program does on each occasion, told in the numbers and texts that the
//! outside world sees.

use vstd::prelude::*;

use crate::commands::command_with;
use crate::commands::menu;
use crate::commands::picked_id;
use crate::commands::Command;
use crate::commands::EntryView;
use crate::display::DisplayView;
use crate::enumeration::DisplayInfoView;
use crate::enumeration::EnumerationReplyView;
use crate::enumeration::EnumerationStage;
use crate::enumeration::EnumerationStepView;
use crate::enumeration::EnumerationView;
use crate::events::event_name;
use crate::events::last_event_text;
use crate::events::time_text;
use crate::events::watched;
use crate::events::EpochTime;
use crate::events::EventLog;
use crate::events::LastEvent;
use crate::events::WindowEvent;
use crate::manager::open_monitors;
use crate::manager::ManagerView;
use crate::manager::OperationView;
use crate::messages::answer;
use crate::messages::low_bits;
use crate::messages::reaction;
use crate::messages::Reaction;
use crate::settings::shell_classes;
use crate::settings::shell_processes;
use crate::settings::SettingsView;
use crate::state::looking;
use crate::state::picking;
use crate::state::ActionView;
use crate::state::AppStepView;
use crate::state::AppView;
use crate::state::EffectView;
use crate::state::Task;
use crate::state::TurnView;
use crate::target::MonitorReply;
use crate::text::decimal;
use crate::text::numeral;
use crate::text::zero_padded;
use crate::tracking::WindowView;

verus! {

/// The lower sixteen bits of a parameter are what is left of it modulo their
/// range, so parameters that differ only in higher bits are taken alike.
pub proof fn higher_bits_do_not_matter(value: int, higher: int)
    ensures
        0 <= low_bits(value) < 65536,
        0 <= value < 65536 ==> low_bits(value) == value,
        low_bits(value + 65536 * higher) == low_bits(value),
{
    assert((value + 65536 * higher) % 65536 == value % 65536) by (nonlinear_arith);
}

/// Before its window is there, or before the program is up, a message is left to
/// the system; only the end of the window ends the program.
pub proof fn messages_before_the_start_are_left_to_the_system(
    message: u32,
    wparam: usize,
    lparam: isize,
    ready: bool,
    taskbar_created: Option<u32>,
)
    requires
        message == 129 || !ready,
    ensures
        reaction(message, wparam, lparam, ready, taskbar_created) == (if message == 2 {
            Reaction::Quit
        } else {
            Reaction::Default
        }),
{
}

/// A new taskbar calls for the tray icon to be put back.
pub proof fn a_new_taskbar_gets_the_tray_icon(message: u32, wparam: usize, lparam: isize)
    requires
        message != 129,
    ensures
        reaction(message, wparam, lparam, true, Some(message)) == Reaction::RestoreTrayIcon,
        answer(message, Reaction::RestoreTrayIcon) == 0,
{
}

/// What each message calls for once the program is up: a click on the tray icon
/// toggles dimming, a right click or the menu key shows the menu; a command is
/// carried out; a window event schedules an update, the program's own timer makes
/// it; a change of the displays and the computer's waking up schedule one that finds
/// the displays anew; the end of the window ends the program. All else is left to
/// the system.
pub proof fn messages_call_for_what_they_mean(
    message: u32,
    wparam: usize,
    lparam: isize,
    taskbar_created: Option<u32>,
)
    requires
        taskbar_created != Some(message),
    ensures
        ({
            let called_for = reaction(message, wparam, lparam, true, taskbar_created);
            let click = (lparam as int) % 65536;
            &&& message == 32769 ==> called_for == (if click == 514 {
                Reaction::ToggleDimming
            } else if click == 517 || click == 123 {
                Reaction::ShowMenu
            } else {
                Reaction::Ignore
            })
            &&& message == 273 ==> called_for == (Reaction::RunCommand {
                id: ((wparam as int) % 65536) as usize,
            })
            &&& message == 32770 ==> called_for == Reaction::ScheduleUpdate
            &&& message == 275 ==> called_for == (if wparam == 1 {
                Reaction::Update
            } else {
                Reaction::Ignore
            })
            &&& message == 126 ==> called_for == Reaction::ScheduleRefresh
            &&& message == 536 ==> called_for == (if wparam == 18 {
                Reaction::ScheduleRefresh
            } else {
                Reaction::Default
            })
            &&& message == 16 || message == 2 ==> called_for == Reaction::Quit
            &&& message != 32769 && message != 273 && message != 32770 && message != 275 && message
                != 126 && message != 536 && message != 16 && message != 2 ==> called_for
                == Reaction::Default
            &&& answer(message, called_for) == (if message == 536 && wparam == 18 {
                1isize
            } else {
                0isize
            })
        }),
{
}

/// Each command has its number, and no other number is a command.
pub proof fn commands_have_numbers(id: usize)
    ensures
        id == 1000 ==> command_with(id) == Some(Command::SetBrightness { percent: 0 }),
        id == 1010 ==> command_with(id) == Some(Command::SetBrightness { percent: 10 }),
        id == 1025 ==> command_with(id) == Some(Command::SetBrightness { percent: 25 }),
        id == 1050 ==> command_with(id) == Some(Command::SetBrightness { percent: 50 }),
        id == 1075 ==> command_with(id) == Some(Command::SetBrightness { percent: 75 }),
        id == 1100 ==> command_with(id) == Some(Command::SetBrightness { percent: 100 }),
        id == 1900 ==> command_with(id) == Some(Command::ToggleDimming),
        id == 2000 ==> command_with(id) == Some(Command::Refresh),
        id == 2001 ==> command_with(id) == Some(Command::Diagnostics),
        id == 2002 ==> command_with(id) == Some(Command::Exit),
        command_with(id) is Some ==> id == 1000 || id == 1010 || id == 1025 || id == 1050 || id
            == 1075 || id == 1100 || id == 1900 || id == 2000 || id == 2001 || id == 2002,
{
}

/// The menu shows the switch for dimming with a check mark while it is on, then the
/// brightness levels from dark to bright, then the rest, with separators between.
pub proof fn the_menu_is_laid_out(manual_dimming_enabled: bool)
    ensures
        ({
            let entries = menu(manual_dimming_enabled);
            &&& entries.len() == 13
            &&& entries[0] == (EntryView::CheckItem {
                id: 1900,
                label: "Dimming"@,
                checked: manual_dimming_enabled,
            })
            &&& entries[1] is Separator && entries[8] is Separator && entries[11] is Separator
            &&& entries[2] == (EntryView::Item { id: 1000, label: "0%"@ })
            &&& entries[3] == (EntryView::Item { id: 1010, label: "10%"@ })
            &&& entries[4] == (EntryView::Item { id: 1025, label: "25%"@ })
            &&& entries[5] == (EntryView::Item { id: 1050, label: "50%"@ })
            &&& entries[6] == (EntryView::Item { id: 1075, label: "75%"@ })
            &&& entries[7] == (EntryView::Item { id: 1100, label: "100%"@ })
            &&& entries[9] == (EntryView::Item { id: 2000, label: "Refresh now"@ })
            &&& entries[10] == (EntryView::Item { id: 2001, label: "Diagnostics"@ })
            &&& entries[12] == (EntryView::Item { id: 2002, label: "Exit"@ })
        }),
{
}

/// Which events matter: a change of the foreground window, of a minimised window or
/// of the desktop, always; a window's coming up, going, being shown, hidden, moved,
/// cloaked or uncloaked, if it is one of a window itself.
pub proof fn events_matter_for_what_they_are(event: WindowEvent)
    ensures
        event.relevant() <==> {
            let number = event.event_type;
            ||| number == 3 || number == 22 || number == 23 || number == 32
            ||| event.has_window && event.id_object == 0 && event.id_child == 0 && (number == 32768
                || number == 32769 || number == 32770 || number == 32771 || number == 32779
                || number == 32791 || number == 32792)
        },
{
}

/// What is listened to.
pub proof fn events_are_listened_to(event_type: u32)
    ensures
        (exists|i: int| 0 <= i < watched().len() && (#[trigger] watched()[i]).holds(event_type))
            <==> (event_type == 3 || event_type == 22 || event_type == 23 || event_type == 32 || (
        32768 <= event_type <= 32779) || event_type == 32791 || event_type == 32792),
        watched().len() == 5,
{
    let ranges = watched();
    if event_type == 3 {
        assert(ranges[0].holds(event_type));
    } else if event_type == 22 || event_type == 23 {
        assert(ranges[1].holds(event_type));
    } else if event_type == 32 {
        assert(ranges[2].holds(event_type));
    } else if 32768 <= event_type <= 32779 {
        assert(ranges[3].holds(event_type));
    } else if event_type == 32791 || event_type == 32792 {
        assert(ranges[4].holds(event_type));
    }
}

/// What events and times are called.
pub proof fn events_and_times_have_names(event_type: u32, time: EpochTime, last: LastEvent)
    ensures
        event_type == 3 ==> event_name(event_type) == "Foreground"@,
        event_type == 22 ==> event_name(event_type) == "Minimize start"@,
        event_type == 23 ==> event_name(event_type) == "Minimize end"@,
        event_type == 32 ==> event_name(event_type) == "Desktop switch"@,
        event_type == 32791 ==> event_name(event_type) == "Object cloaked"@,
        event_type == 32792 ==> event_name(event_type) == "Object uncloaked"@,
        32768 <= event_type <= 32779 ==> event_name(event_type) == "Object change"@,
        event_type != 3 && event_type != 22 && event_type != 23 && event_type != 32 && event_type
            != 32791 && event_type != 32792 && !(32768 <= event_type <= 32779) ==> event_name(
            event_type,
        ) == "0x"@ + zero_padded(numeral(event_type as nat, 16), 4),
        time_text(None) == "(unknown time)"@,
        time_text(Some(time)) == "unix+"@ + decimal(time.seconds as int) + "."@ + zero_padded(
            decimal(time.milliseconds as int),
            3,
        ) + "s"@,
        last_event_text(None) == "(none)"@,
        last_event_text(Some(last)) == event_name(last.event_type) + " at "@ + time_text(last.when),
{
}

/// An event that matters is counted and is the last one then; any other changes
/// nothing. Behind the largest number the count starts again at the smallest.
pub proof fn events_are_logged(log: EventLog, event: WindowEvent, when: Option<EpochTime>)
    ensures
        !event.relevant() ==> log.with(event, when) == log,
        event.relevant() ==> log.with(event, when).last == Some(
            LastEvent { event_type: event.event_type, when },
        ),
        event.relevant() && log.count < i64::MAX ==> log.with(event, when).count == log.count + 1,
        event.relevant() && log.count == i64::MAX ==> log.with(event, when).count == i64::MIN,
{
}

/// Word of an event that matters is sent to the window that listens, if there is
/// one.
pub proof fn word_is_sent_of_what_matters(event: WindowEvent, listener: isize)
    ensures
        event.relevant() && listener != 0 ==> event.receiver(listener) == Some(listener),
        !event.relevant() || listener == 0 ==> event.receiver(listener) is None,
{
}

/// What is picked in the menu is a command by its number, if it is above zero.
pub proof fn picked_numbers_are_commands(picked: i32)
    ensures
        picked > 0 ==> picked_id(picked) is Some && picked_id(picked)->0 == picked,
        picked <= 0 ==> picked_id(picked) is None,
{
}

/// At its start the program has the displays that were found, nothing remembered
/// and nothing scheduled, and goes by the settings throughout; the user does not dim
/// by hand, and nothing has gone wrong.
pub proof fn the_program_starts_afresh(settings: SettingsView, displays: Seq<DisplayView>)
    ensures
        ({
            let app = AppView::fresh(settings, displays);
            &&& app.settings == settings
            &&& app.window_tracker == settings
            &&& app.monitor_manager.settings == settings
            &&& app.monitor_manager.displays == displays
            &&& !app.monitor_manager.manual_dimming_enabled
            &&& forall|name| !(#[trigger] app.monitor_manager.detached_snapshots.contains_key(name))
            &&& !app.update_scheduled
            &&& !app.retry_timer_scheduled
            &&& !app.display_refresh_needed
            &&& app.last_error is None
        }),
{
}

/// An update, and setting the brightness that was picked, start with the windows
/// being listed.
pub proof fn work_on_displays_starts_with_the_windows(percent: u32)
    ensures
        looking().effects == Seq::<EffectView>::empty(),
        looking().step == (AppStepView::ListWindows { task: Task::Update }),
        picking(percent).effects == Seq::<EffectView>::empty(),
        picking(percent).step == (AppStepView::ListWindows {
            task: Task::SetBrightness { percent },
        }),
{
}

/// The settings where none are given: empty displays are made as dark as they go; a
/// window counts with an overlap of thirty-two by thirty-two; events are given a
/// second to settle, and a further attempt is made after five; tool windows do not
/// count.
pub proof fn settings_are_these_where_none_are_given()
    ensures
        ({
            let settings = SettingsView::usual();
            &&& settings.empty_brightness == 0
            &&& settings.minimum_overlap_width == 32
            &&& settings.minimum_overlap_height == 32
            &&& settings.minimum_overlap_pixels == 32 * 32
            &&& settings.event_debounce_milliseconds == 1000
            &&& settings.brightness_retry_milliseconds == 5 * 1000
            &&& !settings.include_tool_windows
            &&& settings.excluded_process_names == shell_processes()
            &&& settings.excluded_class_names == shell_classes()
        }),
{
}

/// A turn that ends with these effects.
pub open spec fn over(effects: Seq<EffectView>) -> TurnView {
    TurnView { effects, step: AppStepView::Finished { action: ActionView::Nothing } }
}

/// The timer started anew, for at least a millisecond.
pub open spec fn timer_anew(milliseconds: u32) -> Seq<EffectView> {
    seq![
        EffectView::StopTimer,
        EffectView::StartTimer {
            milliseconds: if milliseconds == 0 {
                1
            } else {
                milliseconds
            },
        },
    ]
}

/// What the tray icon says: the last error, if there is one; else on how many
/// displays something is to be tried again, if on any; else how many of the displays
/// that can be dimmed are dimmed.
pub proof fn the_tray_icon_tells_how_things_are(app: AppView)
    ensures
        app.last_error is Some ==> app.tooltip() == "MMD - Error: "@ + app.last_error->0,
        app.last_error is None && app.monitor_manager.pending_count() > 0 ==> app.tooltip()
            == "MMD - retrying "@ + decimal(app.monitor_manager.pending_count() as int)
            + " brightness update(s)"@,
        app.last_error is None && app.monitor_manager.pending_count() == 0 ==> app.tooltip()
            == "MMD - "@ + decimal(app.monitor_manager.dimmed_count() as int) + "/"@ + decimal(
            app.monitor_manager.controllable_count() as int,
        ) + " dimmed"@,
{
}

/// Scheduling an update starts the timer for the time that events are given to
/// settle, unless it runs already and not for a further attempt.
pub proof fn updates_are_scheduled(app: AppView)
    ensures
        app.update_scheduled && !app.retry_timer_scheduled ==> app.scheduling() == (
            app,
            over(Seq::empty()),
        ),
        !app.update_scheduled || app.retry_timer_scheduled ==> app.scheduling() == (
            AppView { update_scheduled: true, retry_timer_scheduled: false, ..app },
            over(timer_anew(app.settings.event_debounce_milliseconds)),
        ),
        app.scheduling_refresh().0.display_refresh_needed,
        app.scheduling_refresh().1 == app.scheduling().1,
        (AppView {
            display_refresh_needed: app.display_refresh_needed,
            ..app.scheduling_refresh().0
        }) == app.scheduling().0,
{
}

/// A timer that cannot be started leaves nothing scheduled, and an error that is
/// shown at once.
pub proof fn a_timer_that_cannot_be_started_is_told(app: AppView)
    ensures
        ({
            let (next, turn) = app.without_timer();
            &&& next == (AppView {
                update_scheduled: false,
                retry_timer_scheduled: false,
                last_error: Some("Failed to schedule brightness update"@),
                ..app
            })
            &&& turn == over(seq![EffectView::SetTooltip { text: next.tooltip() }])
        }),
{
}

/// The scheduled update, and one that is asked for to find the displays anew, stop
/// the timer and list the windows first.
pub proof fn updates_start_with_the_windows(app: AppView)
    ensures
        app.elapsed() == (
            AppView { update_scheduled: false, retry_timer_scheduled: false, ..app },
            TurnView {
                effects: seq![EffectView::StopTimer],
                step: AppStepView::ListWindows { task: Task::Update },
            },
        ),
        app.refreshing() == (
            AppView {
                update_scheduled: false,
                retry_timer_scheduled: false,
                display_refresh_needed: true,
                ..app
            },
            TurnView {
                effects: seq![EffectView::StopTimer],
                step: AppStepView::ListWindows { task: Task::Update },
            },
        ),
{
}

/// Where a turn stands after a step of a job.
pub open spec fn stands(task: Task, operation: Option<OperationView>) -> AppStepView {
    match operation {
        Some(operation) => AppStepView::Talk { task, operation },
        None => AppStepView::Conclude { task },
    }
}

/// Toggling calls off the scheduled update. While the user dims by hand it goes on
/// to restore, for which the windows are listed; else all displays are dimmed.
pub proof fn toggling_switches_dimming_by_hand(app: AppView)
    ensures
        ({
            let (next, turn) = app.toggling();
            let (dimmed, operation) = app.monitor_manager.dimming_all();
            let on = app.monitor_manager.manual_dimming_enabled;
            &&& turn.effects == seq![EffectView::StopTimer]
            &&& next == (AppView {
                update_scheduled: false,
                retry_timer_scheduled: false,
                monitor_manager: if on {
                    app.monitor_manager
                } else {
                    dimmed
                },
                ..app
            })
            &&& turn.step == (if on {
                AppStepView::ListWindows { task: Task::Toggle }
            } else {
                stands(Task::Toggle, operation)
            })
        }),
{
}

/// With the windows a turn goes on to what it is about: to restore by hand, to set
/// the brightness that was picked, or to update; where the displays are to be found
/// anew, they are let go of first, their monitors are closed and the displays
/// listed.
pub proof fn turns_go_on_with_the_windows(app: AppView, percent: u32, windows: Seq<WindowView>)
    ensures
        ({
            let (restored, operation) = app.monitor_manager.restoring_from_user(windows);
            app.with_windows(Task::Toggle, windows) == (
                AppView { monitor_manager: restored, ..app },
                stands(Task::Toggle, operation),
            )
        }),
        ({
            let task = Task::SetBrightness { percent };
            let (set, operation) = app.monitor_manager.setting_all(percent, windows);
            app.with_windows(task, windows) == (
                AppView { monitor_manager: set, ..app },
                stands(task, operation),
            )
        }),
        ({
            let (updated, operation) = app.monitor_manager.updating(windows);
            !app.display_refresh_needed ==> app.with_windows(Task::Update, windows) == (
                AppView { monitor_manager: updated, ..app },
                stands(Task::Update, operation),
            )
        }),
        app.display_refresh_needed ==> app.with_windows(Task::Update, windows) == (
            AppView {
                monitor_manager: app.monitor_manager.detached(),
                display_refresh_needed: false,
                ..app
            },
            AppStepView::ListDisplays {
                closing: open_monitors(app.monitor_manager.displays),
                windows,
            },
        ),
{
}

/// Once the displays are found, they are taken on and updated; until then the
/// enumeration waits, and nothing changes.
pub proof fn found_displays_are_updated(
    app: AppView,
    found: EnumerationStepView,
    windows: Seq<WindowView>,
)
    ensures
        match found {
            EnumerationStepView::Finished(displays) => {
                let (updated, operation) = app.monitor_manager.attached(displays).updating(
                    windows,
                );
                app.finding(found, windows) == (
                    AppView { monitor_manager: updated, ..app },
                    stands(Task::Update, operation),
                )
            },
            EnumerationStepView::Waiting(enumeration) => app.finding(found, windows) == (
                app,
                AppStepView::Enumerate { enumeration, windows },
            ),
        },
{
}

/// A turn goes on with its job, and stands where the job stands.
pub proof fn turns_stand_where_their_jobs_stand(
    app: AppView,
    task: Task,
    job: (ManagerView, Option<OperationView>),
)
    ensures
        app.working(task, job) == (
            AppView { monitor_manager: job.0, ..app },
            stands(task, job.1),
        ),
{
}

/// A monitor's answer is handed to the job that waits for it, an answer to an
/// enumeration to that, and the displays that are listed are all gone through from
/// the first one on.
pub proof fn answers_reach_what_waits_for_them(
    app: AppView,
    task: Task,
    operation: OperationView,
    reply: MonitorReply,
    enumeration: EnumerationView,
    found: EnumerationReplyView,
    infos: Seq<DisplayInfoView>,
    windows: Seq<WindowView>,
)
    ensures
        ({
            let (manager, next) = app.monitor_manager.advanced_on(operation, reply);
            app.with_answer(task, operation, reply) == (
                AppView { monitor_manager: manager, ..app },
                stands(task, next),
            )
        }),
        enumeration.continued(found) matches EnumerationStepView::Waiting(later)
            ==> app.with_finding(enumeration, windows, found) == (
            app,
            AppStepView::Enumerate { enumeration: later, windows },
        ),
        enumeration.continued(found) matches EnumerationStepView::Finished(displays)
            ==> app.with_finding(enumeration, windows, found) == ({
            let (manager, next) = app.monitor_manager.attached(displays).updating(windows);
            (AppView { monitor_manager: manager, ..app }, stands(Task::Update, next))
        }),
        infos.len() > 0 ==> app.with_displays(infos, windows) == (
            app,
            AppStepView::Enumerate {
                enumeration: EnumerationView {
                    infos,
                    displays: Seq::empty(),
                    next: 0,
                    stage: EnumerationStage::Counting,
                },
                windows,
            },
        ),
        infos.len() == 0 ==> app.with_displays(infos, windows) == ({
            let (manager, next) = app.monitor_manager.attached(Seq::empty()).updating(windows);
            (AppView { monitor_manager: manager, ..app }, stands(Task::Update, next))
        }),
{
}

/// A turn ends with the tray icon telling how things are, and with the timer started
/// for a further attempt if something is pending and no update is scheduled. An
/// update notes whether it has broken off.
pub proof fn turns_end_with_the_tray_icon(app: AppView, task: Task, broken_off: bool)
    ensures
        ({
            let told = AppView {
                last_error: if !(task is Update) {
                    app.last_error
                } else if broken_off {
                    Some("Unexpected update error"@)
                } else {
                    None
                },
                ..app
            };
            let tooltip = EffectView::SetTooltip { text: told.tooltip() };
            app.concluded(task, broken_off) == (if app.monitor_manager.pending_count() > 0
                && !app.update_scheduled {
                (
                    AppView { update_scheduled: true, retry_timer_scheduled: true, ..told },
                    over(
                        seq![tooltip] + timer_anew(app.settings.brightness_retry_milliseconds),
                    ),
                )
            } else {
                (told, over(seq![tooltip]))
            })
        }),
{
}

/// What went wrong when the tray icon was put back becomes the last error. Once it
/// has gone well, such an error is forgotten, and no other.
pub proof fn tray_icon_errors_are_told_and_forgotten(
    app: AppView,
    error: Seq<char>,
    rest: Seq<char>,
)
    ensures
        ({
            let (next, turn) = app.restoring_tray_icon(Some(error));
            &&& next == (AppView {
                last_error: Some("Failed to restore tray icon: "@ + error),
                ..app
            })
            &&& turn == over(seq![EffectView::SetTooltip { text: next.tooltip() }])
        }),
        ({
            let (next, turn) = app.restoring_tray_icon(None);
            &&& turn == over(seq![EffectView::SetTooltip { text: next.tooltip() }])
            &&& app.last_error == Some("Failed to restore tray icon:"@ + rest) ==> next == (
            AppView { last_error: None, ..app })
            &&& app.last_error is None || !("Failed to restore tray icon:"@).is_prefix_of(
                app.last_error->0,
            ) ==> next == app
        }),
{
    let told = "Failed to restore tray icon:"@;
    assert((told + rest).subrange(0, told.len() as int) =~= told);
}

/// What each command does, by its number.
pub proof fn commands_do_what_they_are_for(app: AppView, id: usize, events: EventLog)
    ensures
        ({
            let done = app.commanded(id, events);
            let nothing = |step: AppStepView| TurnView { effects: Seq::empty(), step };
            let sets = |percent: u32|
                (app, nothing(
                    AppStepView::ListWindows { task: Task::SetBrightness { percent } },
                ));
            &&& id == 1000 ==> done == sets(0)
            &&& id == 1010 ==> done == sets(10)
            &&& id == 1025 ==> done == sets(25)
            &&& id == 1050 ==> done == sets(50)
            &&& id == 1075 ==> done == sets(75)
            &&& id == 1100 ==> done == sets(100)
            &&& id == 1900 ==> done == app.toggling()
            &&& id == 2000 ==> done == app.refreshing()
            &&& id == 2001 ==> done == (app, nothing(
                AppStepView::Finished {
                    action: ActionView::ShowDiagnostics { text: app.diagnostics(events) },
                },
            ))
            &&& id == 2002 ==> done == (app, nothing(
                AppStepView::Finished { action: ActionView::Exit },
            ))
            &&& id != 1000 && id != 1010 && id != 1025 && id != 1050 && id != 1075 && id != 1100
                && id != 1900 && id != 2000 && id != 2001 && id != 2002 ==> done == (
                app,
                over(Seq::empty()),
            )
        }),
{
}

/// The diagnostics tell how many displays are dimmed, the two delays, the events,
/// then of all displays, and of the last error if there is one.
pub proof fn diagnostics_tell_all(app: AppView, events: EventLog)
    ensures
        ({
            let told = "Dimmed displays: "@ + decimal(app.monitor_manager.dimmed_count() as int)
                + "\r\n"@ + "Debounce: "@ + decimal(
                app.settings.event_debounce_milliseconds as int,
            ) + " ms\r\n"@ + "Brightness retry: "@ + decimal(
                app.settings.brightness_retry_milliseconds as int,
            ) + " ms\r\n"@ + "Window events: "@ + decimal(events.count as int) + "\r\n"@
                + "Last window event: "@ + last_event_text(events.last) + "\r\n\r\n"@
                + app.monitor_manager.diagnostic_text();
            &&& app.last_error is None ==> app.diagnostics(events) == told
            &&& app.last_error is Some ==> app.diagnostics(events) == told
                + "\r\n\r\nLast error: "@ + app.last_error->0
        }),
{
}

} // verus!
