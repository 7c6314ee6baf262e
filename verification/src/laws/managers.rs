//! What the jobs that go over all displays do to each display and each monitor.

use vstd::prelude::*;

use crate::brightness::DisplayDimmingState;
use crate::brightness::PendingBrightnessOperation;
use crate::display::Conditions;
use crate::display::DisplayView;
use crate::display::Errand;
use crate::display::Visit;
use crate::geometry::SimpleRect;
use crate::laws::displays::operations_tell_every_monitor;
use crate::laws::displays::requests_replace_what_is_pending;
use crate::laws::displays::shutdown_tells_every_monitor;
use crate::laws::lemma_same_targets_count;
use crate::laws::targets::dimming_comes_to_this;
use crate::laws::targets::failing;
use crate::laws::targets::levels_lie_in_the_monitors_range;
use crate::laws::targets::reachable;
use crate::laws::targets::restoring_at_shutdown_comes_to_this;
use crate::laws::targets::restoring_comes_to_this;
use crate::laws::targets::setting_comes_to_this;
use crate::laws::targets::stands_for;
use crate::laws::targets::succeeding;
use crate::laws::windows::displays_are_kept_lit_by_the_first_window_that_shows_enough;
use crate::laws::windows::shows_enough;
use crate::manager::brightness_note;
use crate::manager::is_occupied;
use crate::manager::open_handles;
use crate::manager::open_monitors;
use crate::manager::Job;
use crate::manager::ManagerView;
use crate::manager::OperationView;
use crate::outcome::about;
use crate::outcome::for_display;
use crate::outcome::job_to_the_point;
use crate::outcome::jobs_visit_each_display;
use crate::outcome::on_errand;
use crate::outcome::to_the_point;
use crate::settings::SettingsView;
use crate::target::BrightnessReading;
use crate::target::MonitorReply;
use crate::target::Stage;
use crate::target::TargetView;
use crate::text::decimal;
use crate::tracking::blocking_caption;
use crate::tracking::WindowView;

verus! {

/// Some window shows enough on a display.
pub open spec fn window_shows(
    settings: SettingsView,
    display: SimpleRect,
    windows: Seq<WindowView>,
) -> bool {
    exists|i: int|
        0 <= i < windows.len() && shows_enough(settings, display, (#[trigger] windows[i]).bounds)
}

/// The state of a display that the user has lit.
pub open spec fn lit_by_user(window: bool) -> DisplayDimmingState {
    if window {
        DisplayDimmingState::Lit
    } else {
        DisplayDimmingState::UserRestoredWhileEmpty
    }
}

/// The displays with what is told of the windows on them, or else the given note.
proof fn lemma_noted(
    manager: ManagerView,
    windows: Seq<WindowView>,
    otherwise: Option<Seq<char>>,
    at: int,
)
    requires
        manager.countable(),
        0 <= at < manager.displays.len(),
    ensures
        ({
            let noted = manager.noted(windows, otherwise);
            let bounds = manager.displays[at].bounds;
            let shows = window_shows(manager.settings, bounds, windows);
            &&& noted.countable()
            &&& noted.displays.len() == manager.displays.len()
            &&& noted.settings == manager.settings
            &&& noted.detached_snapshots == manager.detached_snapshots
            &&& noted.manual_dimming_enabled == manager.manual_dimming_enabled
            &&& is_occupied(manager.survey(windows), at) == shows
            &&& noted.displays[at] == (DisplayView {
                last_blocking_window: if shows {
                    blocking_caption(manager.settings, bounds, windows)
                } else {
                    otherwise
                },
                ..manager.displays[at]
            })
        }),
{
    lemma_same_targets_count(manager, manager.noted(windows, otherwise));
    displays_are_kept_lit_by_the_first_window_that_shows_enough(
        manager.settings,
        manager.displays[at].bounds,
        windows,
    );
}

/// An update brings every display in line with whether a window shows enough on
/// it, and notes the caption of that window, or nothing. Nothing else about the
/// manager changes.
pub proof fn updates_go_by_the_windows_on_each_display(
    manager: ManagerView,
    windows: Seq<WindowView>,
    answers: spec_fn(int, Errand, int, Stage) -> MonitorReply,
    at: int,
)
    requires
        manager.countable(),
        job_to_the_point(answers),
        0 <= at < manager.displays.len(),
    ensures
        ({
            let updated = ManagerView::carried_through(manager.updating(windows), answers);
            let display = manager.displays[at];
            let shows = window_shows(manager.settings, display.bounds, windows);
            &&& updated == (ManagerView { displays: updated.displays, ..manager })
            &&& updated.displays.len() == manager.displays.len()
            &&& updated.displays[at] == (DisplayView {
                last_blocking_window: if shows {
                    blocking_caption(manager.settings, display.bounds, windows)
                } else {
                    None
                },
                ..display
            }).updated_through(
                Conditions {
                    has_window: shows,
                    manual_dimming: manager.manual_dimming_enabled,
                    empty_brightness: manager.settings.empty_brightness,
                },
                for_display(answers, at),
            )
        }),
{
    lemma_noted(manager, windows, None, at);
    jobs_visit_each_display(
        manager.noted(windows, None),
        Job::Update,
        manager.survey(windows),
        answers,
    );
}

/// Restoring by hand ends dimming by hand, and asks every display to restore; it
/// is lit then, or lit while empty.
pub proof fn restoring_by_hand_asks_every_display(
    manager: ManagerView,
    windows: Seq<WindowView>,
    answers: spec_fn(int, Errand, int, Stage) -> MonitorReply,
    at: int,
)
    requires
        manager.countable(),
        job_to_the_point(answers),
        0 <= at < manager.displays.len(),
    ensures
        ({
            let restored = ManagerView::carried_through(
                manager.restoring_from_user(windows),
                answers,
            );
            let display = manager.displays[at];
            let shows = window_shows(manager.settings, display.bounds, windows);
            &&& restored == (ManagerView {
                displays: restored.displays,
                manual_dimming_enabled: false,
                ..manager
            })
            &&& restored.displays.len() == manager.displays.len()
            &&& restored.displays[at] == (DisplayView {
                last_blocking_window: if shows {
                    blocking_caption(manager.settings, display.bounds, windows)
                } else {
                    None
                },
                ..display
            }).requested_through(
                PendingBrightnessOperation::Restore { next_state: lit_by_user(shows) },
                on_errand(for_display(answers, at), Errand::Last),
            )
        }),
{
    let by_hand = ManagerView { manual_dimming_enabled: false, ..manager };
    lemma_same_targets_count(manager, by_hand);
    lemma_noted(by_hand, windows, None, at);
    assert(by_hand.survey(windows) =~= manager.survey(windows));
    jobs_visit_each_display(
        by_hand.noted(windows, None),
        Job::RestoreAllFromUser,
        manager.survey(windows),
        answers,
    );
}

/// Setting the brightness ends dimming by hand, and asks every display to set
/// itself to exactly that percentage; it is lit then, or lit while empty. Where no
/// window is told of, the brightness is.
pub proof fn setting_asks_every_display(
    manager: ManagerView,
    brightness: u32,
    windows: Seq<WindowView>,
    answers: spec_fn(int, Errand, int, Stage) -> MonitorReply,
    at: int,
)
    requires
        manager.countable(),
        job_to_the_point(answers),
        0 <= at < manager.displays.len(),
    ensures
        ({
            let set = ManagerView::carried_through(
                manager.setting_all(brightness, windows),
                answers,
            );
            let display = manager.displays[at];
            let shows = window_shows(manager.settings, display.bounds, windows);
            &&& set == (ManagerView {
                displays: set.displays,
                manual_dimming_enabled: false,
                ..manager
            })
            &&& set.displays.len() == manager.displays.len()
            &&& set.displays[at] == (DisplayView {
                last_blocking_window: if shows {
                    blocking_caption(manager.settings, display.bounds, windows)
                } else {
                    Some("Brightness set to "@ + decimal(brightness as int) + "%"@)
                },
                ..display
            }).requested_through(
                PendingBrightnessOperation::SetLevel {
                    brightness,
                    next_state: lit_by_user(shows),
                },
                on_errand(for_display(answers, at), Errand::Last),
            )
        }),
{
    let by_hand = ManagerView { manual_dimming_enabled: false, ..manager };
    let note = Some(brightness_note(brightness));
    lemma_same_targets_count(manager, by_hand);
    lemma_noted(by_hand, windows, note, at);
    assert(by_hand.survey(windows) =~= manager.survey(windows));
    jobs_visit_each_display(
        by_hand.noted(windows, note),
        Job::SetAll { brightness },
        manager.survey(windows),
        answers,
    );
}

/// Dimming by hand asks every display to dim to the brightness of empty ones,
/// whatever is on it, and notes the tray icon as the reason.
pub proof fn dimming_by_hand_asks_every_display(
    manager: ManagerView,
    answers: spec_fn(int, Errand, int, Stage) -> MonitorReply,
    at: int,
)
    requires
        manager.countable(),
        job_to_the_point(answers),
        0 <= at < manager.displays.len(),
    ensures
        ({
            let dimmed = ManagerView::carried_through(manager.dimming_all(), answers);
            &&& dimmed == (ManagerView {
                displays: dimmed.displays,
                manual_dimming_enabled: true,
                ..manager
            })
            &&& dimmed.displays.len() == manager.displays.len()
            &&& dimmed.displays[at] == (DisplayView {
                last_blocking_window: Some("Tray icon click"@),
                ..manager.displays[at]
            }).requested_through(
                PendingBrightnessOperation::Dim {
                    brightness: manager.settings.empty_brightness,
                    next_state: DisplayDimmingState::UserDimmed,
                },
                on_errand(for_display(answers, at), Errand::Last),
            )
        }),
{
    let dimming = ManagerView {
        manual_dimming_enabled: true,
        displays: manager.displays.map_values(
            |display: DisplayView|
                DisplayView { last_blocking_window: Some("Tray icon click"@), ..display },
        ),
        ..manager
    };
    lemma_same_targets_count(manager, dimming);
    jobs_visit_each_display(dimming, Job::DimAll, Seq::empty(), answers);
}

/// The last restoring visits every display as one that is shut down.
pub proof fn shutting_down_visits_every_display(
    manager: ManagerView,
    answers: spec_fn(int, Errand, int, Stage) -> MonitorReply,
    at: int,
    conditions: Conditions,
)
    requires
        manager.countable(),
        job_to_the_point(answers),
        0 <= at < manager.displays.len(),
    ensures
        ({
            let restored = ManagerView::carried_through(manager.restoring_all(), answers);
            &&& restored == (ManagerView { displays: restored.displays, ..manager })
            &&& restored.displays.len() == manager.displays.len()
            &&& restored.displays[at] == manager.displays[at].visited_through(
                Visit::Shutdown,
                conditions,
                for_display(answers, at),
            )
        }),
{
    jobs_visit_each_display(manager, Job::RestoreAll, Seq::empty(), answers);
}

/// What an operation that is asked for makes of a monitor.
proof fn lemma_requested_target(
    display: DisplayView,
    operation: PendingBrightnessOperation,
    answers: spec_fn(int, Stage) -> MonitorReply,
    target: int,
)
    requires
        0 <= target < display.targets.len(),
    ensures
        display.requested_through(operation, answers).targets.len() == display.targets.len(),
        display.requested_through(operation, answers).targets[target] == display.targets[target].told(
            crate::laws::displays::instruction(operation),
            about(answers, target),
        ).0,
{
    requests_replace_what_is_pending(display, operation, answers);
    operations_tell_every_monitor(
        DisplayView { pending_operation: Some(operation), ..display },
        operation,
        answers,
    );
}

/// Setting all displays to a percentage sets every monitor that may be talked to
/// to the level nearest to that percentage of its own range: the lowest level for
/// nothing, the highest for all. If the monitor takes that level on, it is not
/// dimmed, and that is the level to return to; if it refuses exactly that level,
/// the failure is counted and the level to return to stays.
pub proof fn setting_all_sets_every_monitor(
    manager: ManagerView,
    brightness: u32,
    windows: Seq<WindowView>,
    answers: spec_fn(int, Errand, int, Stage) -> MonitorReply,
    at: int,
    target: int,
    found: BrightnessReading,
    level: u32,
)
    requires
        manager.countable(),
        job_to_the_point(answers),
        0 <= at < manager.displays.len(),
        0 <= target < manager.displays[at].targets.len(),
        reachable(manager.displays[at].targets[target]),
        answers(at, Errand::Last, target, Stage::Reading) == MonitorReply::Reading(Some(found)),
        stands_for(level as int, found.minimum as int, found.maximum as int, brightness as int),
    ensures
        ({
            let before = manager.displays[at].targets[target];
            let display = ManagerView::carried_through(
                manager.setting_all(brightness, windows),
                answers,
            ).displays[at];
            let taken = answers(at, Errand::Last, target, Stage::Writing { level })
                == MonitorReply::Written(true);
            &&& display.targets.len() == manager.displays[at].targets.len()
            &&& display.targets[target] == (if taken {
                succeeding(
                    TargetView { is_dimmed: false, restore_brightness: Some(level), ..before },
                ).0
            } else {
                failing(before).0
            })
            &&& brightness == 0 ==> level == found.minimum
            &&& brightness >= 100 && found.minimum <= found.maximum ==> level == found.maximum
        }),
{
    setting_asks_every_display(manager, brightness, windows, answers, at);
    let display = manager.displays[at];
    let shows = window_shows(manager.settings, display.bounds, windows);
    let noted = DisplayView {
        last_blocking_window: if shows {
            blocking_caption(manager.settings, display.bounds, windows)
        } else {
            Some("Brightness set to "@ + decimal(brightness as int) + "%"@)
        },
        ..display
    };
    let own = on_errand(for_display(answers, at), Errand::Last);
    lemma_requested_target(
        noted,
        PendingBrightnessOperation::SetLevel { brightness, next_state: lit_by_user(shows) },
        own,
        target,
    );
    assert(to_the_point(about(own, target)));
    setting_comes_to_this(display.targets[target], brightness, about(own, target), level);
    levels_lie_in_the_monitors_range(found, brightness, level);
}

/// Dimming by hand sets every monitor that may be talked to to the level nearest to
/// the percentage for empty displays. If the monitor takes that level on, it is
/// dimmed, and the level that it had is the one to return to, unless one was noted
/// already.
pub proof fn dimming_all_dims_every_monitor(
    manager: ManagerView,
    answers: spec_fn(int, Errand, int, Stage) -> MonitorReply,
    at: int,
    target: int,
    found: BrightnessReading,
    level: u32,
)
    requires
        manager.countable(),
        job_to_the_point(answers),
        0 <= at < manager.displays.len(),
        0 <= target < manager.displays[at].targets.len(),
        reachable(manager.displays[at].targets[target]),
        answers(at, Errand::Last, target, Stage::Reading) == MonitorReply::Reading(Some(found)),
        stands_for(
            level as int,
            found.minimum as int,
            found.maximum as int,
            manager.settings.empty_brightness as int,
        ),
    ensures
        ({
            let before = manager.displays[at].targets[target];
            let display = ManagerView::carried_through(
                manager.dimming_all(),
                answers,
            ).displays[at];
            let noted = TargetView {
                restore_brightness: if before.is_dimmed || before.restore_brightness is Some {
                    before.restore_brightness
                } else {
                    Some(found.current)
                },
                ..before
            };
            let taken = answers(at, Errand::Last, target, Stage::Writing { level })
                == MonitorReply::Written(true);
            &&& display.targets.len() == manager.displays[at].targets.len()
            &&& display.targets[target] == (if taken {
                succeeding(TargetView { is_dimmed: true, ..noted }).0
            } else {
                failing(noted).0
            })
        }),
{
    dimming_by_hand_asks_every_display(manager, answers, at);
    let noted = DisplayView {
        last_blocking_window: Some("Tray icon click"@),
        ..manager.displays[at]
    };
    let brightness = manager.settings.empty_brightness;
    let own = on_errand(for_display(answers, at), Errand::Last);
    lemma_requested_target(
        noted,
        PendingBrightnessOperation::Dim { brightness, next_state: DisplayDimmingState::UserDimmed },
        own,
        target,
    );
    assert(to_the_point(about(own, target)));
    dimming_comes_to_this(
        manager.displays[at].targets[target],
        brightness,
        about(own, target),
        level,
    );
}

/// Restoring by hand sets every dimmed monitor that may be talked to to the level
/// noted for it, and only once the monitor has taken that on does it count as not
/// dimmed.
pub proof fn restoring_all_returns_every_monitor(
    manager: ManagerView,
    windows: Seq<WindowView>,
    answers: spec_fn(int, Errand, int, Stage) -> MonitorReply,
    at: int,
    target: int,
    level: u32,
)
    requires
        manager.countable(),
        job_to_the_point(answers),
        0 <= at < manager.displays.len(),
        0 <= target < manager.displays[at].targets.len(),
        reachable(manager.displays[at].targets[target]),
        manager.displays[at].targets[target].is_dimmed,
        manager.displays[at].targets[target].restore_brightness == Some(level),
    ensures
        ({
            let before = manager.displays[at].targets[target];
            let display = ManagerView::carried_through(
                manager.restoring_from_user(windows),
                answers,
            ).displays[at];
            let taken = answers(at, Errand::Last, target, Stage::Writing { level })
                == MonitorReply::Written(true);
            &&& display.targets.len() == manager.displays[at].targets.len()
            &&& display.targets[target] == (if taken {
                succeeding(TargetView { is_dimmed: false, ..before }).0
            } else {
                failing(before).0
            })
        }),
{
    restoring_by_hand_asks_every_display(manager, windows, answers, at);
    let display = manager.displays[at];
    let shows = window_shows(manager.settings, display.bounds, windows);
    let noted = DisplayView {
        last_blocking_window: if shows {
            blocking_caption(manager.settings, display.bounds, windows)
        } else {
            None
        },
        ..display
    };
    let own = on_errand(for_display(answers, at), Errand::Last);
    lemma_requested_target(
        noted,
        PendingBrightnessOperation::Restore { next_state: lit_by_user(shows) },
        own,
        target,
    );
    assert(to_the_point(about(own, target)));
    restoring_comes_to_this(display.targets[target], about(own, target));
}

/// At shutdown every open monitor that is dimmed is set to the level noted for it,
/// whatever its availability, and only once the monitor has taken that on does it
/// count as not dimmed.
pub proof fn shutting_down_returns_every_monitor(
    manager: ManagerView,
    answers: spec_fn(int, Errand, int, Stage) -> MonitorReply,
    at: int,
    target: int,
    level: u32,
)
    requires
        manager.countable(),
        job_to_the_point(answers),
        0 <= at < manager.displays.len(),
        0 <= target < manager.displays[at].targets.len(),
        !manager.displays[at].targets[target].disposed,
        manager.displays[at].targets[target].is_dimmed,
        manager.displays[at].targets[target].restore_brightness == Some(level),
    ensures
        ({
            let before = manager.displays[at].targets[target];
            let display = ManagerView::carried_through(
                manager.restoring_all(),
                answers,
            ).displays[at];
            let taken = answers(at, Errand::Shutdown, target, Stage::Writing { level })
                == MonitorReply::Written(true);
            &&& display.pending_operation is None
            &&& display.targets.len() == manager.displays[at].targets.len()
            &&& display.targets[target] == (TargetView { is_dimmed: !taken, ..before })
        }),
{
    let conditions = manager.conditions(false);
    shutting_down_visits_every_display(manager, answers, at, conditions);
    shutdown_tells_every_monitor(manager.displays[at], conditions, for_display(answers, at));
    let own = on_errand(for_display(answers, at), Errand::Shutdown);
    assert(to_the_point(about(own, target)));
    restoring_at_shutdown_comes_to_this(manager.displays[at].targets[target], about(own, target));
}

/// What a job that waits asks is asked of the monitor whose target it waits for.
pub proof fn questions_go_to_the_monitor_waited_for(manager: ManagerView, operation: OperationView)
    ensures
        manager.request(operation).stage == operation.at.stage,
        manager.request(operation).monitor
            == manager.displays[operation.display].targets[operation.at.target as int].handle,
{
}

/// The handles that are to be closed for a display are those of its monitors that
/// are still open, each once and in order.
pub proof fn open_monitors_are_closed_once(targets: Seq<TargetView>)
    ensures
        targets.len() == 0 ==> open_handles(targets) == Seq::<isize>::empty(),
        targets.len() > 0 ==> open_handles(targets) == (if targets.last().disposed {
            open_handles(targets.drop_last())
        } else {
            open_handles(targets.drop_last()).push(targets.last().handle)
        }),
{
    let open = |target: TargetView|
        if target.disposed {
            None
        } else {
            Some(target.handle)
        };
    if targets.len() > 0 {
        let last = targets.len() - 1;
        targets.lemma_filter_map_take_succ(open, last);
        assert(targets.take(last + 1) == targets);
        assert(targets.take(last) == targets.drop_last());
        assert(open_handles(targets) =~= targets.filter_map(open));
    } else {
        assert(targets.filter_map(open) =~= Seq::<isize>::empty());
    }
}

/// The handles that are to be closed for all displays are those for each display,
/// one display after the other.
pub proof fn displays_are_closed_one_after_the_other(displays: Seq<DisplayView>)
    ensures
        displays.len() == 0 ==> open_monitors(displays) == Seq::<isize>::empty(),
        displays.len() > 0 ==> open_monitors(displays) == open_monitors(displays.drop_last())
            + open_handles(displays.last().targets),
{
}

} // verus!
