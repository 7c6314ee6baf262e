//! What holds of the library as a whole: of conversations with monitors, of
//! displays and of all displays together.
//!
//! The modules below tell what each operation does, in terms of what goes in and
//! what comes out.

pub mod displays;
pub mod managers;
pub mod memory;
pub mod program;
pub mod search;
pub mod targets;
pub mod texts;
pub mod windows;

use vstd::prelude::*;

use crate::brightness::DisplayDimmingState;
use crate::brightness::PendingBrightnessOperation;
use crate::display::command_of;
use crate::display::some_target;
use crate::display::Conditions;
use crate::display::DisplayStep;
use crate::display::DisplayView;
use crate::display::Errand;
use crate::display::Visit;
use crate::laws::displays::any_reachable;
use crate::laws::displays::targets_are_looked_for_among_the_reachable;
use crate::laws::managers::window_shows;
use crate::laws::windows::displays_are_kept_lit_by_the_first_window_that_shows_enough;
use crate::manager::is_occupied;
use crate::manager::Job;
use crate::manager::ManagerView;
use crate::manager::OperationView;
use crate::outcome::about;
use crate::outcome::all_to_the_point;
use crate::outcome::conversations_keep_the_monitor;
use crate::outcome::for_display;
use crate::outcome::job_to_the_point;
use crate::outcome::jobs_visit_each_display;
use crate::outcome::lemma_told_each;
use crate::outcome::on_errand;
use crate::outcome::to_the_point;
use crate::outcome::told_each;
use crate::snapshot::claimed_names;
use crate::snapshot::distinct_keys;
use crate::snapshot::distinct_names;
use crate::snapshot::reenumeration_preserves_displays;
use crate::snapshot::target_with;
use crate::target::BrightnessReading;
use crate::target::MonitorReply;
use crate::target::Stage;
use crate::target::TargetAvailability;
use crate::target::TargetCommand;
use crate::target::TargetStep;
use crate::target::TargetView;
use crate::tracking::first_blocking;
use crate::tracking::WindowView;

verus! {

impl TargetView {
    /// The target after so many exchanges that failed.
    pub open spec fn missed_times(self, times: nat) -> TargetView
        decreases times,
    {
        if times == 0 {
            self
        } else {
            self.missed_times((times - 1) as nat).missed()
        }
    }
}

/// A target is given up once three exchanges in a row have failed, and not
/// before: an exchange that goes well makes up for those that failed.
pub proof fn repeated_failures_give_a_target_up(target: TargetView, times: nat)
    requires
        times > 0,
    ensures
        target.missed_times(times).availability == (if target.consecutive_failures + times >= 3 {
            TargetAvailability::Unavailable
        } else {
            TargetAvailability::TemporarilyUnavailable
        }),
        target.missed_times(times).same_monitor(target),
        !target.disposed && times < 3 ==> target.reached().missed_times(
            times,
        ).attemptable(),
        times >= 3 ==> !target.reached().missed_times(times).attemptable(),
{
    lemma_missed_times(target, times);
    lemma_missed_times(target.reached(), times);
}

/// Failures are counted up to the largest number that can be counted to.
proof fn lemma_missed_times(target: TargetView, times: nat)
    requires
        times > 0,
    ensures
        target.missed_times(times).same_monitor(target),
        target.missed_times(times).consecutive_failures == (if target.consecutive_failures + times
            < u8::MAX {
            target.consecutive_failures + times
        } else {
            u8::MAX as int
        }),
        target.missed_times(times).availability == (if target.consecutive_failures + times >= 3 {
            TargetAvailability::Unavailable
        } else {
            TargetAvailability::TemporarilyUnavailable
        }),
    decreases times,
{
    reveal_with_fuel(TargetView::missed_times, 2);
    if times > 1 {
        lemma_missed_times(target, (times - 1) as nat);
    }
}

/// The answers of a monitor that tells its brightness as given and takes on
/// every level.
pub open spec fn obliging(answers: spec_fn(Stage) -> MonitorReply, found: BrightnessReading) -> bool {
    &&& to_the_point(answers)
    &&& answers(Stage::Reading) == MonitorReply::Reading(Some(found))
    &&& forall|level: u32|
        #[trigger] answers(Stage::Writing { level }) == MonitorReply::Written(true)
}

/// Dimming a monitor sets it to the percentage of its range, and notes the level
/// it had, unless one is noted already. Restoring asks for exactly the level
/// that is noted, and leaves the target as it was before, but for the level,
/// which stays noted.
pub proof fn restoring_undoes_dimming(
    target: TargetView,
    percent: u32,
    found: BrightnessReading,
    answers: spec_fn(Stage) -> MonitorReply,
)
    requires
        target.attemptable(),
        !target.is_dimmed,
        obliging(answers, found),
    ensures
        ({
            let (dimmed, done) = target.told(TargetCommand::Dim { percent }, answers);
            let level = match target.restore_brightness {
                Some(level) => level,
                None => found.current,
            };
            let noted = TargetView { restore_brightness: Some(level), ..target.reached() };
            &&& done
            &&& dimmed == (TargetView { is_dimmed: true, ..noted })
            &&& target.continued(
                TargetCommand::Dim { percent },
                Stage::Reading,
                answers(Stage::Reading),
            ).1 == (TargetStep::Ask { stage: Stage::Writing { level: found.level(percent) } })
            &&& dimmed.opened(TargetCommand::Restore) == (
                dimmed,
                TargetStep::Ask { stage: Stage::Writing { level } },
            )
            &&& dimmed.told(TargetCommand::Restore, answers) == (noted, true)
        }),
{
    reveal_with_fuel(TargetView::talked_on, 3);
    let dark = found.level(percent);
    assert(answers(Stage::Writing { level: dark }) == MonitorReply::Written(true));
    let level = match target.restore_brightness {
        Some(level) => level,
        None => found.current,
    };
    assert(answers(Stage::Writing { level }) == MonitorReply::Written(true));
}

/// The level to return to, once noted, is lost neither by dimming again nor by
/// restoring, whatever the monitor answers.
pub proof fn the_noted_level_is_kept(
    target: TargetView,
    command: TargetCommand,
    answers: spec_fn(Stage) -> MonitorReply,
)
    requires
        target.restore_brightness is Some,
        !(command is SetLevel),
    ensures
        target.told(command, answers).0.restore_brightness == target.restore_brightness,
{
    reveal_with_fuel(TargetView::talked_on, 3);
}

/// A brightness that the user picks becomes the level to return to.
pub proof fn a_picked_level_is_returned_to(
    target: TargetView,
    percent: u32,
    found: BrightnessReading,
    answers: spec_fn(Stage) -> MonitorReply,
)
    requires
        target.attemptable(),
        obliging(answers, found),
    ensures
        target.told(TargetCommand::SetLevel { percent }, answers) == (
            TargetView {
                restore_brightness: Some(found.level(percent)),
                is_dimmed: false,
                ..target.reached()
            },
            true,
        ),
{
    reveal_with_fuel(TargetView::talked_on, 3);
    let level = found.level(percent);
    assert(answers(Stage::Writing { level }) == MonitorReply::Written(true));
}

/// What a command is settled for, is done: the target is dimmed, or is not,
/// unless it may not be talked to. Where a command is not settled, another
/// attempt may be made.
pub proof fn settled_means_done(
    target: TargetView,
    command: TargetCommand,
    answers: spec_fn(Stage) -> MonitorReply,
)
    requires
        !target.disposed,
        command is Dim || command is Restore || command is SetLevel,
        to_the_point(answers),
    ensures
        ({
            let (told, settled) = target.told(command, answers);
            &&& settled ==> told.is_dimmed == (command is Dim) || !told.attemptable()
            &&& !settled ==> told.attemptable()
        }),
{
    reveal_with_fuel(TargetView::talked_on, 3);
    assert(answers(Stage::Reading).answers(Stage::Reading));
    if let MonitorReply::Reading(Some(found)) = answers(Stage::Reading) {
        let percent = match command {
            TargetCommand::Dim { percent } => percent,
            TargetCommand::SetLevel { percent } => percent,
            _ => 0,
        };
        let stage = Stage::Writing { level: found.level(percent) };
        assert(answers(stage).answers(stage));
    }
    if let Some(level) = target.restore_brightness {
        let stage = Stage::Writing { level };
        assert(answers(stage).answers(stage));
    }
}

/// The answers of monitors that tell their brightness and take on every level.
pub open spec fn willing(answers: spec_fn(int, Stage) -> MonitorReply) -> bool {
    &&& all_to_the_point(answers)
    &&& forall|target: int| (#[trigger] answers(target, Stage::Reading))->Reading_0 is Some
    &&& forall|target: int, level: u32|
        #[trigger] answers(target, Stage::Writing { level }) == MonitorReply::Written(true)
}

/// The answers, in a visit, of monitors that tell their brightness and take on
/// every level.
pub open spec fn visit_willing(answers: spec_fn(Errand, int, Stage) -> MonitorReply) -> bool {
    forall|errand: Errand| #[trigger] willing(on_errand(answers, errand))
}

impl DisplayView {
    /// None of the display's targets has been given up for good.
    pub open spec fn live(self) -> bool {
        forall|i: int| 0 <= i < self.targets.len() ==> !(#[trigger] self.targets[i]).disposed
    }

    /// The same display, shown by the same monitors.
    pub open spec fn same_display(self, other: DisplayView) -> bool {
        &&& self.device_name == other.device_name
        &&& self.bounds == other.bounds
        &&& self.last_blocking_window == other.last_blocking_window
        &&& self.targets.len() == other.targets.len()
        &&& forall|i: int|
            0 <= i < self.targets.len() ==> (#[trigger] self.targets[i]).same_monitor(
                other.targets[i],
            )
    }

    /// All targets that may be talked to are dimmed, and nothing is pending.
    pub open spec fn dark(self, state: DisplayDimmingState) -> bool {
        &&& self.dimming_state == state
        &&& self.pending_operation is None
        &&& !any_reachable(self.targets, false)
    }

    /// No target that may be talked to is dimmed, and nothing is pending.
    pub open spec fn bright(self, state: DisplayDimmingState) -> bool {
        &&& self.dimming_state == state
        &&& self.pending_operation is None
        &&& !any_reachable(self.targets, true)
    }
}

/// Targets told a command stay the same monitors.
proof fn lemma_told_each_keeps(
    targets: Seq<TargetView>,
    command: TargetCommand,
    answers: spec_fn(int, Stage) -> MonitorReply,
)
    ensures
        ({
            let (told, _) = told_each(targets, command, 0, true, answers);
            &&& told.len() == targets.len()
            &&& forall|i: int|
                0 <= i < targets.len() ==> (#[trigger] told[i]).same_monitor(targets[i])
        }),
{
    lemma_told_each(targets, command, 0, true, answers);
    let (told, _) = told_each(targets, command, 0, true, answers);
    assert forall|i: int| 0 <= i < targets.len() implies (#[trigger] told[i]).same_monitor(
        targets[i],
    ) by {
        conversations_keep_the_monitor(targets[i], command, about(answers, i));
    }
}

/// Carrying out what is pending on a display leaves it the same display.
proof fn lemma_applied_keeps(display: DisplayView, answers: spec_fn(int, Stage) -> MonitorReply)
    ensures
        display.applied_through(answers).0.same_display(display),
{
    if let Some(operation) = display.pending_operation {
        lemma_told_each_keeps(display.targets, command_of(operation), answers);
    }
}

/// Whatever a visit does and whatever the monitors answer, the display stays
/// the same one, under the same name and at the same place, shown by the same
/// monitors.
pub proof fn visits_keep_the_display(
    display: DisplayView,
    visit: Visit,
    conditions: Conditions,
    answers: spec_fn(Errand, int, Stage) -> MonitorReply,
)
    ensures
        display.visited_through(visit, conditions, answers).same_display(display),
{
    let last = on_errand(answers, Errand::Last);
    match visit {
        Visit::Update => {
            match display.pending_operation {
                None => {
                    if let Some(operation) = display.wanted(conditions) {
                        lemma_applied_keeps(
                            DisplayView { pending_operation: Some(operation), ..display },
                            last,
                        );
                    }
                },
                Some(operation) => {
                    let revised = DisplayView {
                        pending_operation: Some(DisplayView::revised(operation, conditions)),
                        ..display
                    };
                    let pending = on_errand(answers, Errand::Pending);
                    lemma_applied_keeps(revised, pending);
                    let (applied, _) = revised.applied_through(pending);
                    if let Some(wanted) = applied.wanted(conditions) {
                        lemma_applied_keeps(
                            DisplayView { pending_operation: Some(wanted), ..applied },
                            last,
                        );
                    }
                },
            }
        },
        Visit::Request { operation } => {
            lemma_applied_keeps(
                DisplayView { pending_operation: Some(operation), ..display },
                last,
            );
        },
        Visit::Shutdown => {
            lemma_told_each_keeps(
                display.targets,
                TargetCommand::RestoreForShutdown,
                on_errand(answers, Errand::Shutdown),
            );
        },
    }
}

/// An operation that has failed on some target stays pending, and the state of
/// the display stays what it was. One that has been done on all targets is no
/// longer pending, and has led to the state that it leads to.
pub proof fn failed_operations_stay_pending(
    display: DisplayView,
    operation: PendingBrightnessOperation,
    answers: spec_fn(int, Stage) -> MonitorReply,
)
    requires
        display.pending_operation == Some(operation),
    ensures
        ({
            let (applied, done) = display.applied_through(answers);
            &&& done <==> forall|i: int|
                0 <= i < display.targets.len() ==> (#[trigger] display.targets[i]).told(
                    command_of(operation),
                    about(answers, i),
                ).1
            &&& done ==> applied.pending_operation is None && applied.dimming_state
                == operation.leads_to()
            &&& !done ==> applied.pending_operation == Some(operation) && applied.dimming_state
                == display.dimming_state
        }),
{
    lemma_told_each(display.targets, command_of(operation), 0, true, answers);
}

/// What is asked for on a display that has monitors is done, or stays pending,
/// whatever was pending before and whatever the monitors answer.
pub proof fn requests_are_done_or_stay_pending(
    display: DisplayView,
    operation: PendingBrightnessOperation,
    answers: spec_fn(int, Stage) -> MonitorReply,
)
    requires
        display.targets.len() > 0,
    ensures
        ({
            let requested = display.requested_through(operation, answers);
            ||| requested.pending_operation is None && requested.dimming_state
                == operation.leads_to()
            ||| requested.pending_operation == Some(operation) && requested.dimming_state
                == display.dimming_state
        }),
{
}

/// A display without monitors is lit, with nothing pending, after an update or
/// a request.
pub proof fn displays_without_monitors_are_lit(
    display: DisplayView,
    visit: Visit,
    conditions: Conditions,
    answers: spec_fn(Errand, int, Stage) -> MonitorReply,
)
    requires
        display.targets.len() == 0,
        !(visit is Shutdown),
    ensures
        display.visited_through(visit, conditions, answers).bright(DisplayDimmingState::Lit),
{
}

/// A willing monitor does as it is told.
proof fn lemma_willing_target(
    target: TargetView,
    command: TargetCommand,
    answers: spec_fn(int, Stage) -> MonitorReply,
    at: int,
)
    requires
        !target.disposed,
        command is Dim || command is Restore || command is SetLevel,
        willing(answers),
    ensures
        target.told(command, about(answers, at)).1,
        target.told(command, about(answers, at)).0.attemptable() == target.attemptable(),
        target.attemptable() ==> target.told(command, about(answers, at)).0.is_dimmed == (
        command is Dim),
{
    reveal_with_fuel(TargetView::talked_on, 3);
    assert(answers(at, Stage::Reading).answers(Stage::Reading));
    let found = answers(at, Stage::Reading)->Reading_0->0;
    assert(answers(at, Stage::Reading) == MonitorReply::Reading(Some(found)));
    let percent = match command {
        TargetCommand::Dim { percent } => percent,
        TargetCommand::SetLevel { percent } => percent,
        _ => 0,
    };
    let level = found.level(percent);
    assert(answers(at, Stage::Writing { level }) == MonitorReply::Written(true));
    if let Some(level) = target.restore_brightness {
        assert(answers(at, Stage::Writing { level }) == MonitorReply::Written(true));
    }
}

/// Willing monitors do as they are told, all of them.
proof fn lemma_willing_display(display: DisplayView, answers: spec_fn(int, Stage) -> MonitorReply)
    requires
        display.pending_operation is Some,
        display.live(),
        willing(answers),
    ensures
        ({
            let operation = display.pending_operation->0;
            let (applied, done) = display.applied_through(answers);
            &&& done
            &&& applied.pending_operation is None
            &&& applied.dimming_state == operation.leads_to()
            &&& applied.live()
            &&& applied.targets.len() == display.targets.len()
            &&& !some_target(applied.targets, !(operation is Dim))
        }),
{
    let operation = display.pending_operation->0;
    let command = command_of(operation);
    lemma_told_each(display.targets, command, 0, true, answers);
    lemma_told_each_keeps(display.targets, command, answers);
    let (told, done) = told_each(display.targets, command, 0, true, answers);
    assert forall|i: int| 0 <= i < display.targets.len() implies ({
        &&& (#[trigger] display.targets[i]).told(command, about(answers, i)).1
        &&& told[i].attemptable() ==> told[i].is_dimmed == (operation is Dim)
    }) by {
        lemma_willing_target(display.targets[i], command, answers, i);
        assert(told[i] == display.targets[i].told(command, about(answers, i)).0);
    }
    assert forall|i: int| 0 <= i < told.len() implies !(#[trigger] told[i]).disposed by {
        assert(told[i].same_monitor(display.targets[i]));
    }
    assert(!some_target(told, !(operation is Dim))) by {
        assert forall|i: int| 0 <= i < told.len() && (#[trigger] told[i]).attemptable() implies
            told[i].is_dimmed == (operation is Dim) by {
            assert(display.targets[i].told(command, about(answers, i)).1);
        }
    }
}

/// Willing monitors do what is wanted of a display.
proof fn lemma_willing_settling(
    display: DisplayView,
    conditions: Conditions,
    answers: spec_fn(int, Stage) -> MonitorReply,
)
    requires
        display.live(),
        display.targets.len() > 0,
        display.pending_operation is None,
        willing(answers),
    ensures
        ({
            let settled = display.settled_through(conditions, answers);
            match display.wanted(conditions) {
                Some(operation) => {
                    &&& settled.pending_operation is None
                    &&& settled.dimming_state == operation.leads_to()
                    &&& settled.targets.len() == display.targets.len()
                    &&& !some_target(settled.targets, !(operation is Dim))
                },
                None => settled == (DisplayView {
                    dimming_state: display.relabelled(conditions),
                    ..display
                }),
            }
        }),
{
    if let Some(operation) = display.wanted(conditions) {
        lemma_willing_display(
            DisplayView { pending_operation: Some(operation), ..display },
            answers,
        );
    }
}

/// What was pending on a display, as it is to be now, is done by willing
/// monitors.
proof fn lemma_willing_update(
    display: DisplayView,
    conditions: Conditions,
    answers: spec_fn(Errand, int, Stage) -> MonitorReply,
)
    requires
        display.live(),
        display.targets.len() > 0,
        display.pending_operation is Some,
        visit_willing(answers),
    ensures
        ({
            let operation = DisplayView::revised(display.pending_operation->0, conditions);
            let (applied, done) = (DisplayView {
                pending_operation: Some(operation),
                ..display
            }).applied_through(on_errand(answers, Errand::Pending));
            &&& done
            &&& applied.live()
            &&& applied.targets.len() == display.targets.len()
            &&& applied.pending_operation is None
            &&& applied.dimming_state == operation.leads_to()
            &&& !some_target(applied.targets, !(operation is Dim))
            &&& display.updated_through(conditions, answers) == applied.settled_through(
                conditions,
                on_errand(answers, Errand::Last),
            )
        }),
{
    let operation = DisplayView::revised(display.pending_operation->0, conditions);
    assert(willing(on_errand(answers, Errand::Pending)));
    lemma_willing_display(
        DisplayView { pending_operation: Some(operation), ..display },
        on_errand(answers, Errand::Pending),
    );
}

/// The display as it is when an update comes to the conditions, what was
/// pending being done.
spec fn cleared(
    display: DisplayView,
    conditions: Conditions,
    answers: spec_fn(Errand, int, Stage) -> MonitorReply,
) -> DisplayView {
    match display.pending_operation {
        None => display,
        Some(operation) => (DisplayView {
            pending_operation: Some(DisplayView::revised(operation, conditions)),
            ..display
        }).applied_through(on_errand(answers, Errand::Pending)).0,
    }
}

/// An update with willing monitors comes to the conditions, and does what is
/// wanted then.
proof fn lemma_willing(
    display: DisplayView,
    conditions: Conditions,
    answers: spec_fn(Errand, int, Stage) -> MonitorReply,
)
    requires
        display.live(),
        display.targets.len() > 0,
        visit_willing(answers),
    ensures
        ({
            let now = cleared(display, conditions, answers);
            let updated = display.updated_through(conditions, answers);
            &&& now.pending_operation is None
            &&& now.targets.len() == display.targets.len()
            &&& display.pending_operation matches Some(operation) ==> now.dimming_state
                == DisplayView::revised(operation, conditions).leads_to() && !some_target(
                now.targets,
                !(DisplayView::revised(operation, conditions) is Dim),
            )
            &&& match now.wanted(conditions) {
                Some(operation) => {
                    &&& updated.pending_operation is None
                    &&& updated.dimming_state == operation.leads_to()
                    &&& updated.targets.len() == display.targets.len()
                    &&& !some_target(updated.targets, !(operation is Dim))
                },
                None => updated == (DisplayView {
                    dimming_state: now.relabelled(conditions),
                    ..now
                }),
            }
        }),
{
    assert(willing(on_errand(answers, Errand::Last)));
    if display.pending_operation is Some {
        lemma_willing_update(display, conditions, answers);
    }
    lemma_willing_settling(
        cleared(display, conditions, answers),
        conditions,
        on_errand(answers, Errand::Last),
    );
}

/// Looking for a target finds one among the reachable ones.
proof fn lemma_reachable_targets(targets: Seq<TargetView>)
    ensures
        some_target(targets, true) == any_reachable(targets, true),
        some_target(targets, false) == any_reachable(targets, false),
{
    targets_are_looked_for_among_the_reachable(targets, true);
    targets_are_looked_for_among_the_reachable(targets, false);
}

/// While the user dims by hand, an update with willing monitors leaves every
/// display dark, whatever is on it and whatever was pending. The next update
/// leaves it alone.
pub proof fn dimming_by_hand_darkens_every_display(
    display: DisplayView,
    conditions: Conditions,
    answers: spec_fn(Errand, int, Stage) -> MonitorReply,
)
    requires
        conditions.manual_dimming,
        display.live(),
        display.targets.len() > 0,
        visit_willing(answers),
    ensures
        ({
            let updated = display.updated_through(conditions, answers);
            &&& updated.dark(DisplayDimmingState::UserDimmed)
            &&& updated.updated(conditions) == (updated, DisplayStep::Finished)
        }),
{
    lemma_willing(display, conditions, answers);
    lemma_reachable_targets(display.targets);
    lemma_reachable_targets(display.updated_through(conditions, answers).targets);
}

impl DisplayView {
    /// The user has lit the display while it was empty, or has asked for that.
    pub open spec fn lit_by_hand(self) -> bool {
        match self.pending_operation {
            None => self.dimming_state is UserRestoredWhileEmpty,
            Some(operation) => operation is SetLevel || (operation is Restore
                && operation.leads_to() is UserRestoredWhileEmpty),
        }
    }

    /// The user has dimmed the display and left it dark, or has asked for that.
    pub open spec fn left_dark(self) -> bool {
        match self.pending_operation {
            None => self.dimming_state is UserDimmed && !any_reachable(self.targets, false),
            Some(operation) => operation is Dim && operation.leads_to() is UserDimmed,
        }
    }

    /// The display is, or is about to be, lit or dimmed because of what is on
    /// it.
    pub open spec fn led_by_windows(self) -> bool {
        match self.pending_operation {
            None => self.dimming_state is Lit || self.dimming_state is AutoDimmed,
            Some(operation) => !(operation is SetLevel) && (operation.leads_to() is Lit
                || operation.leads_to() is AutoDimmed),
        }
    }
}

/// A display that is empty goes dark with an update of willing monitors, or
/// stays dark if the user has left it so. The next update leaves it alone.
pub proof fn empty_displays_go_dark(
    display: DisplayView,
    conditions: Conditions,
    answers: spec_fn(Errand, int, Stage) -> MonitorReply,
)
    requires
        !conditions.manual_dimming,
        !conditions.has_window,
        display.led_by_windows() || display.left_dark(),
        display.live(),
        display.targets.len() > 0,
        visit_willing(answers),
    ensures
        ({
            let updated = display.updated_through(conditions, answers);
            &&& updated.dark(DisplayDimmingState::AutoDimmed)
            &&& updated.updated(conditions) == (updated, DisplayStep::Finished)
        }),
{
    lemma_willing(display, conditions, answers);
    lemma_reachable_targets(display.targets);
    lemma_reachable_targets(display.updated_through(conditions, answers).targets);
}

/// A display on which a window shows is lit by an update of willing monitors,
/// be it that it was dimmed for being empty or lit by hand. The next update
/// leaves it alone.
pub proof fn windows_light_a_display(
    display: DisplayView,
    conditions: Conditions,
    answers: spec_fn(Errand, int, Stage) -> MonitorReply,
)
    requires
        !conditions.manual_dimming,
        conditions.has_window,
        display.led_by_windows() || display.lit_by_hand(),
        display.pending_operation is None && display.lit_by_hand() ==> !any_reachable(
            display.targets,
            true,
        ),
        display.live(),
        display.targets.len() > 0,
        visit_willing(answers),
    ensures
        ({
            let updated = display.updated_through(conditions, answers);
            &&& updated.bright(DisplayDimmingState::Lit)
            &&& updated.updated(conditions) == (updated, DisplayStep::Finished)
        }),
{
    lemma_willing(display, conditions, answers);
    lemma_reachable_targets(display.targets);
    lemma_reachable_targets(display.updated_through(conditions, answers).targets);
}

/// A display that the user has lit while it was empty stays lit while it is
/// empty. The next update leaves it alone.
pub proof fn what_the_user_lights_stays_lit(
    display: DisplayView,
    conditions: Conditions,
    answers: spec_fn(Errand, int, Stage) -> MonitorReply,
)
    requires
        !conditions.manual_dimming,
        !conditions.has_window,
        display.lit_by_hand(),
        display.live(),
        display.targets.len() > 0,
        visit_willing(answers),
    ensures
        ({
            let updated = display.updated_through(conditions, answers);
            &&& updated.bright(DisplayDimmingState::UserRestoredWhileEmpty)
            &&& updated.updated(conditions) == (updated, DisplayStep::Finished)
        }),
{
    lemma_willing(display, conditions, answers);
    lemma_reachable_targets(display.targets);
    lemma_reachable_targets(display.updated_through(conditions, answers).targets);
}

impl TargetView {
    /// If the monitor is dimmed, the level to return to is noted.
    pub open spec fn can_return(self) -> bool {
        self.is_dimmed ==> self.restore_brightness is Some
    }
}

impl DisplayView {
    /// For each monitor that is dimmed, the level to return to is noted.
    pub open spec fn can_return(self) -> bool {
        forall|i: int| 0 <= i < self.targets.len() ==> (#[trigger] self.targets[i]).can_return()
    }
}

/// A monitor is never dimmed without the level to return to being noted,
/// whatever it is told and whatever it answers.
pub proof fn dimmed_monitors_can_return(
    target: TargetView,
    command: TargetCommand,
    answers: spec_fn(Stage) -> MonitorReply,
)
    requires
        target.can_return(),
    ensures
        target.told(command, answers).0.can_return(),
{
    reveal_with_fuel(TargetView::talked_on, 3);
}

/// Targets told a command can return if they could before.
proof fn lemma_told_each_can_return(
    targets: Seq<TargetView>,
    command: TargetCommand,
    answers: spec_fn(int, Stage) -> MonitorReply,
)
    requires
        forall|i: int| 0 <= i < targets.len() ==> (#[trigger] targets[i]).can_return(),
    ensures
        ({
            let (told, _) = told_each(targets, command, 0, true, answers);
            forall|i: int| 0 <= i < told.len() ==> (#[trigger] told[i]).can_return()
        }),
{
    lemma_told_each(targets, command, 0, true, answers);
    let (told, _) = told_each(targets, command, 0, true, answers);
    assert forall|i: int| 0 <= i < told.len() implies (#[trigger] told[i]).can_return() by {
        assert(targets[i].can_return());
        dimmed_monitors_can_return(targets[i], command, about(answers, i));
    }
}

/// Carrying out what is pending leaves monitors that can return.
proof fn lemma_applied_can_return(
    display: DisplayView,
    answers: spec_fn(int, Stage) -> MonitorReply,
)
    requires
        display.can_return(),
    ensures
        display.applied_through(answers).0.can_return(),
{
    if let Some(operation) = display.pending_operation {
        lemma_told_each_can_return(display.targets, command_of(operation), answers);
    }
}

/// No visit leaves a monitor dimmed without the level to return to being noted.
pub proof fn visits_keep_the_way_back(
    display: DisplayView,
    visit: Visit,
    conditions: Conditions,
    answers: spec_fn(Errand, int, Stage) -> MonitorReply,
)
    requires
        display.can_return(),
    ensures
        display.visited_through(visit, conditions, answers).can_return(),
{
    let last = on_errand(answers, Errand::Last);
    match visit {
        Visit::Update => {
            match display.pending_operation {
                None => {
                    if let Some(operation) = display.wanted(conditions) {
                        lemma_applied_can_return(
                            DisplayView { pending_operation: Some(operation), ..display },
                            last,
                        );
                    }
                },
                Some(operation) => {
                    let revised = DisplayView {
                        pending_operation: Some(DisplayView::revised(operation, conditions)),
                        ..display
                    };
                    let pending = on_errand(answers, Errand::Pending);
                    lemma_applied_can_return(revised, pending);
                    let (applied, _) = revised.applied_through(pending);
                    if let Some(wanted) = applied.wanted(conditions) {
                        lemma_applied_can_return(
                            DisplayView { pending_operation: Some(wanted), ..applied },
                            last,
                        );
                    }
                },
            }
        },
        Visit::Request { operation } => {
            lemma_applied_can_return(
                DisplayView { pending_operation: Some(operation), ..display },
                last,
            );
        },
        Visit::Shutdown => {
            lemma_told_each_can_return(
                display.targets,
                TargetCommand::RestoreForShutdown,
                on_errand(answers, Errand::Shutdown),
            );
        },
    }
}

/// At shutdown nothing stays pending. Where the monitors are willing, each that
/// is dimmed is returned to the level noted for it, one that was given up too,
/// and the display is lit.
pub proof fn shutting_down_lights_every_monitor(
    display: DisplayView,
    answers: spec_fn(int, Stage) -> MonitorReply,
)
    requires
        display.live(),
        display.can_return(),
        willing(answers),
    ensures
        ({
            let shut_down = display.shut_down_through(answers);
            &&& shut_down.pending_operation is None
            &&& shut_down.dimming_state is Lit
            &&& shut_down.targets.len() == display.targets.len()
            &&& forall|i: int|
                0 <= i < display.targets.len() ==> #[trigger] shut_down.targets[i] == (TargetView {
                    is_dimmed: false,
                    ..display.targets[i]
                })
            &&& forall|i: int|
                0 <= i < display.targets.len() && (#[trigger] display.targets[i]).is_dimmed
                    ==> display.targets[i].opened(TargetCommand::RestoreForShutdown).1 == (
                TargetStep::Ask {
                    stage: Stage::Writing { level: display.targets[i].restore_brightness->0 },
                })
        }),
{
    let command = TargetCommand::RestoreForShutdown;
    lemma_told_each(display.targets, command, 0, true, answers);
    let (told, done) = told_each(display.targets, command, 0, true, answers);
    assert forall|i: int| 0 <= i < display.targets.len() implies (#[trigger] display.targets[i]).told(
        command,
        about(answers, i),
    ) == (TargetView { is_dimmed: false, ..display.targets[i] }, true) by {
        reveal_with_fuel(TargetView::talked_on, 3);
        let target = display.targets[i];
        assert(!target.disposed && target.can_return());
        if let Some(level) = target.restore_brightness {
            assert(answers(i, Stage::Writing { level }) == MonitorReply::Written(true));
        }
    }
    assert forall|i: int| 0 <= i < display.targets.len() implies #[trigger] told[i] == (TargetView {
        is_dimmed: false,
        ..display.targets[i]
    }) by {
        assert(display.targets[i].told(command, about(answers, i)).1);
    }
}

impl ManagerView {
    /// What a job that was begun comes to.
    pub open spec fn carried_through(
        begun: (ManagerView, Option<OperationView>),
        answers: spec_fn(int, Errand, int, Stage) -> MonitorReply,
    ) -> ManagerView {
        begun.0.advanced_through(begun.1, answers)
    }
}

/// Whether the user dims by hand follows what the user has asked for, even
/// where the monitors fail, and nothing else changes it.
pub proof fn manual_dimming_follows_the_user(
    manager: ManagerView,
    windows: Seq<WindowView>,
    brightness: u32,
    answers: spec_fn(int, Errand, int, Stage) -> MonitorReply,
)
    requires
        manager.countable(),
        job_to_the_point(answers),
    ensures
        ManagerView::carried_through(manager.dimming_all(), answers).manual_dimming_enabled,
        !ManagerView::carried_through(
            manager.restoring_from_user(windows),
            answers,
        ).manual_dimming_enabled,
        !ManagerView::carried_through(
            manager.setting_all(brightness, windows),
            answers,
        ).manual_dimming_enabled,
        ManagerView::carried_through(manager.updating(windows), answers).manual_dimming_enabled
            == manager.manual_dimming_enabled,
        ManagerView::carried_through(manager.restoring_all(), answers).manual_dimming_enabled
            == manager.manual_dimming_enabled,
{
    let by_hand = ManagerView { manual_dimming_enabled: false, ..manager };
    let note = Some(crate::manager::brightness_note(brightness));
    let dimming = ManagerView {
        manual_dimming_enabled: true,
        displays: manager.displays.map_values(
            |display: DisplayView|
                DisplayView { last_blocking_window: Some("Tray icon click"@), ..display },
        ),
        ..manager
    };
    lemma_same_targets_count(manager, dimming);
    lemma_same_targets_count(manager, by_hand.noted(windows, None));
    lemma_same_targets_count(manager, by_hand.noted(windows, note));
    lemma_same_targets_count(manager, manager.noted(windows, None));
    let survey = manager.survey(windows);
    jobs_visit_each_display(dimming, Job::DimAll, Seq::empty(), answers);
    jobs_visit_each_display(
        by_hand.noted(windows, None),
        Job::RestoreAllFromUser,
        survey,
        answers,
    );
    jobs_visit_each_display(
        by_hand.noted(windows, note),
        Job::SetAll { brightness },
        survey,
        answers,
    );
    jobs_visit_each_display(manager.noted(windows, None), Job::Update, survey, answers);
    jobs_visit_each_display(manager, Job::RestoreAll, Seq::empty(), answers);
}

/// Displays with the same targets have no more of them than can be counted.
pub(crate) proof fn lemma_same_targets_count(manager: ManagerView, other: ManagerView)
    requires
        manager.countable(),
        other.displays.len() == manager.displays.len(),
        forall|i: int|
            0 <= i < manager.displays.len() ==> (#[trigger] other.displays[i]).targets
                == manager.displays[i].targets,
    ensures
        other.countable(),
{
    assert forall|i: int| 0 <= i < other.displays.len() implies (#[trigger] other.displays[i]).targets.len()
        <= usize::MAX by {
        assert(other.displays[i].targets == manager.displays[i].targets);
        assert(manager.displays[i].targets.len() <= usize::MAX);
    }
}

/// What an update makes of a display.
proof fn lemma_update_of_display(
    manager: ManagerView,
    windows: Seq<WindowView>,
    answers: spec_fn(int, Errand, int, Stage) -> MonitorReply,
    at: int,
)
    requires
        manager.countable(),
        job_to_the_point(answers),
        0 <= at < manager.displays.len(),
    ensures
        ({
            let updated = ManagerView::carried_through(manager.updating(windows), answers);
            let display = manager.noted(windows, None).displays[at];
            let has_window = first_blocking(
                manager.settings,
                manager.displays[at].bounds,
                windows,
            ) is Some;
            &&& updated.displays.len() == manager.displays.len()
            &&& updated.displays[at] == display.updated_through(
                manager.conditions(has_window),
                for_display(answers, at),
            )
        }),
{
    let noted = manager.noted(windows, None);
    lemma_same_targets_count(manager, noted);
    let survey = manager.survey(windows);
    jobs_visit_each_display(noted, Job::Update, survey, answers);
    let has_window = first_blocking(
        manager.settings,
        manager.displays[at].bounds,
        windows,
    ) is Some;
    assert(is_occupied(survey, at) == has_window);
    assert(noted.conditions(has_window) == manager.conditions(has_window));
}

/// The answers, in a job, of monitors that tell their brightness and take on
/// every level.
pub open spec fn job_willing(answers: spec_fn(int, Errand, int, Stage) -> MonitorReply) -> bool {
    &&& job_to_the_point(answers)
    &&& forall|display: int| #[trigger] visit_willing(for_display(answers, display))
}

/// With willing monitors an update darkens the displays that are empty and
/// lights those of which a window covers enough. Those that the user has lit by
/// hand while they were empty stay lit; while the user dims by hand, all are
/// dark.
pub proof fn updates_follow_the_windows(
    manager: ManagerView,
    windows: Seq<WindowView>,
    answers: spec_fn(int, Errand, int, Stage) -> MonitorReply,
    at: int,
)
    requires
        manager.countable(),
        job_willing(answers),
        0 <= at < manager.displays.len(),
        manager.displays[at].live(),
        manager.displays[at].targets.len() > 0,
    ensures
        ({
            let display = manager.displays[at];
            let updated = ManagerView::carried_through(manager.updating(windows), answers).displays[at];
            let has_window = window_shows(manager.settings, display.bounds, windows);
            let stays_lit = display.lit_by_hand() && (display.pending_operation is Some
                || !any_reachable(display.targets, true));
            if manager.manual_dimming_enabled {
                updated.dark(DisplayDimmingState::UserDimmed)
            } else if has_window {
                display.led_by_windows() || stays_lit ==> updated.bright(DisplayDimmingState::Lit)
            } else {
                &&& display.led_by_windows() || display.left_dark() ==> updated.dark(
                    DisplayDimmingState::AutoDimmed,
                )
                &&& display.lit_by_hand() ==> updated.bright(
                    DisplayDimmingState::UserRestoredWhileEmpty,
                )
            }
        }),
{
    lemma_update_of_display(manager, windows, answers, at);
    displays_are_kept_lit_by_the_first_window_that_shows_enough(
        manager.settings,
        manager.displays[at].bounds,
        windows,
    );
    let has_window = first_blocking(
        manager.settings,
        manager.displays[at].bounds,
        windows,
    ) is Some;
    let display = manager.noted(windows, None).displays[at];
    assert(display.targets == manager.displays[at].targets);
    assert(display.live()) by {
        assert(forall|i: int|
            0 <= i < display.targets.len() ==> #[trigger] display.targets[i]
                == manager.displays[at].targets[i]);
    }
    let conditions = manager.conditions(has_window);
    let own = for_display(answers, at);
    assert(visit_willing(own));
    if conditions.manual_dimming {
        dimming_by_hand_darkens_every_display(display, conditions, own);
    } else if has_window {
        if display.led_by_windows() || (display.lit_by_hand() && (display.pending_operation is Some
            || !any_reachable(display.targets, true))) {
            windows_light_a_display(display, conditions, own);
        }
    } else {
        if display.led_by_windows() || display.left_dark() {
            empty_displays_go_dark(display, conditions, own);
        }
        if display.lit_by_hand() {
            what_the_user_lights_stays_lit(display, conditions, own);
        }
    }
}

/// What the user asks for is, on each display that has monitors, done or stays
/// pending, whatever was pending before and whatever the monitors answer.
pub proof fn what_the_user_asks_for_is_not_forgotten(
    manager: ManagerView,
    job: Job,
    occupied: Seq<bool>,
    answers: spec_fn(int, Errand, int, Stage) -> MonitorReply,
    at: int,
    operation: PendingBrightnessOperation,
)
    requires
        manager.countable(),
        job_to_the_point(answers),
        0 <= at < manager.displays.len(),
        manager.displays[at].targets.len() > 0,
        job.visit(manager.settings.empty_brightness, is_occupied(occupied, at))
            == (Visit::Request { operation }),
    ensures
        ({
            let display = ManagerView::carried_through(
                manager.advanced(job, occupied, 0),
                answers,
            ).displays[at];
            ||| display.pending_operation is None && display.dimming_state == operation.leads_to()
            ||| display.pending_operation == Some(operation)
        }),
{
    jobs_visit_each_display(manager, job, occupied, answers);
    requests_are_done_or_stay_pending(
        manager.displays[at],
        operation,
        on_errand(for_display(answers, at), Errand::Last),
    );
}

impl DisplayView {
    /// Every level that is noted on the earlier display is noted on this one.
    pub open spec fn keeps_levels_of(self, earlier: DisplayView) -> bool {
        &&& self.targets.len() == earlier.targets.len()
        &&& forall|i: int|
            0 <= i < self.targets.len() && earlier.targets[i].restore_brightness is Some ==> (
            #[trigger] self.targets[i]).restore_brightness == earlier.targets[i].restore_brightness
    }
}

/// Carrying out what is pending keeps the levels that are noted, unless the
/// user has picked another one.
proof fn lemma_applied_keeps_levels(
    display: DisplayView,
    answers: spec_fn(int, Stage) -> MonitorReply,
)
    requires
        !(display.pending_operation matches Some(operation) && operation is SetLevel),
    ensures
        display.applied_through(answers).0.keeps_levels_of(display),
{
    if let Some(operation) = display.pending_operation {
        let command = command_of(operation);
        lemma_told_each(display.targets, command, 0, true, answers);
        let (told, _) = told_each(display.targets, command, 0, true, answers);
        assert forall|i: int|
            0 <= i < told.len() && display.targets[i].restore_brightness is Some implies (
        #[trigger] told[i]).restore_brightness == display.targets[i].restore_brightness by {
            the_noted_level_is_kept(display.targets[i], command, about(answers, i));
        }
    }
}

/// An update keeps the levels to return to, whatever the monitors answer,
/// unless the user has picked another one.
pub proof fn updates_keep_noted_levels(
    display: DisplayView,
    conditions: Conditions,
    answers: spec_fn(Errand, int, Stage) -> MonitorReply,
)
    requires
        !(display.pending_operation matches Some(operation) && operation is SetLevel),
    ensures
        display.updated_through(conditions, answers).keeps_levels_of(display),
{
    let last = on_errand(answers, Errand::Last);
    match display.pending_operation {
        None => {
            if let Some(operation) = display.wanted(conditions) {
                lemma_applied_keeps_levels(
                    DisplayView { pending_operation: Some(operation), ..display },
                    last,
                );
            }
        },
        Some(operation) => {
            let revised = DisplayView {
                pending_operation: Some(DisplayView::revised(operation, conditions)),
                ..display
            };
            let pending = on_errand(answers, Errand::Pending);
            lemma_applied_keeps_levels(revised, pending);
            let (applied, _) = revised.applied_through(pending);
            if let Some(wanted) = applied.wanted(conditions) {
                let asked = DisplayView { pending_operation: Some(wanted), ..applied };
                lemma_applied_keeps_levels(asked, last);
                let settled = asked.applied_through(last).0;
                assert forall|i: int|
                    0 <= i < settled.targets.len() && display.targets[i].restore_brightness is Some implies (
                #[trigger] settled.targets[i]).restore_brightness
                    == display.targets[i].restore_brightness by {
                    assert(applied.targets[i].restore_brightness
                        == display.targets[i].restore_brightness);
                }
            }
        },
    }
}

impl DisplayView {
    /// Every level that is noted for a monitor on the earlier display is noted for
    /// the monitor with the same key on this one.
    pub open spec fn returns_like(self, earlier: DisplayView) -> bool {
        forall|i: int, j: int|
            0 <= i < self.targets.len() && 0 <= j < earlier.targets.len() && (
            #[trigger] self.targets[i]).key == (#[trigger] earlier.targets[j]).key
                && earlier.targets[j].restore_brightness is Some
                ==> self.targets[i].restore_brightness == earlier.targets[j].restore_brightness
    }
}

/// The target with a key is the one that has it.
proof fn lemma_target_with(targets: Seq<TargetView>, at: int)
    requires
        distinct_keys(targets),
        0 <= at < targets.len(),
    ensures
        target_with(targets, targets[at].key) == Some(targets[at]),
{
    let key = targets[at].key;
    let i = choose|i: int| 0 <= i < targets.len() && #[trigger] targets[i].key == key;
    if i < at {
        assert(targets[i].key != targets[at].key);
    } else if at < i {
        assert(targets[at].key != targets[i].key);
    }
}

/// Displays that are found again know for each monitor that is dimmed the level
/// to return to, if they did before, and every level that was noted.
pub proof fn reenumeration_keeps_the_way_back(earlier: DisplayView, found: DisplayView)
    requires
        earlier.found_again_as(found),
        earlier.can_return(),
        found.can_return(),
    ensures
        found.taking_over(earlier).can_return(),
        found.taking_over(earlier).returns_like(earlier),
{
    let display = found.taking_over(earlier);
    assert forall|i: int| 0 <= i < display.targets.len() implies (
    #[trigger] display.targets[i]).can_return() by {
        assert(found.targets[i].can_return());
        let key = found.targets[i].key;
        if target_with(earlier.targets, key) is Some {
            let j = choose|j: int|
                0 <= j < earlier.targets.len() && #[trigger] earlier.targets[j].key == key;
            assert(earlier.targets[j].can_return());
        }
    }
    lemma_taking_over_returns(earlier, found);
}

/// A display that takes over knows the levels that were noted.
proof fn lemma_taking_over_returns(earlier: DisplayView, found: DisplayView)
    requires
        distinct_keys(earlier.targets),
    ensures
        found.taking_over(earlier).returns_like(earlier),
{
    let display = found.taking_over(earlier);
    assert forall|i: int, j: int|
        0 <= i < display.targets.len() && 0 <= j < earlier.targets.len() && (
        #[trigger] display.targets[i]).key == (#[trigger] earlier.targets[j]).key
            && earlier.targets[j].restore_brightness is Some implies display.targets[i].restore_brightness
        == earlier.targets[j].restore_brightness by {
        assert(display.targets[i].key == found.targets[i].key);
        lemma_target_with(earlier.targets, j);
    }
}

/// A display that was dark before it was found again goes dark again, with
/// willing monitors, if it is still empty, or if the user still dims by hand.
/// The levels that were noted before are still the ones to return to, though
/// the monitors were dark when they were found.
pub proof fn dark_displays_are_darkened_again(
    earlier: DisplayView,
    found: DisplayView,
    conditions: Conditions,
    answers: spec_fn(Errand, int, Stage) -> MonitorReply,
)
    requires
        earlier.found_again_as(found),
        earlier.pending_operation is None,
        earlier.dimming_state is AutoDimmed && !conditions.manual_dimming
            && !conditions.has_window || earlier.dimming_state is UserDimmed
            && conditions.manual_dimming,
        found.live(),
        found.targets.len() > 0,
        visit_willing(answers),
    ensures
        ({
            let updated = found.taking_over(earlier).updated_through(conditions, answers);
            &&& updated.dark(earlier.dimming_state)
            &&& updated.returns_like(earlier)
        }),
{
    let display = found.taking_over(earlier);
    assert forall|i: int| 0 <= i < display.targets.len() implies !(
    #[trigger] display.targets[i]).disposed by {
        assert(!found.targets[i].disposed);
    }
    if conditions.manual_dimming {
        dimming_by_hand_darkens_every_display(display, conditions, answers);
    } else {
        empty_displays_go_dark(display, conditions, answers);
    }
    lemma_taking_over_returns(earlier, found);
    updates_keep_noted_levels(display, conditions, answers);
    visits_keep_the_display(display, Visit::Update, conditions, answers);
    let updated = display.updated_through(conditions, answers);
    assert forall|i: int, j: int|
        0 <= i < updated.targets.len() && 0 <= j < earlier.targets.len() && (
        #[trigger] updated.targets[i]).key == (#[trigger] earlier.targets[j]).key
            && earlier.targets[j].restore_brightness is Some implies updated.targets[i].restore_brightness
        == earlier.targets[j].restore_brightness by {
        assert(updated.targets[i].same_monitor(display.targets[i]));
        assert(display.targets[i].restore_brightness == earlier.targets[j].restore_brightness);
    }
}

/// All displays that are found again when they are searched for anew, in
/// whatever order, take over from the earlier ones, and nothing else is lost:
/// what no display can use stays remembered, and whether the user dims by hand
/// stays as it is.
pub proof fn searching_anew_preserves_displays(manager: ManagerView, found: Seq<DisplayView>)
    requires
        distinct_names(manager.displays),
        distinct_names(found),
    ensures
        ({
            let again = manager.detached().attached(found);
            let snapshots = manager.detached().detached_snapshots;
            &&& again.settings == manager.settings
            &&& again.manual_dimming_enabled == manager.manual_dimming_enabled
            &&& again.detached_snapshots == snapshots.remove_keys(
                claimed_names(found, snapshots, 0),
            )
            &&& again.displays.len() == found.len()
            &&& forall|i: int, j: int|
                0 <= i < found.len() && 0 <= j < manager.displays.len()
                    && #[trigger] manager.displays[j].found_again_as(found[i])
                    ==> again.displays[i] == found[i].taking_over(manager.displays[j])
        }),
{
    reenumeration_preserves_displays(manager.displays, found, manager.detached_snapshots);
}

} // verus!
