//! What operations and updates do to a display, told in terms of what its
//! monitors answer.

use vstd::prelude::*;

use crate::brightness::occupied_as;
use crate::brightness::DisplayDimmingState;
use crate::brightness::PendingBrightnessOperation;
use crate::display::some_target;
use crate::display::Conditions;
use crate::display::DisplayStep;
use crate::display::DisplayView;
use crate::display::Errand;
use crate::display::SweepStep;
use crate::display::Visit;
use crate::laws::targets::reachable;
use crate::outcome::about;
use crate::outcome::lemma_told_each;
use crate::outcome::on_errand;
use crate::target::MonitorReply;
use crate::target::Stage;
use crate::target::TargetCommand;
use crate::target::TargetView;

verus! {

/// Some monitor that may be talked to is dimmed, or is not.
pub open spec fn any_reachable(targets: Seq<TargetView>, dimmed: bool) -> bool {
    exists|i: int|
        0 <= i < targets.len() && reachable(#[trigger] targets[i]) && targets[i].is_dimmed == dimmed
}

/// What each monitor of a display is told on account of an operation.
pub open spec fn instruction(operation: PendingBrightnessOperation) -> TargetCommand {
    match operation {
        PendingBrightnessOperation::Dim { brightness, .. } => TargetCommand::Dim {
            percent: brightness,
        },
        PendingBrightnessOperation::Restore { .. } => TargetCommand::Restore,
        PendingBrightnessOperation::SetLevel { brightness, .. } => TargetCommand::SetLevel {
            percent: brightness,
        },
    }
}

/// The state that an operation is meant to lead to.
pub open spec fn meant_state(operation: PendingBrightnessOperation) -> DisplayDimmingState {
    match operation {
        PendingBrightnessOperation::Dim { next_state, .. } => next_state,
        PendingBrightnessOperation::Restore { next_state } => next_state,
        PendingBrightnessOperation::SetLevel { next_state, .. } => next_state,
    }
}

/// The operation that is called for in place of one that is still pending: while
/// the user dims by hand, to dim; else the same, unless it was meant for a display
/// that was empty, or was not, and no longer is.
pub open spec fn called_for(
    operation: PendingBrightnessOperation,
    conditions: Conditions,
) -> PendingBrightnessOperation {
    if conditions.manual_dimming {
        PendingBrightnessOperation::Dim {
            brightness: conditions.empty_brightness,
            next_state: DisplayDimmingState::UserDimmed,
        }
    } else {
        match (operation, conditions.has_window) {
            (
                PendingBrightnessOperation::Dim { next_state: DisplayDimmingState::AutoDimmed, .. },
                true,
            ) => PendingBrightnessOperation::Restore { next_state: DisplayDimmingState::Lit },
            (
                PendingBrightnessOperation::Restore {
                    next_state: DisplayDimmingState::UserRestoredWhileEmpty,
                },
                true,
            ) => PendingBrightnessOperation::Restore { next_state: DisplayDimmingState::Lit },
            (
                PendingBrightnessOperation::Restore { next_state: DisplayDimmingState::Lit },
                false,
            ) => PendingBrightnessOperation::Dim {
                brightness: conditions.empty_brightness,
                next_state: DisplayDimmingState::AutoDimmed,
            },
            (
                PendingBrightnessOperation::SetLevel { brightness, .. },
                true,
            ) => PendingBrightnessOperation::SetLevel {
                brightness,
                next_state: DisplayDimmingState::Lit,
            },
            (
                PendingBrightnessOperation::SetLevel { brightness, .. },
                false,
            ) => PendingBrightnessOperation::SetLevel {
                brightness,
                next_state: DisplayDimmingState::UserRestoredWhileEmpty,
            },
            (other, _) => other,
        }
    }
}

/// The test for a target that may be talked to and is dimmed, or is not, finds one
/// exactly if there is one.
pub proof fn targets_are_looked_for_among_the_reachable(targets: Seq<TargetView>, dimmed: bool)
    ensures
        some_target(targets, dimmed) <==> any_reachable(targets, dimmed),
{
    if some_target(targets, dimmed) {
        let i = choose|i: int|
            0 <= i < targets.len() && (#[trigger] targets[i]).attemptable() && targets[i].is_dimmed
                == dimmed;
        assert(reachable(targets[i]));
    }
    if any_reachable(targets, dimmed) {
        let i = choose|i: int|
            0 <= i < targets.len() && reachable(#[trigger] targets[i]) && targets[i].is_dimmed
                == dimmed;
        assert(targets[i].attemptable());
    }
}

/// A display that the user has brightened is lit if a window shows on it, and lit
/// while empty if not; and an operation leads to the state it was made with.
pub proof fn operations_lead_where_they_are_meant_to(operation: PendingBrightnessOperation)
    ensures
        operation.leads_to() == meant_state(operation),
        occupied_as(true) == DisplayDimmingState::Lit,
        occupied_as(false) == DisplayDimmingState::UserRestoredWhileEmpty,
{
}

/// An operation that is still pending is reconsidered in three cases only: to dim
/// an empty display on which a window has come up, to light a display for a window
/// that has gone, and to light a display by hand. The brightness that the user has
/// picked stays, and so does a dimming by hand.
pub proof fn pending_operations_follow_the_windows(
    operation: PendingBrightnessOperation,
    has_window: bool,
    empty_brightness: u32,
)
    ensures
        operation.reconciled(has_window, empty_brightness) == called_for(
            operation,
            Conditions { has_window, manual_dimming: false, empty_brightness },
        ),
{
}

/// An operation tells every monitor of the display by itself what it is to do: to
/// dim to the percentage, to restore, or to set itself to the percentage. Once all
/// are settled the display is in the state that was meant, with nothing pending;
/// until then the operation stays pending and the state stays what it was.
pub proof fn operations_tell_every_monitor(
    display: DisplayView,
    operation: PendingBrightnessOperation,
    answers: spec_fn(int, Stage) -> MonitorReply,
)
    requires
        display.pending_operation == Some(operation),
    ensures
        ({
            let (applied, done) = display.applied_through(answers);
            &&& applied.targets.len() == display.targets.len()
            &&& forall|i: int|
                0 <= i < display.targets.len() ==> #[trigger] applied.targets[i]
                    == display.targets[i].told(instruction(operation), about(answers, i)).0
            &&& done <==> forall|i: int|
                0 <= i < display.targets.len() ==> (#[trigger] display.targets[i]).told(
                    instruction(operation),
                    about(answers, i),
                ).1
            &&& applied == (DisplayView {
                targets: applied.targets,
                dimming_state: if done {
                    meant_state(operation)
                } else {
                    display.dimming_state
                },
                pending_operation: if done {
                    None
                } else {
                    Some(operation)
                },
                ..display
            })
        }),
{
    lemma_told_each(display.targets, instruction(operation), 0, true, answers);
}

/// What is asked for on a display takes the place of what is pending there. A
/// display without monitors is lit, with nothing pending.
pub proof fn requests_replace_what_is_pending(
    display: DisplayView,
    operation: PendingBrightnessOperation,
    answers: spec_fn(int, Stage) -> MonitorReply,
)
    ensures
        display.targets.len() > 0 ==> display.requested_through(operation, answers) == (
        DisplayView { pending_operation: Some(operation), ..display }).applied_through(answers).0,
        display.targets.len() == 0 ==> display.requested_through(operation, answers) == (
        DisplayView {
            dimming_state: DisplayDimmingState::Lit,
            pending_operation: None,
            ..display
        }),
{
}

/// What an update makes of a display with monitors on which nothing is pending.
/// While the user dims by hand, it dims the monitors that are not dimmed. Else,
/// with a window on the display, it restores the monitors that were dimmed for its
/// being empty, or that are dimmed though it is lit. Without a window it dims a
/// display that is lit, or monitors that are not dimmed though the display is; and
/// it restores monitors of a display that the user has lit.
pub proof fn updates_do_what_the_windows_call_for(
    display: DisplayView,
    conditions: Conditions,
    answers: spec_fn(Errand, int, Stage) -> MonitorReply,
)
    requires
        display.targets.len() > 0,
        display.pending_operation is None,
    ensures
        ({
            let updated = display.updated_through(conditions, answers);
            let last = on_errand(answers, Errand::Last);
            let dimmed = any_reachable(display.targets, true);
            let undimmed = any_reachable(display.targets, false);
            let dim_by_hand = display.requested_through(
                PendingBrightnessOperation::Dim {
                    brightness: conditions.empty_brightness,
                    next_state: DisplayDimmingState::UserDimmed,
                },
                last,
            );
            let dim = display.requested_through(
                PendingBrightnessOperation::Dim {
                    brightness: conditions.empty_brightness,
                    next_state: DisplayDimmingState::AutoDimmed,
                },
                last,
            );
            let restore = display.requested_through(
                PendingBrightnessOperation::Restore { next_state: DisplayDimmingState::Lit },
                last,
            );
            let restore_while_empty = display.requested_through(
                PendingBrightnessOperation::Restore {
                    next_state: DisplayDimmingState::UserRestoredWhileEmpty,
                },
                last,
            );
            let (by_hand, window) = (conditions.manual_dimming, conditions.has_window);
            &&& by_hand && undimmed ==> updated == dim_by_hand
            &&& by_hand && !undimmed ==> updated == (DisplayView {
                dimming_state: DisplayDimmingState::UserDimmed,
                ..display
            })
            &&& !by_hand && window ==> match display.dimming_state {
                DisplayDimmingState::Lit => updated == (if dimmed {
                    restore
                } else {
                    display
                }),
                DisplayDimmingState::AutoDimmed => updated == restore,
                DisplayDimmingState::UserDimmed => updated == display,
                DisplayDimmingState::UserRestoredWhileEmpty => updated == (DisplayView {
                    dimming_state: DisplayDimmingState::Lit,
                    ..display
                }),
            }
            &&& !by_hand && !window ==> match display.dimming_state {
                DisplayDimmingState::Lit => updated == dim,
                DisplayDimmingState::AutoDimmed => updated == (if undimmed {
                    dim
                } else {
                    display
                }),
                DisplayDimmingState::UserDimmed => updated == (DisplayView {
                    dimming_state: DisplayDimmingState::AutoDimmed,
                    ..display
                }),
                DisplayDimmingState::UserRestoredWhileEmpty => updated == (if dimmed {
                    restore_while_empty
                } else {
                    display
                }),
            }
        }),
{
    targets_are_looked_for_among_the_reachable(display.targets, true);
    targets_are_looked_for_among_the_reachable(display.targets, false);
}

/// An update first carries out what is still pending, as it is called for now. If
/// that fails, it ends there; else it goes on as if nothing had been pending.
pub proof fn updates_start_with_what_is_pending(
    display: DisplayView,
    operation: PendingBrightnessOperation,
    conditions: Conditions,
    answers: spec_fn(Errand, int, Stage) -> MonitorReply,
)
    requires
        display.targets.len() > 0,
        display.pending_operation == Some(operation),
    ensures
        ({
            let (applied, done) = (DisplayView {
                pending_operation: Some(called_for(operation, conditions)),
                ..display
            }).applied_through(on_errand(answers, Errand::Pending));
            display.updated_through(conditions, answers) == (if done {
                applied.updated_through(conditions, answers)
            } else {
                applied
            })
        }),
{
    pending_operations_follow_the_windows(
        operation,
        conditions.has_window,
        conditions.empty_brightness,
    );
    let revised = DisplayView {
        pending_operation: Some(called_for(operation, conditions)),
        ..display
    };
    lemma_told_each(
        display.targets,
        instruction(called_for(operation, conditions)),
        0,
        true,
        on_errand(answers, Errand::Pending),
    );
}

/// An update of a display without monitors leaves it lit, with nothing pending.
pub proof fn updates_light_displays_without_monitors(
    display: DisplayView,
    conditions: Conditions,
    answers: spec_fn(Errand, int, Stage) -> MonitorReply,
)
    requires
        display.targets.len() == 0,
    ensures
        display.updated_through(conditions, answers) == (DisplayView {
            dimming_state: DisplayDimmingState::Lit,
            pending_operation: None,
            ..display
        }),
{
}

/// At shutdown every monitor is told by itself to return to the level noted for
/// it. Nothing stays pending, and the display is lit if all have returned.
pub proof fn shutdown_tells_every_monitor(
    display: DisplayView,
    conditions: Conditions,
    answers: spec_fn(Errand, int, Stage) -> MonitorReply,
)
    ensures
        ({
            let shut_down = display.visited_through(Visit::Shutdown, conditions, answers);
            let own = on_errand(answers, Errand::Shutdown);
            let all = forall|i: int|
                0 <= i < display.targets.len() ==> (#[trigger] display.targets[i]).told(
                    TargetCommand::RestoreForShutdown,
                    about(own, i),
                ).1;
            &&& shut_down.targets.len() == display.targets.len()
            &&& forall|i: int|
                0 <= i < display.targets.len() ==> #[trigger] shut_down.targets[i]
                    == display.targets[i].told(
                    TargetCommand::RestoreForShutdown,
                    about(own, i),
                ).0
            &&& shut_down == (DisplayView {
                targets: shut_down.targets,
                pending_operation: None,
                dimming_state: if all {
                    DisplayDimmingState::Lit
                } else {
                    display.dimming_state
                },
                ..display
            })
        }),
{
    lemma_told_each(
        display.targets,
        TargetCommand::RestoreForShutdown,
        0,
        true,
        on_errand(answers, Errand::Shutdown),
    );
}

/// Nothing pending means that there is nothing to carry out.
pub proof fn nothing_pending_is_done_at_once(display: DisplayView)
    requires
        display.pending_operation is None,
    ensures
        display.applied() == (display, SweepStep::Finished { settled: true }),
{
}

/// A display in line with the conditions is left alone: no monitor is asked
/// anything, and nothing changes.
pub proof fn displays_in_line_are_left_alone(display: DisplayView, conditions: Conditions)
    requires
        display.targets.len() > 0,
        display.pending_operation is None,
        if conditions.manual_dimming {
            display.dimming_state is UserDimmed && !any_reachable(display.targets, false)
        } else if conditions.has_window {
            display.dimming_state is UserDimmed || (display.dimming_state is Lit && !any_reachable(
                display.targets,
                true,
            ))
        } else {
            (display.dimming_state is AutoDimmed && !any_reachable(display.targets, false)) || (
            display.dimming_state is UserRestoredWhileEmpty && !any_reachable(
                display.targets,
                true,
            ))
        },
    ensures
        display.updated(conditions) == (display, DisplayStep::Finished),
{
    targets_are_looked_for_among_the_reachable(display.targets, true);
    targets_are_looked_for_among_the_reachable(display.targets, false);
}

} // verus!
