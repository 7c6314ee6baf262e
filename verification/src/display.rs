//! A display, the monitors that show it, and how its dimming state follows
//! what is on it.
//!
//! An operation on a display is a sweep over its targets, one conversation
//! after the other. A sweep that has to wait for a monitor's answer says where
//! it stands and is resumed from there.

use vstd::prelude::*;

use crate::brightness::reconcile_pending_operation;
use crate::brightness::DisplayDimmingState;
use crate::brightness::PendingBrightnessOperation;
use crate::geometry::SimpleRect;
use crate::target::MonitorReply;
use crate::target::PhysicalMonitorTarget;
use crate::target::target_views;
use crate::target::Stage;
use crate::target::TargetCommand;
use crate::target::TargetStep;
use crate::target::TargetView;

verus! {

/// A display.
#[derive(Debug)]
pub struct DisplayState {
    pub device_name: String,
    pub bounds: SimpleRect,
    pub targets: Vec<PhysicalMonitorTarget>,
    pub dimming_state: DisplayDimmingState,
    pub pending_operation: Option<PendingBrightnessOperation>,
    pub last_blocking_window: Option<String>,
}

/// The contents of a `DisplayState`.
#[verifier::ext_equal]
pub struct DisplayView {
    pub device_name: Seq<char>,
    pub bounds: SimpleRect,
    pub targets: Seq<TargetView>,
    pub dimming_state: DisplayDimmingState,
    pub pending_operation: Option<PendingBrightnessOperation>,
    pub last_blocking_window: Option<Seq<char>>,
}

/// The contents of an optional string.
pub open spec fn optional_text(text: Option<String>) -> Option<Seq<char>> {
    match text {
        Some(text) => Some(text@),
        None => None,
    }
}

impl View for DisplayState {
    type V = DisplayView;

    open spec fn view(&self) -> DisplayView {
        DisplayView {
            device_name: self.device_name@,
            bounds: self.bounds,
            targets: target_views(self.targets@),
            dimming_state: self.dimming_state,
            pending_operation: self.pending_operation,
            last_blocking_window: optional_text(self.last_blocking_window),
        }
    }
}

/// Where a sweep waits: for which target, for what, and whether the targets
/// before it were all settled.
#[derive(Debug, Clone, Copy, PartialEq, Eq, Structural)]
pub struct Await {
    pub target: usize,
    pub settled: bool,
    pub stage: Stage,
}

/// Where a sweep stands.
#[derive(Debug, Clone, Copy, PartialEq, Eq, Structural)]
pub enum SweepStep {
    /// All targets were visited; `settled` says whether each was settled.
    Finished { settled: bool },
    /// A monitor's answer is needed.
    Waiting { at: Await },
}

/// What the state of a display depends on.
#[derive(Debug, Clone, Copy, PartialEq, Eq, Structural)]
pub struct Conditions {
    pub has_window: bool,
    pub manual_dimming: bool,
    pub empty_brightness: u32,
}

/// What is done with a display.
#[derive(Debug, Clone, Copy, PartialEq, Eq, Structural)]
pub enum Visit {
    /// Its state is brought in line with the conditions.
    Update,
    /// An operation is asked for.
    Request { operation: PendingBrightnessOperation },
    /// Its monitors are returned to their earlier levels for the last time.
    Shutdown,
}

/// Which part of a visit a sweep belongs to.
#[derive(Debug, Clone, Copy, PartialEq, Eq, Structural)]
pub enum Errand {
    /// The operation that was pending before an update.
    Pending,
    /// The operation with which a visit ends.
    Last,
    /// The restoring at shutdown.
    Shutdown,
}

/// Where a visit stands.
#[derive(Debug, Clone, Copy, PartialEq, Eq, Structural)]
pub enum DisplayStep {
    /// The visit is over.
    Finished,
    /// A monitor's answer is needed.
    Waiting { errand: Errand, at: Await },
}

/// Goes on with a sweep at the target `from`, the earlier ones being done.
pub open spec fn swept(
    targets: Seq<TargetView>,
    command: TargetCommand,
    from: int,
    settled: bool,
) -> (Seq<TargetView>, SweepStep)
    decreases targets.len() - from,
{
    if from < 0 || from >= targets.len() {
        (targets, SweepStep::Finished { settled })
    } else {
        let (target, step) = targets[from].opened(command);
        let visited = targets.update(from, target);
        match step {
            TargetStep::Done { settled: done } => swept(
                visited,
                command,
                from + 1,
                settled && done,
            ),
            TargetStep::Ask { stage } => (
                visited,
                SweepStep::Waiting { at: Await { target: from as usize, settled, stage } },
            ),
        }
    }
}

/// Goes on with a sweep that waits, with the answer it waits for.
pub open spec fn swept_on(
    targets: Seq<TargetView>,
    command: TargetCommand,
    at: Await,
    reply: MonitorReply,
) -> (Seq<TargetView>, SweepStep) {
    let (target, step) = targets[at.target as int].continued(command, at.stage, reply);
    let visited = targets.update(at.target as int, target);
    match step {
        TargetStep::Done { settled: done } => swept(
            visited,
            command,
            at.target + 1,
            at.settled && done,
        ),
        TargetStep::Ask { stage } => (visited, SweepStep::Waiting { at: Await { stage, ..at } }),
    }
}

/// A sweep over these targets on this command can wait there.
pub open spec fn can_wait(
    targets: Seq<TargetView>,
    command: TargetCommand,
    at: Await,
) -> bool {
    at.target < targets.len() && command.may_await(at.stage)
}

/// The command to each target that an operation on a display comes down to.
pub open spec fn command_of(operation: PendingBrightnessOperation) -> TargetCommand {
    match operation {
        PendingBrightnessOperation::Dim { brightness, .. } => TargetCommand::Dim {
            percent: brightness,
        },
        PendingBrightnessOperation::Restore { .. } => TargetCommand::Restore,
        PendingBrightnessOperation::SetLevel { brightness, .. } => TargetCommand::SetLevel {
            percent: brightness,
        },
    }
}

/// Some target that may be talked to is dimmed, or is not.
pub open spec fn some_target(targets: Seq<TargetView>, dimmed: bool) -> bool {
    exists|i: int|
        0 <= i < targets.len() && (#[trigger] targets[i]).attemptable() && targets[i].is_dimmed
            == dimmed
}

/// Dimming by hand.
pub open spec fn user_dimming(empty_brightness: u32) -> PendingBrightnessOperation {
    PendingBrightnessOperation::Dim {
        brightness: empty_brightness,
        next_state: DisplayDimmingState::UserDimmed,
    }
}

/// Dimming because nothing is on the display.
pub open spec fn auto_dimming(empty_brightness: u32) -> PendingBrightnessOperation {
    PendingBrightnessOperation::Dim {
        brightness: empty_brightness,
        next_state: DisplayDimmingState::AutoDimmed,
    }
}

/// Restoring.
pub open spec fn restoring(next_state: DisplayDimmingState) -> PendingBrightnessOperation {
    PendingBrightnessOperation::Restore { next_state }
}

impl DisplayView {
    /// The display with its targets as a sweep for the pending operation has
    /// left them. If the sweep has settled all of them, the operation is done.
    pub open spec fn with_sweep(
        self,
        sweep: (Seq<TargetView>, SweepStep),
    ) -> DisplayView {
        match self.pending_operation {
            Some(operation) if sweep.1 == (SweepStep::Finished { settled: true }) => DisplayView {
                targets: sweep.0,
                dimming_state: operation.leads_to(),
                pending_operation: None,
                ..self
            },
            _ => DisplayView { targets: sweep.0, ..self },
        }
    }

    /// Starts carrying out the pending operation.
    pub open spec fn applied(self) -> (DisplayView, SweepStep) {
        match self.pending_operation {
            None => (self, SweepStep::Finished { settled: true }),
            Some(operation) => {
                let sweep = swept(self.targets, command_of(operation), 0, true);
                (self.with_sweep(sweep), sweep.1)
            },
        }
    }

    /// Goes on with the pending operation.
    pub open spec fn applied_on(self, at: Await, reply: MonitorReply) -> (DisplayView, SweepStep)
        recommends
            self.pending_operation is Some,
    {
        let sweep = swept_on(self.targets, command_of(self.pending_operation->0), at, reply);
        (self.with_sweep(sweep), sweep.1)
    }

    /// A display without targets is lit, and nothing is pending on it.
    pub open spec fn bare(self) -> DisplayView {
        DisplayView {
            dimming_state: DisplayDimmingState::Lit,
            pending_operation: None,
            ..self
        }
    }

    /// Asks for an operation in place of the pending one.
    pub open spec fn requested(self, operation: PendingBrightnessOperation) -> (
        DisplayView,
        SweepStep,
    ) {
        if self.targets.len() == 0 {
            (self.bare(), SweepStep::Finished { settled: true })
        } else {
            (DisplayView { pending_operation: Some(operation), ..self }).applied()
        }
    }

    /// The operation that the conditions call for, if any, on a display with
    /// nothing pending.
    pub open spec fn wanted(self, conditions: Conditions) -> Option<PendingBrightnessOperation> {
        if conditions.manual_dimming {
            if some_target(self.targets, false) {
                Some(user_dimming(conditions.empty_brightness))
            } else {
                None
            }
        } else if conditions.has_window {
            if self.dimming_state is AutoDimmed || (self.dimming_state is Lit && some_target(
                self.targets,
                true,
            )) {
                Some(restoring(DisplayDimmingState::Lit))
            } else {
                None
            }
        } else if self.dimming_state is Lit || (self.dimming_state is AutoDimmed && some_target(
            self.targets,
            false,
        )) {
            Some(auto_dimming(conditions.empty_brightness))
        } else if self.dimming_state is UserRestoredWhileEmpty && some_target(self.targets, true) {
            Some(restoring(DisplayDimmingState::UserRestoredWhileEmpty))
        } else {
            None
        }
    }

    /// The state that the conditions call for where no operation is needed.
    pub open spec fn relabelled(self, conditions: Conditions) -> DisplayDimmingState {
        if conditions.manual_dimming {
            DisplayDimmingState::UserDimmed
        } else if conditions.has_window && self.dimming_state is UserRestoredWhileEmpty {
            DisplayDimmingState::Lit
        } else if !conditions.has_window && self.dimming_state is UserDimmed {
            DisplayDimmingState::AutoDimmed
        } else {
            self.dimming_state
        }
    }

    /// Ends a visit with the sweep of its last operation.
    pub open spec fn ending(result: (DisplayView, SweepStep)) -> (DisplayView, DisplayStep) {
        (
            result.0,
            match result.1 {
                SweepStep::Finished { .. } => DisplayStep::Finished,
                SweepStep::Waiting { at } => DisplayStep::Waiting { errand: Errand::Last, at },
            },
        )
    }

    /// Brings a display on which nothing is pending in line with the
    /// conditions.
    pub open spec fn settled(self, conditions: Conditions) -> (DisplayView, DisplayStep) {
        match self.wanted(conditions) {
            Some(operation) => DisplayView::ending(self.requested(operation)),
            None => (
                DisplayView { dimming_state: self.relabelled(conditions), ..self },
                DisplayStep::Finished,
            ),
        }
    }

    /// Goes on with an update after a step of the operation that was pending.
    pub open spec fn past_pending(
        result: (DisplayView, SweepStep),
        conditions: Conditions,
    ) -> (DisplayView, DisplayStep) {
        match result.1 {
            SweepStep::Finished { settled: true } => result.0.settled(conditions),
            SweepStep::Finished { settled: false } => (result.0, DisplayStep::Finished),
            SweepStep::Waiting { at } => (
                result.0,
                DisplayStep::Waiting { errand: Errand::Pending, at },
            ),
        }
    }

    /// What the pending operation becomes under the conditions.
    pub open spec fn revised(
        operation: PendingBrightnessOperation,
        conditions: Conditions,
    ) -> PendingBrightnessOperation {
        if conditions.manual_dimming {
            user_dimming(conditions.empty_brightness)
        } else {
            operation.reconciled(conditions.has_window, conditions.empty_brightness)
        }
    }

    /// Brings a display in line with the conditions.
    pub open spec fn updated(self, conditions: Conditions) -> (DisplayView, DisplayStep) {
        if self.targets.len() == 0 {
            (self.bare(), DisplayStep::Finished)
        } else {
            match self.pending_operation {
                None => self.settled(conditions),
                Some(operation) => {
                    let revised = DisplayView {
                        pending_operation: Some(DisplayView::revised(operation, conditions)),
                        ..self
                    };
                    DisplayView::past_pending(revised.applied(), conditions)
                },
            }
        }
    }

    /// The display as a sweep at shutdown has left it.
    pub open spec fn with_shutdown(
        self,
        sweep: (Seq<TargetView>, SweepStep),
    ) -> (DisplayView, DisplayStep) {
        match sweep.1 {
            SweepStep::Finished { settled } => (
                DisplayView {
                    targets: sweep.0,
                    dimming_state: if settled {
                        DisplayDimmingState::Lit
                    } else {
                        self.dimming_state
                    },
                    ..self
                },
                DisplayStep::Finished,
            ),
            SweepStep::Waiting { at } => (
                DisplayView { targets: sweep.0, ..self },
                DisplayStep::Waiting { errand: Errand::Shutdown, at },
            ),
        }
    }

    /// Starts a visit.
    pub open spec fn visited(self, visit: Visit, conditions: Conditions) -> (
        DisplayView,
        DisplayStep,
    ) {
        match visit {
            Visit::Update => self.updated(conditions),
            Visit::Request { operation } => DisplayView::ending(self.requested(operation)),
            Visit::Shutdown => (DisplayView { pending_operation: None, ..self }).with_shutdown(
                swept(self.targets, TargetCommand::RestoreForShutdown, 0, true),
            ),
        }
    }

    /// Goes on with a visit that waits.
    pub open spec fn visited_on(
        self,
        conditions: Conditions,
        errand: Errand,
        at: Await,
        reply: MonitorReply,
    ) -> (DisplayView, DisplayStep) {
        match errand {
            Errand::Pending => DisplayView::past_pending(self.applied_on(at, reply), conditions),
            Errand::Last => DisplayView::ending(self.applied_on(at, reply)),
            Errand::Shutdown => self.with_shutdown(
                swept_on(self.targets, TargetCommand::RestoreForShutdown, at, reply),
            ),
        }
    }

    /// The command on which a sweep for an errand talks to the targets.
    pub open spec fn errand_command(self, errand: Errand) -> Option<TargetCommand> {
        if errand is Shutdown {
            Some(TargetCommand::RestoreForShutdown)
        } else {
            match self.pending_operation {
                Some(operation) => Some(command_of(operation)),
                None => None,
            }
        }
    }

    /// A visit to this display can wait there.
    pub open spec fn awaits(self, errand: Errand, at: Await) -> bool {
        match self.errand_command(errand) {
            Some(command) => can_wait(self.targets, command, at),
            None => false,
        }
    }
}

/// Goes on with a sweep at the target `from`.
pub fn sweep(
    targets: &mut Vec<PhysicalMonitorTarget>,
    command: TargetCommand,
    from: usize,
    settled: bool,
) -> (step: SweepStep)
    requires
        from <= old(targets)@.len(),
    ensures
        (target_views(final(targets)@), step) == swept(
            target_views(old(targets)@),
            command,
            from as int,
            settled,
        ),
{
    let mut at: usize = from;
    let mut all: bool = settled;
    while at < targets.len()
        invariant
            at <= targets@.len(),
            swept(target_views(old(targets)@), command, from as int, settled) == swept(
                target_views(targets@),
                command,
                at as int,
                all,
            ),
        decreases targets@.len() - at,
    {
        let ghost before = target_views(targets@);
        let step = targets[at].begin(command);
        assert(target_views(targets@) == before.update(
            at as int,
            before[at as int].opened(command).0,
        ));
        match step {
            TargetStep::Done { settled: done } => {
                all = all && done;
                at = at + 1;
            },
            TargetStep::Ask { stage } => {
                return SweepStep::Waiting { at: Await { target: at, settled: all, stage } };
            },
        }
    }
    SweepStep::Finished { settled: all }
}

/// Goes on with a sweep that waits, with the answer it waits for.
pub fn resume_sweep(
    targets: &mut Vec<PhysicalMonitorTarget>,
    command: TargetCommand,
    at: Await,
    reply: MonitorReply,
) -> (step: SweepStep)
    requires
        can_wait(target_views(old(targets)@), command, at),
        reply.answers(at.stage),
    ensures
        (target_views(final(targets)@), step) == swept_on(
            target_views(old(targets)@),
            command,
            at,
            reply,
        ),
{
    assert(at.target < targets.len());
    let ghost before = target_views(targets@);
    let step = targets[at.target].resume(command, at.stage, reply);
    assert(target_views(targets@) == before.update(
        at.target as int,
        before[at.target as int].continued(command, at.stage, reply).0,
    ));
    match step {
        TargetStep::Done { settled: done } => sweep(
            targets,
            command,
            at.target + 1,
            at.settled && done,
        ),
        TargetStep::Ask { stage } => SweepStep::Waiting {
            at: Await { target: at.target, settled: at.settled, stage },
        },
    }
}

/// Tests for a target that may be talked to and is dimmed, or is not.
fn any_target(targets: &Vec<PhysicalMonitorTarget>, dimmed: bool) -> (result: bool)
    ensures
        result == some_target(target_views(targets@), dimmed),
{
    let mut at: usize = 0;
    while at < targets.len()
        invariant
            at <= targets@.len(),
            forall|i: int|
                0 <= i < at ==> !((#[trigger] targets@[i])@.attemptable() && targets@[i]@.is_dimmed
                    == dimmed),
        decreases targets@.len() - at,
    {
        if targets[at].can_attempt_operations() && targets[at].is_dimmed == dimmed {
            assert(target_views(targets@)[at as int].attemptable());
            return true;
        }
        at = at + 1;
    }
    false
}

/// The command to each target that an operation on a display comes down to.
fn target_command(operation: PendingBrightnessOperation) -> (command: TargetCommand)
    ensures
        command == command_of(operation),
{
    match operation {
        PendingBrightnessOperation::Dim { brightness, .. } => TargetCommand::Dim {
            percent: brightness,
        },
        PendingBrightnessOperation::Restore { .. } => TargetCommand::Restore,
        PendingBrightnessOperation::SetLevel { brightness, .. } => TargetCommand::SetLevel {
            percent: brightness,
        },
    }
}

/// Ends the pending operation if a sweep has settled all targets.
fn conclude(
    display: &mut DisplayState,
    operation: PendingBrightnessOperation,
    step: SweepStep,
)
    ensures
        final(display)@ == (if step == (SweepStep::Finished { settled: true }) {
            DisplayView {
                dimming_state: operation.leads_to(),
                pending_operation: None,
                ..old(display)@
            }
        } else {
            old(display)@
        }),
{
    if let SweepStep::Finished { settled: true } = step {
        display.dimming_state = operation.next_state();
        display.pending_operation = None;
    }
}

/// Starts carrying out the pending operation. It stays pending until a sweep
/// has settled all targets.
pub fn apply_pending_operation(display: &mut DisplayState) -> (step: SweepStep)
    ensures
        (final(display)@, step) == old(display)@.applied(),
{
    let operation = match display.pending_operation {
        Some(operation) => operation,
        None => {
            return SweepStep::Finished { settled: true };
        },
    };
    let step = sweep(&mut display.targets, target_command(operation), 0, true);
    conclude(display, operation, step);
    step
}

/// Goes on with the pending operation.
pub fn resume_pending_operation(display: &mut DisplayState, at: Await, reply: MonitorReply) -> (step:
    SweepStep)
    requires
        old(display)@.awaits(Errand::Last, at),
        reply.answers(at.stage),
    ensures
        (final(display)@, step) == old(display)@.applied_on(at, reply),
{
    let operation = match display.pending_operation {
        Some(operation) => operation,
        None => {
            return SweepStep::Finished { settled: true };
        },
    };
    let step = resume_sweep(&mut display.targets, target_command(operation), at, reply);
    conclude(display, operation, step);
    step
}

/// Asks for an operation in place of the pending one, and starts carrying it
/// out.
pub fn request_operation(
    display: &mut DisplayState,
    operation: PendingBrightnessOperation,
) -> (step: SweepStep)
    ensures
        (final(display)@, step) == old(display)@.requested(operation),
{
    if display.targets.is_empty() {
        display.dimming_state = DisplayDimmingState::Lit;
        display.pending_operation = None;
        return SweepStep::Finished { settled: true };
    }
    display.pending_operation = Some(operation);
    apply_pending_operation(display)
}

/// The step of a visit that a step of its last sweep is.
fn last_step(step: SweepStep) -> (result: DisplayStep)
    ensures
        forall|display: DisplayView| #[trigger]
            DisplayView::ending((display, step)) == (display, result),
{
    match step {
        SweepStep::Finished { .. } => DisplayStep::Finished,
        SweepStep::Waiting { at } => DisplayStep::Waiting { errand: Errand::Last, at },
    }
}

/// Brings a display on which nothing is pending in line with the conditions.
pub fn settle_display(display: &mut DisplayState, conditions: Conditions) -> (step: DisplayStep)
    ensures
        (final(display)@, step) == old(display)@.settled(conditions),
{
    let user_dim = PendingBrightnessOperation::Dim {
        brightness: conditions.empty_brightness,
        next_state: DisplayDimmingState::UserDimmed,
    };
    let auto_dim = PendingBrightnessOperation::Dim {
        brightness: conditions.empty_brightness,
        next_state: DisplayDimmingState::AutoDimmed,
    };
    if conditions.manual_dimming {
        if any_target(&display.targets, false) {
            return last_step(request_operation(display, user_dim));
        }
        display.dimming_state = DisplayDimmingState::UserDimmed;
        return DisplayStep::Finished;
    }
    if conditions.has_window {
        let restore = PendingBrightnessOperation::Restore { next_state: DisplayDimmingState::Lit };
        match display.dimming_state {
            DisplayDimmingState::AutoDimmed => {
                return last_step(request_operation(display, restore));
            },
            DisplayDimmingState::UserRestoredWhileEmpty => {
                display.dimming_state = DisplayDimmingState::Lit;
            },
            DisplayDimmingState::Lit => {
                if any_target(&display.targets, true) {
                    return last_step(request_operation(display, restore));
                }
            },
            DisplayDimmingState::UserDimmed => {},
        }
        return DisplayStep::Finished;
    }
    match display.dimming_state {
        DisplayDimmingState::Lit => {
            return last_step(request_operation(display, auto_dim));
        },
        DisplayDimmingState::UserDimmed => {
            display.dimming_state = DisplayDimmingState::AutoDimmed;
        },
        DisplayDimmingState::AutoDimmed => {
            if any_target(&display.targets, false) {
                return last_step(request_operation(display, auto_dim));
            }
        },
        DisplayDimmingState::UserRestoredWhileEmpty => {
            if any_target(&display.targets, true) {
                let restore = PendingBrightnessOperation::Restore {
                    next_state: DisplayDimmingState::UserRestoredWhileEmpty,
                };
                return last_step(request_operation(display, restore));
            }
        },
    }
    DisplayStep::Finished
}

/// Goes on with an update after a step of the operation that was pending.
fn pass_pending(display: &mut DisplayState, step: SweepStep, conditions: Conditions) -> (result:
    DisplayStep)
    ensures
        (final(display)@, result) == DisplayView::past_pending((old(display)@, step), conditions),
{
    match step {
        SweepStep::Finished { settled } => {
            if settled {
                settle_display(display, conditions)
            } else {
                DisplayStep::Finished
            }
        },
        SweepStep::Waiting { at } => DisplayStep::Waiting { errand: Errand::Pending, at },
    }
}

/// Brings a display in line with the conditions: first the operation that is
/// still pending, as it is to be now, and once that is done whatever else the
/// conditions call for.
pub fn update_display_state(display: &mut DisplayState, conditions: Conditions) -> (step:
    DisplayStep)
    ensures
        (final(display)@, step) == old(display)@.updated(conditions),
{
    if display.targets.is_empty() {
        display.dimming_state = DisplayDimmingState::Lit;
        display.pending_operation = None;
        return DisplayStep::Finished;
    }
    match display.pending_operation {
        None => settle_display(display, conditions),
        Some(operation) => {
            display.pending_operation = Some(
                if conditions.manual_dimming {
                    PendingBrightnessOperation::Dim {
                        brightness: conditions.empty_brightness,
                        next_state: DisplayDimmingState::UserDimmed,
                    }
                } else {
                    reconcile_pending_operation(
                        operation,
                        conditions.has_window,
                        conditions.empty_brightness,
                    )
                },
            );
            let step = apply_pending_operation(display);
            pass_pending(display, step, conditions)
        },
    }
}

/// Notes what a sweep at shutdown has come to.
fn conclude_shutdown(display: &mut DisplayState, step: SweepStep) -> (result: DisplayStep)
    ensures
        (final(display)@, result) == old(display)@.with_shutdown((old(display)@.targets, step)),
{
    match step {
        SweepStep::Finished { settled } => {
            if settled {
                display.dimming_state = DisplayDimmingState::Lit;
            }
            DisplayStep::Finished
        },
        SweepStep::Waiting { at } => DisplayStep::Waiting { errand: Errand::Shutdown, at },
    }
}

/// Starts a visit.
pub fn visit_display(display: &mut DisplayState, visit: Visit, conditions: Conditions) -> (step:
    DisplayStep)
    ensures
        (final(display)@, step) == old(display)@.visited(visit, conditions),
{
    match visit {
        Visit::Update => update_display_state(display, conditions),
        Visit::Request { operation } => last_step(request_operation(display, operation)),
        Visit::Shutdown => {
            display.pending_operation = None;
            let step = sweep(&mut display.targets, TargetCommand::RestoreForShutdown, 0, true);
            conclude_shutdown(display, step)
        },
    }
}

/// Goes on with a visit that waits, with the answer it waits for.
pub fn resume_visit(
    display: &mut DisplayState,
    conditions: Conditions,
    errand: Errand,
    at: Await,
    reply: MonitorReply,
) -> (step: DisplayStep)
    requires
        old(display)@.awaits(errand, at),
        reply.answers(at.stage),
    ensures
        (final(display)@, step) == old(display)@.visited_on(conditions, errand, at, reply),
{
    match errand {
        Errand::Pending => {
            let step = resume_pending_operation(display, at, reply);
            pass_pending(display, step, conditions)
        },
        Errand::Last => last_step(resume_pending_operation(display, at, reply)),
        Errand::Shutdown => {
            let step = resume_sweep(
                &mut display.targets,
                TargetCommand::RestoreForShutdown,
                at,
                reply,
            );
            conclude_shutdown(display, step)
        },
    }
}

/// A sweep waits only where it can.
pub(crate) proof fn lemma_swept_waits(
    targets: Seq<TargetView>,
    command: TargetCommand,
    from: int,
    settled: bool,
)
    requires
        targets.len() <= usize::MAX,
        0 <= from,
    ensures
        swept(targets, command, from, settled).0.len() == targets.len(),
        swept(targets, command, from, settled).1 matches SweepStep::Waiting { at } ==> can_wait(
            swept(targets, command, from, settled).0,
            command,
            at,
        ),
    decreases targets.len() - from,
{
    if from < targets.len() {
        let (target, step) = targets[from].opened(command);
        if step is Done {
            lemma_swept_waits(
                targets.update(from, target),
                command,
                from + 1,
                settled && step->settled,
            );
        }
    }
}

/// A sweep that goes on waits only where it can.
pub(crate) proof fn lemma_swept_on_waits(
    targets: Seq<TargetView>,
    command: TargetCommand,
    at: Await,
    reply: MonitorReply,
)
    requires
        targets.len() <= usize::MAX,
        can_wait(targets, command, at),
        reply.answers(at.stage),
    ensures
        swept_on(targets, command, at, reply).0.len() == targets.len(),
        swept_on(targets, command, at, reply).1 matches SweepStep::Waiting { at: next } ==> can_wait(
            swept_on(targets, command, at, reply).0,
            command,
            next,
        ),
{
    let (target, step) = targets[at.target as int].continued(command, at.stage, reply);
    if step is Done {
        lemma_swept_waits(
            targets.update(at.target as int, target),
            command,
            at.target + 1,
            at.settled && step->settled,
        );
    }
}

impl DisplayView {
    /// A visit that is at this step waits only where it can.
    pub open spec fn waits_well(self, step: DisplayStep) -> bool {
        step matches DisplayStep::Waiting { errand, at } ==> self.awaits(errand, at)
    }
}

/// Carrying out a pending operation waits only where it can.
proof fn lemma_applied_waits(display: DisplayView)
    requires
        display.targets.len() <= usize::MAX,
    ensures
        display.applied().0.targets.len() == display.targets.len(),
        display.applied().1 matches SweepStep::Waiting { at } ==> display.applied().0.awaits(
            Errand::Last,
            at,
        ) && display.applied().0.awaits(Errand::Pending, at),
{
    if let Some(operation) = display.pending_operation {
        lemma_swept_waits(display.targets, command_of(operation), 0, true);
    }
}

/// Bringing a display in line with the conditions waits only where it can.
pub(crate) proof fn lemma_settled_waits(display: DisplayView, conditions: Conditions)
    requires
        display.targets.len() <= usize::MAX,
    ensures
        display.settled(conditions).0.targets.len() == display.targets.len(),
        display.settled(conditions).0.waits_well(display.settled(conditions).1),
{
    if let Some(operation) = display.wanted(conditions) {
        lemma_applied_waits(DisplayView { pending_operation: Some(operation), ..display });
    }
}

/// A visit waits only where it can.
pub(crate) proof fn lemma_visit_waits(display: DisplayView, visit: Visit, conditions: Conditions)
    requires
        display.targets.len() <= usize::MAX,
    ensures
        display.visited(visit, conditions).0.targets.len() == display.targets.len(),
        display.visited(visit, conditions).0.waits_well(display.visited(visit, conditions).1),
{
    match visit {
        Visit::Update => {
            match display.pending_operation {
                None => lemma_settled_waits(display, conditions),
                Some(operation) => {
                    let revised = DisplayView {
                        pending_operation: Some(DisplayView::revised(operation, conditions)),
                        ..display
                    };
                    lemma_applied_waits(revised);
                    lemma_settled_waits(revised.applied().0, conditions);
                },
            }
        },
        Visit::Request { operation } => {
            lemma_applied_waits(DisplayView { pending_operation: Some(operation), ..display });
        },
        Visit::Shutdown => {
            lemma_swept_waits(display.targets, TargetCommand::RestoreForShutdown, 0, true);
        },
    }
}

/// A visit that goes on waits only where it can.
pub(crate) proof fn lemma_visit_on_waits(
    display: DisplayView,
    conditions: Conditions,
    errand: Errand,
    at: Await,
    reply: MonitorReply,
)
    requires
        display.targets.len() <= usize::MAX,
        display.awaits(errand, at),
        reply.answers(at.stage),
    ensures
        display.visited_on(conditions, errand, at, reply).0.targets.len() == display.targets.len(),
        display.visited_on(conditions, errand, at, reply).0.waits_well(
            display.visited_on(conditions, errand, at, reply).1,
        ),
{
    let command = display.errand_command(errand)->0;
    lemma_swept_on_waits(display.targets, command, at, reply);
    if errand is Pending {
        lemma_settled_waits(display.applied_on(at, reply).0, conditions);
    }
}

} // verus!
