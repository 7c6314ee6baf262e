//! What commands, operations and jobs come to once every question that they
//! ask has been answered.
//!
//! The answers are given as functions from the questions, so what is stated
//! here holds whatever the monitors answer.

use vstd::prelude::*;

use crate::brightness::DisplayDimmingState;
use crate::brightness::PendingBrightnessOperation;
use crate::display::can_wait;
use crate::display::command_of;
use crate::display::lemma_settled_waits;
use crate::display::lemma_swept_on_waits;
use crate::display::lemma_swept_waits;
use crate::display::lemma_visit_on_waits;
use crate::display::lemma_visit_waits;
use crate::display::swept;
use crate::display::swept_on;
use crate::display::Await;
use crate::display::Conditions;
use crate::display::DisplayStep;
use crate::display::DisplayView;
use crate::display::Errand;
use crate::display::SweepStep;
use crate::display::Visit;
use crate::manager::is_occupied;
use crate::manager::Job;
use crate::manager::ManagerView;
use crate::manager::OperationView;
use crate::target::MonitorReply;
use crate::target::Stage;
use crate::target::TargetCommand;
use crate::target::TargetStep;
use crate::target::TargetView;

verus! {

/// Each question gets an answer of its kind.
pub open spec fn to_the_point(answers: spec_fn(Stage) -> MonitorReply) -> bool {
    forall|stage: Stage| (#[trigger] answers(stage)).answers(stage)
}

impl TargetCommand {
    /// At most so many questions, this one included, are asked on a command
    /// before it is over.
    pub open spec fn questions(self, step: TargetStep) -> nat {
        match step {
            TargetStep::Done { .. } => 0,
            TargetStep::Ask { stage: Stage::Capabilities } => 2,
            TargetStep::Ask { stage: Stage::Reading } => if self is Probe {
                1
            } else {
                2
            },
            TargetStep::Ask { stage: Stage::Writing { .. } } => 1,
        }
    }
}

impl TargetView {
    /// What a conversation comes to that stands at a step, and whether it is
    /// settled then.
    pub open spec fn talked_on(
        self,
        command: TargetCommand,
        step: TargetStep,
        answers: spec_fn(Stage) -> MonitorReply,
    ) -> (TargetView, bool)
        decreases command.questions(step),
    {
        match step {
            TargetStep::Done { settled } => (self, settled),
            TargetStep::Ask { stage } => {
                let (target, next) = self.continued(command, stage, answers(stage));
                if command.questions(next) < command.questions(step) {
                    target.talked_on(command, next, answers)
                } else {
                    (target, false)
                }
            },
        }
    }

    /// What a command comes to, and whether it is settled then.
    pub open spec fn told(
        self,
        command: TargetCommand,
        answers: spec_fn(Stage) -> MonitorReply,
    ) -> (TargetView, bool) {
        let (target, step) = self.opened(command);
        target.talked_on(command, step, answers)
    }
}

/// A conversation ends: with each answer fewer questions are left, and there
/// are never more than two.
pub proof fn conversations_end(
    target: TargetView,
    command: TargetCommand,
    stage: Stage,
    reply: MonitorReply,
)
    requires
        command.may_await(stage),
        reply.answers(stage),
    ensures
        command.questions(target.opened(command).1) <= 2,
        command.questions(target.continued(command, stage, reply).1) < command.questions(
            TargetStep::Ask { stage },
        ),
{
}

/// Whatever is said in a conversation, it stays one with the same monitor.
pub proof fn conversations_keep_the_monitor(
    target: TargetView,
    command: TargetCommand,
    answers: spec_fn(Stage) -> MonitorReply,
)
    ensures
        target.told(command, answers).0.same_monitor(target),
{
    reveal_with_fuel(TargetView::talked_on, 3);
}

/// The answers to the questions about one of several targets.
pub open spec fn about(answers: spec_fn(int, Stage) -> MonitorReply, target: int) -> spec_fn(
    Stage,
) -> MonitorReply {
    |stage: Stage| answers(target, stage)
}

/// Each question about any target gets an answer of its kind.
pub open spec fn all_to_the_point(answers: spec_fn(int, Stage) -> MonitorReply) -> bool {
    forall|target: int, stage: Stage| (#[trigger] answers(target, stage)).answers(stage)
}

/// How many targets a sweep over so many still has to do with.
pub open spec fn targets_left(len: nat, step: SweepStep) -> int {
    match step {
        SweepStep::Finished { .. } => 0,
        SweepStep::Waiting { at } => len - at.target,
    }
}

/// How many questions are left of the conversation in which a sweep stands.
pub open spec fn questions_left(command: TargetCommand, step: SweepStep) -> nat {
    match step {
        SweepStep::Finished { .. } => 0,
        SweepStep::Waiting { at } => command.questions(TargetStep::Ask { stage: at.stage }),
    }
}

/// A sweep over so many targets is further at the second step than at the
/// first.
pub open spec fn further(
    len: nat,
    command: TargetCommand,
    first: SweepStep,
    second: SweepStep,
) -> bool {
    &&& 0 <= targets_left(len, second)
    &&& {
        ||| targets_left(len, second) < targets_left(len, first)
        ||| targets_left(len, second) == targets_left(len, first) && questions_left(command, second)
            < questions_left(command, first)
    }
}

/// What a sweep comes to that stands at a step, and whether all targets are
/// settled then.
pub open spec fn swept_through(
    targets: Seq<TargetView>,
    command: TargetCommand,
    step: SweepStep,
    answers: spec_fn(int, Stage) -> MonitorReply,
) -> (Seq<TargetView>, bool)
    decreases targets_left(targets.len(), step), questions_left(command, step),
{
    match step {
        SweepStep::Finished { settled } => (targets, settled),
        SweepStep::Waiting { at } => {
            let (visited, next) = swept_on(
                targets,
                command,
                at,
                answers(at.target as int, at.stage),
            );
            if visited.len() == targets.len() && further(targets.len(), command, step, next) {
                swept_through(visited, command, next, answers)
            } else {
                (visited, false)
            }
        },
    }
}

/// The targets from the place `from` on told a command one after the other,
/// and whether all of them are settled then.
pub open spec fn told_each(
    targets: Seq<TargetView>,
    command: TargetCommand,
    from: int,
    settled: bool,
    answers: spec_fn(int, Stage) -> MonitorReply,
) -> (Seq<TargetView>, bool)
    decreases targets.len() - from,
{
    if from < 0 || from >= targets.len() {
        (targets, settled)
    } else {
        let (target, done) = targets[from].told(command, about(answers, from));
        told_each(targets.update(from, target), command, from + 1, settled && done, answers)
    }
}

/// A sweep that has gone on stands no further back than where it went on from.
pub(crate) proof fn lemma_swept_goes_on(
    targets: Seq<TargetView>,
    command: TargetCommand,
    from: int,
    settled: bool,
)
    requires
        targets.len() <= usize::MAX,
        0 <= from <= targets.len(),
    ensures
        swept(targets, command, from, settled).0.len() == targets.len(),
        0 <= targets_left(targets.len(), swept(targets, command, from, settled).1)
            <= targets.len() - from,
        swept(targets, command, from, settled).1 matches SweepStep::Waiting { at }
            ==> command.may_await(at.stage),
    decreases targets.len() - from,
{
    if from < targets.len() {
        let (target, step) = targets[from].opened(command);
        if step is Done {
            lemma_swept_goes_on(
                targets.update(from, target),
                command,
                from + 1,
                settled && step->settled,
            );
        }
    }
}

/// A sweep tells the targets the command one after the other.
pub(crate) proof fn lemma_sweep_tells_each(
    targets: Seq<TargetView>,
    command: TargetCommand,
    from: int,
    settled: bool,
    answers: spec_fn(int, Stage) -> MonitorReply,
)
    requires
        targets.len() <= usize::MAX,
        0 <= from <= targets.len(),
        all_to_the_point(answers),
    ensures
        ({
            let (visited, step) = swept(targets, command, from, settled);
            swept_through(visited, command, step, answers) == told_each(
                targets,
                command,
                from,
                settled,
                answers,
            )
        }),
    decreases targets.len() - from, 3nat,
{
    if from < targets.len() {
        let (target, step) = targets[from].opened(command);
        let visited = targets.update(from, target);
        assert(visited[from] == target);
        match step {
            TargetStep::Done { settled: done } => {
                lemma_sweep_tells_each(visited, command, from + 1, settled && done, answers);
            },
            TargetStep::Ask { stage } => {
                lemma_sweep_goes_on(
                    visited,
                    command,
                    Await { target: from as usize, settled, stage },
                    answers,
                );
                let (told, _) = target.talked_on(command, step, about(answers, from));
                assert(visited.update(from, told) == targets.update(from, told));
            },
        }
    }
}

/// A sweep that waits ends the conversation that it stands in, and tells the
/// targets behind that one the command.
proof fn lemma_sweep_goes_on(
    targets: Seq<TargetView>,
    command: TargetCommand,
    at: Await,
    answers: spec_fn(int, Stage) -> MonitorReply,
)
    requires
        targets.len() <= usize::MAX,
        at.target < targets.len(),
        command.may_await(at.stage),
        all_to_the_point(answers),
    ensures
        ({
            let from = at.target as int;
            let (target, done) = targets[from].talked_on(
                command,
                TargetStep::Ask { stage: at.stage },
                about(answers, from),
            );
            swept_through(targets, command, SweepStep::Waiting { at }, answers) == told_each(
                targets.update(from, target),
                command,
                from + 1,
                at.settled && done,
                answers,
            )
        }),
    decreases
            targets.len() - at.target,
            command.questions(TargetStep::Ask { stage: at.stage }),
{
    let from = at.target as int;
    let reply = answers(from, at.stage);
    conversations_end(targets[from], command, at.stage, reply);
    let (target, step) = targets[from].continued(command, at.stage, reply);
    let visited = targets.update(from, target);
    assert(visited[from] == target);
    assert(about(answers, from)(at.stage) == reply);
    match step {
        TargetStep::Done { settled: done } => {
            lemma_swept_goes_on(visited, command, from + 1, at.settled && done);
            assert(target.talked_on(command, step, about(answers, from)) == (target, done));
            lemma_sweep_tells_each(visited, command, from + 1, at.settled && done, answers);
        },
        TargetStep::Ask { stage } => {
            lemma_sweep_goes_on(visited, command, Await { stage, ..at }, answers);
            let (told, _) = target.talked_on(command, step, about(answers, from));
            assert(visited.update(from, told) == targets.update(from, told));
        },
    }
}

/// Targets are told a command each by itself.
pub(crate) proof fn lemma_told_each(
    targets: Seq<TargetView>,
    command: TargetCommand,
    from: int,
    settled: bool,
    answers: spec_fn(int, Stage) -> MonitorReply,
)
    requires
        0 <= from <= targets.len(),
    ensures
        ({
            let (told, all) = told_each(targets, command, from, settled, answers);
            &&& told.len() == targets.len()
            &&& forall|i: int| 0 <= i < from ==> #[trigger] told[i] == targets[i]
            &&& forall|i: int|
                from <= i < targets.len() ==> #[trigger] told[i] == targets[i].told(
                    command,
                    about(answers, i),
                ).0
            &&& all <==> settled && forall|i: int|
                from <= i < targets.len() ==> (#[trigger] targets[i]).told(
                    command,
                    about(answers, i),
                ).1
        }),
    decreases targets.len() - from,
{
    if from < targets.len() {
        let (target, done) = targets[from].told(command, about(answers, from));
        let visited = targets.update(from, target);
        lemma_told_each(visited, command, from + 1, settled && done, answers);
        let (told, all) = told_each(targets, command, from, settled, answers);
        assert(told[from] == visited[from]);
        assert forall|i: int| from <= i < targets.len() implies #[trigger] told[i]
            == targets[i].told(command, about(answers, i)).0 by {
            if i > from {
                assert(visited[i] == targets[i]);
            }
        }
        if all {
            assert forall|i: int| from <= i < targets.len() implies (#[trigger] targets[i]).told(
                command,
                about(answers, i),
            ).1 by {
                if i > from {
                    assert(visited[i] == targets[i]);
                }
            }
        }
        if settled && forall|i: int|
            from <= i < targets.len() ==> (#[trigger] targets[i]).told(
                command,
                about(answers, i),
            ).1 {
            assert(targets[from].told(command, about(answers, from)).1);
            assert forall|i: int| from < i < targets.len() implies (#[trigger] visited[i]).told(
                command,
                about(answers, i),
            ).1 by {
                assert(visited[i] == targets[i]);
            }
        }
    }
}

/// A sweep tells each target the command by itself, whatever the others answer:
/// no target is left out because another one fails. All are settled exactly
/// when each is.
pub proof fn sweeps_tell_each_target(
    targets: Seq<TargetView>,
    command: TargetCommand,
    answers: spec_fn(int, Stage) -> MonitorReply,
)
    requires
        targets.len() <= usize::MAX,
        all_to_the_point(answers),
    ensures
        ({
            let (visited, step) = swept(targets, command, 0, true);
            let (told, all) = swept_through(visited, command, step, answers);
            &&& told.len() == targets.len()
            &&& forall|i: int|
                0 <= i < targets.len() ==> #[trigger] told[i] == targets[i].told(
                    command,
                    about(answers, i),
                ).0
            &&& all <==> forall|i: int|
                0 <= i < targets.len() ==> (#[trigger] targets[i]).told(
                    command,
                    about(answers, i),
                ).1
        }),
{
    lemma_sweep_tells_each(targets, command, 0, true, answers);
    lemma_told_each(targets, command, 0, true, answers);
}

/// The answers to the questions of one errand.
pub open spec fn on_errand(
    answers: spec_fn(Errand, int, Stage) -> MonitorReply,
    errand: Errand,
) -> spec_fn(int, Stage) -> MonitorReply {
    |target: int, stage: Stage| answers(errand, target, stage)
}

/// Each question of a visit gets an answer of its kind.
pub open spec fn visit_to_the_point(answers: spec_fn(Errand, int, Stage) -> MonitorReply) -> bool {
    forall|errand: Errand, target: int, stage: Stage|
        (#[trigger] answers(errand, target, stage)).answers(stage)
}

impl DisplayView {
    /// What the pending operation comes to, and whether it is done then.
    pub open spec fn applied_through(self, answers: spec_fn(int, Stage) -> MonitorReply) -> (
        DisplayView,
        bool,
    ) {
        match self.pending_operation {
            None => (self, true),
            Some(operation) => {
                let (targets, done) = told_each(
                    self.targets,
                    command_of(operation),
                    0,
                    true,
                    answers,
                );
                (
                    if done {
                        DisplayView {
                            targets,
                            dimming_state: operation.leads_to(),
                            pending_operation: None,
                            ..self
                        }
                    } else {
                        DisplayView { targets, ..self }
                    },
                    done,
                )
            },
        }
    }

    /// What an operation that is asked for comes to.
    pub open spec fn requested_through(
        self,
        operation: PendingBrightnessOperation,
        answers: spec_fn(int, Stage) -> MonitorReply,
    ) -> DisplayView {
        if self.targets.len() == 0 {
            self.bare()
        } else {
            (DisplayView { pending_operation: Some(operation), ..self }).applied_through(answers).0
        }
    }

    /// What comes of bringing a display on which nothing is pending in line
    /// with the conditions.
    pub open spec fn settled_through(
        self,
        conditions: Conditions,
        answers: spec_fn(int, Stage) -> MonitorReply,
    ) -> DisplayView {
        match self.wanted(conditions) {
            Some(operation) => self.requested_through(operation, answers),
            None => DisplayView { dimming_state: self.relabelled(conditions), ..self },
        }
    }

    /// What comes of bringing a display in line with the conditions.
    pub open spec fn updated_through(
        self,
        conditions: Conditions,
        answers: spec_fn(Errand, int, Stage) -> MonitorReply,
    ) -> DisplayView {
        if self.targets.len() == 0 {
            self.bare()
        } else {
            match self.pending_operation {
                None => self.settled_through(conditions, on_errand(answers, Errand::Last)),
                Some(operation) => {
                    let (applied, done) = (DisplayView {
                        pending_operation: Some(DisplayView::revised(operation, conditions)),
                        ..self
                    }).applied_through(on_errand(answers, Errand::Pending));
                    if done {
                        applied.settled_through(conditions, on_errand(answers, Errand::Last))
                    } else {
                        applied
                    }
                },
            }
        }
    }

    /// What comes of returning a display's monitors to their earlier levels for
    /// the last time.
    pub open spec fn shut_down_through(self, answers: spec_fn(int, Stage) -> MonitorReply) -> DisplayView {
        let (targets, restored) = told_each(
            self.targets,
            TargetCommand::RestoreForShutdown,
            0,
            true,
            answers,
        );
        DisplayView {
            targets,
            pending_operation: None,
            dimming_state: if restored {
                DisplayDimmingState::Lit
            } else {
                self.dimming_state
            },
            ..self
        }
    }

    /// What a visit comes to.
    pub open spec fn visited_through(
        self,
        visit: Visit,
        conditions: Conditions,
        answers: spec_fn(Errand, int, Stage) -> MonitorReply,
    ) -> DisplayView {
        match visit {
            Visit::Update => self.updated_through(conditions, answers),
            Visit::Request { operation } => self.requested_through(
                operation,
                on_errand(answers, Errand::Last),
            ),
            Visit::Shutdown => self.shut_down_through(on_errand(answers, Errand::Shutdown)),
        }
    }

    /// Whether a further operation may follow the one that a visit stands in.
    pub open spec fn errands_left(step: DisplayStep) -> nat {
        match step {
            DisplayStep::Finished => 0,
            DisplayStep::Waiting { errand, .. } => if errand is Pending {
                1
            } else {
                0
            },
        }
    }

    /// The sweep that a visit stands in.
    pub open spec fn sweep_of(step: DisplayStep) -> SweepStep {
        match step {
            DisplayStep::Finished => SweepStep::Finished { settled: true },
            DisplayStep::Waiting { at, .. } => SweepStep::Waiting { at },
        }
    }

    /// How many questions are left of the conversation in which a visit stands.
    pub open spec fn visit_questions(self, step: DisplayStep) -> nat {
        match step {
            DisplayStep::Finished => 0,
            DisplayStep::Waiting { errand, at } => match self.errand_command(errand) {
                Some(command) => command.questions(TargetStep::Ask { stage: at.stage }),
                None => 0,
            },
        }
    }

    /// A visit is further at the second step, on the second display, than at
    /// the first.
    pub open spec fn visit_further(
        self,
        step: DisplayStep,
        next: DisplayView,
        next_step: DisplayStep,
    ) -> bool {
        let left = targets_left(self.targets.len(), DisplayView::sweep_of(step));
        let next_left = targets_left(next.targets.len(), DisplayView::sweep_of(next_step));
        &&& 0 <= next_left
        &&& {
            ||| DisplayView::errands_left(next_step) < DisplayView::errands_left(step)
            ||| DisplayView::errands_left(next_step) == DisplayView::errands_left(step) && {
                ||| next_left < left
                ||| next_left == left && next.visit_questions(next_step) < self.visit_questions(step)
            }
        }
    }

    /// What a visit comes to that stands at a step.
    pub open spec fn visited_on_through(
        self,
        conditions: Conditions,
        step: DisplayStep,
        answers: spec_fn(Errand, int, Stage) -> MonitorReply,
    ) -> DisplayView
        decreases
                DisplayView::errands_left(step),
                targets_left(self.targets.len(), DisplayView::sweep_of(step)),
                self.visit_questions(step),
    {
        match step {
            DisplayStep::Finished => self,
            DisplayStep::Waiting { errand, at } => {
                let (display, next) = self.visited_on(
                    conditions,
                    errand,
                    at,
                    answers(errand, at.target as int, at.stage),
                );
                if self.visit_further(step, display, next) {
                    display.visited_on_through(conditions, next, answers)
                } else {
                    display
                }
            },
        }
    }
}

/// A sweep that goes on gets further.
pub(crate) proof fn lemma_sweep_gets_further(
    targets: Seq<TargetView>,
    command: TargetCommand,
    at: Await,
    reply: MonitorReply,
)
    requires
        targets.len() <= usize::MAX,
        can_wait(targets, command, at),
        reply.answers(at.stage),
    ensures
        ({
            let (visited, next) = swept_on(targets, command, at, reply);
            &&& visited.len() == targets.len()
            &&& further(targets.len(), command, SweepStep::Waiting { at }, next)
            &&& next matches SweepStep::Waiting { at: later } ==> can_wait(visited, command, later)
        }),
{
    conversations_end(targets[at.target as int], command, at.stage, reply);
    lemma_swept_on_waits(targets, command, at, reply);
    let (target, step) = targets[at.target as int].continued(command, at.stage, reply);
    if step is Done {
        lemma_swept_goes_on(
            targets.update(at.target as int, target),
            command,
            at.target + 1,
            at.settled && step->settled,
        );
    }
}

impl DisplayView {
    /// The display once a sweep for the pending operation is over.
    pub open spec fn after_sweep(self, sweep: (Seq<TargetView>, bool)) -> DisplayView {
        self.with_sweep((sweep.0, SweepStep::Finished { settled: sweep.1 }))
    }
}

/// A visit that waits in its last operation ends as the sweep does.
proof fn lemma_last_errand(
    display: DisplayView,
    conditions: Conditions,
    at: Await,
    answers: spec_fn(Errand, int, Stage) -> MonitorReply,
)
    requires
        display.targets.len() <= usize::MAX,
        display.awaits(Errand::Last, at),
        visit_to_the_point(answers),
    ensures
        display.visited_on_through(
            conditions,
            DisplayStep::Waiting { errand: Errand::Last, at },
            answers,
        ) == display.after_sweep(
            swept_through(
                display.targets,
                command_of(display.pending_operation->0),
                SweepStep::Waiting { at },
                on_errand(answers, Errand::Last),
            ),
        ),
    decreases
            display.targets.len() - at.target,
            command_of(display.pending_operation->0).questions(TargetStep::Ask { stage: at.stage }),
{
    let command = command_of(display.pending_operation->0);
    let reply = answers(Errand::Last, at.target as int, at.stage);
    assert(on_errand(answers, Errand::Last)(at.target as int, at.stage) == reply);
    lemma_sweep_gets_further(display.targets, command, at, reply);
    let (visited, next) = swept_on(display.targets, command, at, reply);
    let step = DisplayStep::Waiting { errand: Errand::Last, at };
    let (later, later_step) = display.visited_on(conditions, Errand::Last, at, reply);
    assert(display.visit_further(step, later, later_step));
    match next {
        SweepStep::Finished { settled } => {
            assert(later.visited_on_through(conditions, later_step, answers) == later);
            assert(swept_through(
                visited,
                command,
                next,
                on_errand(answers, Errand::Last),
            ) == (visited, settled));
        },
        SweepStep::Waiting { at: place } => {
            lemma_last_errand(later, conditions, place, answers);
        },
    }
}

/// A visit that waits at shutdown ends as the sweep does.
proof fn lemma_shutdown_errand(
    display: DisplayView,
    conditions: Conditions,
    at: Await,
    answers: spec_fn(Errand, int, Stage) -> MonitorReply,
)
    requires
        display.targets.len() <= usize::MAX,
        display.awaits(Errand::Shutdown, at),
        visit_to_the_point(answers),
    ensures
        ({
            let (targets, restored) = swept_through(
                display.targets,
                TargetCommand::RestoreForShutdown,
                SweepStep::Waiting { at },
                on_errand(answers, Errand::Shutdown),
            );
            display.visited_on_through(
                conditions,
                DisplayStep::Waiting { errand: Errand::Shutdown, at },
                answers,
            ) == display.with_shutdown((targets, SweepStep::Finished { settled: restored })).0
        }),
    decreases
            display.targets.len() - at.target,
            TargetCommand::RestoreForShutdown.questions(TargetStep::Ask { stage: at.stage }),
{
    let command = TargetCommand::RestoreForShutdown;
    let reply = answers(Errand::Shutdown, at.target as int, at.stage);
    assert(on_errand(answers, Errand::Shutdown)(at.target as int, at.stage) == reply);
    lemma_sweep_gets_further(display.targets, command, at, reply);
    let (visited, next) = swept_on(display.targets, command, at, reply);
    let step = DisplayStep::Waiting { errand: Errand::Shutdown, at };
    let (later, later_step) = display.visited_on(conditions, Errand::Shutdown, at, reply);
    assert(display.visit_further(step, later, later_step));
    match next {
        SweepStep::Finished { settled } => {
            assert(later.visited_on_through(conditions, later_step, answers) == later);
            assert(swept_through(
                visited,
                command,
                next,
                on_errand(answers, Errand::Shutdown),
            ) == (visited, settled));
        },
        SweepStep::Waiting { at: place } => {
            lemma_shutdown_errand(later, conditions, place, answers);
        },
    }
}

/// A visit whose last operation has just begun ends as the operation does.
proof fn lemma_last_operation(
    display: DisplayView,
    conditions: Conditions,
    answers: spec_fn(Errand, int, Stage) -> MonitorReply,
)
    requires
        display.targets.len() <= usize::MAX,
        display.pending_operation is Some,
        visit_to_the_point(answers),
    ensures
        ({
            let (begun, step) = DisplayView::ending(display.applied());
            begun.visited_on_through(conditions, step, answers) == display.applied_through(
                on_errand(answers, Errand::Last),
            ).0
        }),
{
    let command = command_of(display.pending_operation->0);
    let last = on_errand(answers, Errand::Last);
    assert(all_to_the_point(last));
    lemma_sweep_tells_each(display.targets, command, 0, true, last);
    lemma_swept_waits(display.targets, command, 0, true);
    let (visited, sweep) = swept(display.targets, command, 0, true);
    let (begun, step) = DisplayView::ending(display.applied());
    match sweep {
        SweepStep::Finished { settled } => {
            assert(swept_through(visited, command, sweep, last) == (visited, settled));
            assert(begun.visited_on_through(conditions, step, answers) == begun);
        },
        SweepStep::Waiting { at } => {
            lemma_last_errand(begun, conditions, at, answers);
        },
    }
}

/// Bringing a display on which nothing is pending in line with the conditions
/// ends as it should.
proof fn lemma_settling(
    display: DisplayView,
    conditions: Conditions,
    answers: spec_fn(Errand, int, Stage) -> MonitorReply,
)
    requires
        display.targets.len() <= usize::MAX,
        visit_to_the_point(answers),
    ensures
        ({
            let (begun, step) = display.settled(conditions);
            begun.visited_on_through(conditions, step, answers) == display.settled_through(
                conditions,
                on_errand(answers, Errand::Last),
            )
        }),
{
    let (begun, step) = display.settled(conditions);
    match display.wanted(conditions) {
        Some(operation) => {
            if display.targets.len() == 0 {
                assert(begun.visited_on_through(conditions, step, answers) == begun);
            } else {
                lemma_last_operation(
                    DisplayView { pending_operation: Some(operation), ..display },
                    conditions,
                    answers,
                );
            }
        },
        None => {
            assert(begun.visited_on_through(conditions, step, answers) == begun);
        },
    }
}

/// What is left of an update once the operation that was pending is over.
pub open spec fn updated_further(
    applied: (DisplayView, bool),
    conditions: Conditions,
    answers: spec_fn(Errand, int, Stage) -> MonitorReply,
) -> DisplayView {
    if applied.1 {
        applied.0.settled_through(conditions, on_errand(answers, Errand::Last))
    } else {
        applied.0
    }
}

/// An update that waits in the operation that was pending goes on as it should.
proof fn lemma_pending_errand(
    display: DisplayView,
    conditions: Conditions,
    at: Await,
    answers: spec_fn(Errand, int, Stage) -> MonitorReply,
)
    requires
        display.targets.len() <= usize::MAX,
        display.awaits(Errand::Pending, at),
        visit_to_the_point(answers),
    ensures
        ({
            let sweep = swept_through(
                display.targets,
                command_of(display.pending_operation->0),
                SweepStep::Waiting { at },
                on_errand(answers, Errand::Pending),
            );
            display.visited_on_through(
                conditions,
                DisplayStep::Waiting { errand: Errand::Pending, at },
                answers,
            ) == updated_further((display.after_sweep(sweep), sweep.1), conditions, answers)
        }),
    decreases
            display.targets.len() - at.target,
            command_of(display.pending_operation->0).questions(TargetStep::Ask { stage: at.stage }),
{
    let command = command_of(display.pending_operation->0);
    let reply = answers(Errand::Pending, at.target as int, at.stage);
    assert(on_errand(answers, Errand::Pending)(at.target as int, at.stage) == reply);
    lemma_sweep_gets_further(display.targets, command, at, reply);
    let (visited, next) = swept_on(display.targets, command, at, reply);
    let step = DisplayStep::Waiting { errand: Errand::Pending, at };
    let (later, later_step) = display.visited_on(conditions, Errand::Pending, at, reply);
    match next {
        SweepStep::Finished { settled } => {
            assert(swept_through(
                visited,
                command,
                next,
                on_errand(answers, Errand::Pending),
            ) == (visited, settled));
            let over = display.with_sweep((visited, next));
            if settled {
                lemma_settling(over, conditions, answers);
                lemma_settled_waits(over, conditions);
            } else {
                assert(later.visited_on_through(conditions, later_step, answers) == later);
            }
            assert(display.visit_further(step, later, later_step));
        },
        SweepStep::Waiting { at: place } => {
            assert(display.visit_further(step, later, later_step));
            lemma_pending_errand(later, conditions, place, answers);
        },
    }
}

/// A visit that is given all its answers comes to what doing everything in
/// order would come to: first the operation that is pending, as it is to be
/// now; then, if that is done, whatever else the conditions call for.
pub proof fn visits_come_to_their_end(
    display: DisplayView,
    visit: Visit,
    conditions: Conditions,
    answers: spec_fn(Errand, int, Stage) -> MonitorReply,
)
    requires
        display.targets.len() <= usize::MAX,
        visit_to_the_point(answers),
    ensures
        ({
            let (begun, step) = display.visited(visit, conditions);
            begun.visited_on_through(conditions, step, answers) == display.visited_through(
                visit,
                conditions,
                answers,
            )
        }),
{
    let (begun, step) = display.visited(visit, conditions);
    if step is Finished {
        assert(begun.visited_on_through(conditions, step, answers) == begun);
    }
    match visit {
        Visit::Update => {
            if display.targets.len() > 0 {
                match display.pending_operation {
                    None => lemma_settling(display, conditions, answers),
                    Some(operation) => {
                        let revised = DisplayView {
                            pending_operation: Some(DisplayView::revised(operation, conditions)),
                            ..display
                        };
                        let command = command_of(revised.pending_operation->0);
                        let pending = on_errand(answers, Errand::Pending);
                        assert(all_to_the_point(pending));
                        lemma_sweep_tells_each(revised.targets, command, 0, true, pending);
                        lemma_swept_waits(revised.targets, command, 0, true);
                        let (visited, sweep) = swept(revised.targets, command, 0, true);
                        match sweep {
                            SweepStep::Finished { settled } => {
                                assert(swept_through(visited, command, sweep, pending) == (
                                    visited,
                                    settled,
                                ));
                                if settled {
                                    lemma_settling(revised.applied().0, conditions, answers);
                                }
                            },
                            SweepStep::Waiting { at } => {
                                lemma_pending_errand(begun, conditions, at, answers);
                            },
                        }
                    },
                }
            }
        },
        Visit::Request { operation } => {
            if display.targets.len() > 0 {
                lemma_last_operation(
                    DisplayView { pending_operation: Some(operation), ..display },
                    conditions,
                    answers,
                );
            }
        },
        Visit::Shutdown => {
            let command = TargetCommand::RestoreForShutdown;
            let shutdown = on_errand(answers, Errand::Shutdown);
            assert(all_to_the_point(shutdown));
            lemma_sweep_tells_each(display.targets, command, 0, true, shutdown);
            lemma_swept_waits(display.targets, command, 0, true);
            let (visited, sweep) = swept(display.targets, command, 0, true);
            match sweep {
                SweepStep::Finished { settled } => {
                    assert(swept_through(visited, command, sweep, shutdown) == (visited, settled));
                },
                SweepStep::Waiting { at } => {
                    lemma_shutdown_errand(begun, conditions, at, answers);
                },
            }
        },
    }
}

/// A visit that goes on gets further.
proof fn lemma_visit_gets_further(
    display: DisplayView,
    conditions: Conditions,
    errand: Errand,
    at: Await,
    reply: MonitorReply,
)
    requires
        display.targets.len() <= usize::MAX,
        display.awaits(errand, at),
        reply.answers(at.stage),
    ensures
        ({
            let (later, step) = display.visited_on(conditions, errand, at, reply);
            &&& display.visit_further(DisplayStep::Waiting { errand, at }, later, step)
            &&& later.targets.len() == display.targets.len()
            &&& later.waits_well(step)
        }),
{
    let command = display.errand_command(errand)->0;
    lemma_sweep_gets_further(display.targets, command, at, reply);
    lemma_visit_on_waits(display, conditions, errand, at, reply);
    if errand is Pending {
        lemma_settled_waits(display.applied_on(at, reply).0, conditions);
    }
}

/// The answers to the questions about one of several displays.
pub open spec fn for_display(
    answers: spec_fn(int, Errand, int, Stage) -> MonitorReply,
    display: int,
) -> spec_fn(Errand, int, Stage) -> MonitorReply {
    |errand: Errand, target: int, stage: Stage| answers(display, errand, target, stage)
}

/// Each question of a job gets an answer of its kind.
pub open spec fn job_to_the_point(
    answers: spec_fn(int, Errand, int, Stage) -> MonitorReply,
) -> bool {
    forall|display: int, errand: Errand, target: int, stage: Stage|
        (#[trigger] answers(display, errand, target, stage)).answers(stage)
}

impl OperationView {
    /// The step of a visit that the job waits at.
    pub open spec fn visit_step(self) -> DisplayStep {
        DisplayStep::Waiting { errand: self.errand, at: self.at }
    }
}

impl ManagerView {
    /// No display has more targets than can be counted.
    pub open spec fn countable(self) -> bool {
        forall|i: int|
            0 <= i < self.displays.len() ==> (#[trigger] self.displays[i]).targets.len()
                <= usize::MAX
    }

    /// How many displays a job still has to do with.
    pub open spec fn displays_left(self, operation: Option<OperationView>) -> int {
        match operation {
            None => 0,
            Some(operation) => self.displays.len() - operation.display,
        }
    }

    /// A job is further at the second operation than at the first.
    pub open spec fn job_further(
        self,
        operation: OperationView,
        next: ManagerView,
        next_operation: Option<OperationView>,
    ) -> bool {
        &&& 0 <= next.displays_left(next_operation)
        &&& {
            ||| next.displays_left(next_operation) < self.displays_left(Some(operation))
            ||| next_operation matches Some(later) && next.displays_left(next_operation)
                == self.displays_left(Some(operation))
                && self.displays[operation.display].visit_further(
                operation.visit_step(),
                next.displays[later.display],
                later.visit_step(),
            )
        }
    }

    /// What a job comes to that waits.
    pub open spec fn advanced_through(
        self,
        operation: Option<OperationView>,
        answers: spec_fn(int, Errand, int, Stage) -> MonitorReply,
    ) -> ManagerView
        decreases
                self.displays_left(operation),
                (match operation {
                    Some(operation) => DisplayView::errands_left(operation.visit_step()),
                    None => 0,
                }),
                (match operation {
                    Some(operation) => targets_left(
                        self.displays[operation.display].targets.len(),
                        SweepStep::Waiting { at: operation.at },
                    ),
                    None => 0,
                }),
                (match operation {
                    Some(operation) => self.displays[operation.display].visit_questions(
                        operation.visit_step(),
                    ),
                    None => 0,
                }),
    {
        match operation {
            None => self,
            Some(operation) => {
                let (next, later) = self.advanced_on(
                    operation,
                    answers(
                        operation.display,
                        operation.errand,
                        operation.at.target as int,
                        operation.at.stage,
                    ),
                );
                if self.job_further(operation, next, later) {
                    next.advanced_through(later, answers)
                } else {
                    next
                }
            },
        }
    }

    /// What a job makes of one display.
    pub open spec fn visit_through(
        self,
        job: Job,
        occupied: Seq<bool>,
        at: int,
        answers: spec_fn(int, Errand, int, Stage) -> MonitorReply,
    ) -> DisplayView {
        self.displays[at].visited_through(
            job.visit(self.settings.empty_brightness, is_occupied(occupied, at)),
            self.conditions(is_occupied(occupied, at)),
            for_display(answers, at),
        )
    }

    /// The displays from the place `from` on visited one after the other.
    pub open spec fn visited_each(
        self,
        job: Job,
        occupied: Seq<bool>,
        from: int,
        answers: spec_fn(int, Errand, int, Stage) -> MonitorReply,
    ) -> ManagerView
        decreases self.displays.len() - from,
    {
        if from < 0 || from >= self.displays.len() {
            self
        } else {
            self.with_display(from, self.visit_through(job, occupied, from, answers)).visited_each(
                job,
                occupied,
                from + 1,
                answers,
            )
        }
    }
}

/// A job that has gone on stands no further back than where it went on from.
proof fn lemma_advanced_goes_on(manager: ManagerView, job: Job, occupied: Seq<bool>, from: int)
    requires
        manager.countable(),
        0 <= from <= manager.displays.len(),
    ensures
        ({
            let (next, operation) = manager.advanced(job, occupied, from);
            &&& next.displays.len() == manager.displays.len()
            &&& next.countable()
            &&& operation matches Some(operation) ==> next.awaits(operation) && operation.display
                >= from && operation.job == job && operation.occupied == occupied
        }),
    decreases manager.displays.len() - from,
{
    if from < manager.displays.len() {
        let has_window = is_occupied(occupied, from);
        let visit = job.visit(manager.settings.empty_brightness, has_window);
        lemma_visit_waits(manager.displays[from], visit, manager.conditions(has_window));
        let (display, step) = manager.displays[from].visited(visit, manager.conditions(has_window));
        let next = manager.with_display(from, display);
        assert(next.countable());
        assert(next.displays[from] == display);
        if step is Finished {
            lemma_advanced_goes_on(next, job, occupied, from + 1);
        }
    }
}

/// A job visits the displays one after the other.
proof fn lemma_job_visits_each(
    manager: ManagerView,
    job: Job,
    occupied: Seq<bool>,
    from: int,
    answers: spec_fn(int, Errand, int, Stage) -> MonitorReply,
)
    requires
        manager.countable(),
        0 <= from <= manager.displays.len(),
        job_to_the_point(answers),
    ensures
        ({
            let (next, operation) = manager.advanced(job, occupied, from);
            next.advanced_through(operation, answers) == manager.visited_each(
                job,
                occupied,
                from,
                answers,
            )
        }),
    decreases manager.displays.len() - from, 2nat, 0int, 0nat,
{
    if from < manager.displays.len() {
        let has_window = is_occupied(occupied, from);
        let visit = job.visit(manager.settings.empty_brightness, has_window);
        let conditions = manager.conditions(has_window);
        lemma_visit_waits(manager.displays[from], visit, conditions);
        assert(visit_to_the_point(for_display(answers, from)));
        visits_come_to_their_end(
            manager.displays[from],
            visit,
            conditions,
            for_display(answers, from),
        );
        let (display, step) = manager.displays[from].visited(visit, conditions);
        let next = manager.with_display(from, display);
        assert(next.countable());
        assert(next.displays[from] == display);
        match step {
            DisplayStep::Finished => {
                assert(display.visited_on_through(conditions, step, for_display(answers, from))
                    == display);
                lemma_job_visits_each(next, job, occupied, from + 1, answers);
            },
            DisplayStep::Waiting { errand, at } => {
                let operation = OperationView { job, occupied, display: from, errand, at };
                lemma_job_goes_on(next, operation, answers);
                let done = manager.visit_through(job, occupied, from, answers);
                assert(next.with_display(from, done) == manager.with_display(from, done));
            },
        }
    }
}

/// A job that waits ends the visit that it stands in, and visits the displays
/// behind that one.
proof fn lemma_job_goes_on(
    manager: ManagerView,
    operation: OperationView,
    answers: spec_fn(int, Errand, int, Stage) -> MonitorReply,
)
    requires
        manager.countable(),
        manager.awaits(operation),
        job_to_the_point(answers),
    ensures
        ({
            let from = operation.display;
            let done = manager.displays[from].visited_on_through(
                manager.conditions(is_occupied(operation.occupied, from)),
                operation.visit_step(),
                for_display(answers, from),
            );
            manager.advanced_through(Some(operation), answers) == manager.with_display(
                from,
                done,
            ).visited_each(operation.job, operation.occupied, from + 1, answers)
        }),
    decreases
            manager.displays.len() - operation.display,
            DisplayView::errands_left(operation.visit_step()),
            targets_left(
                manager.displays[operation.display].targets.len(),
                SweepStep::Waiting { at: operation.at },
            ),
            manager.displays[operation.display].visit_questions(operation.visit_step()),
{
    let from = operation.display;
    let display = manager.displays[from];
    let conditions = manager.conditions(is_occupied(operation.occupied, from));
    let reply = answers(from, operation.errand, operation.at.target as int, operation.at.stage);
    assert(for_display(answers, from)(
        operation.errand,
        operation.at.target as int,
        operation.at.stage,
    ) == reply);
    lemma_visit_gets_further(display, conditions, operation.errand, operation.at, reply);
    let (later, step) = display.visited_on(conditions, operation.errand, operation.at, reply);
    let next = manager.with_display(from, later);
    assert(next.countable());
    assert(next.displays[from] == later);
    let done = display.visited_on_through(
        conditions,
        operation.visit_step(),
        for_display(answers, from),
    );
    assert(done == later.visited_on_through(conditions, step, for_display(answers, from)));
    match step {
        DisplayStep::Finished => {
            assert(done == later);
            lemma_advanced_goes_on(next, operation.job, operation.occupied, from + 1);
            lemma_job_visits_each(next, operation.job, operation.occupied, from + 1, answers);
        },
        DisplayStep::Waiting { errand, at } => {
            let going_on = OperationView { errand, at, ..operation };
            assert(manager.job_further(operation, next, Some(going_on)));
            lemma_job_goes_on(next, going_on, answers);
            assert(next.with_display(from, done) == manager.with_display(from, done));
        },
    }
}

/// Displays are visited each by itself.
proof fn lemma_visited_each(
    manager: ManagerView,
    job: Job,
    occupied: Seq<bool>,
    from: int,
    answers: spec_fn(int, Errand, int, Stage) -> MonitorReply,
)
    requires
        0 <= from <= manager.displays.len(),
    ensures
        ({
            let next = manager.visited_each(job, occupied, from, answers);
            &&& next.settings == manager.settings
            &&& next.detached_snapshots == manager.detached_snapshots
            &&& next.manual_dimming_enabled == manager.manual_dimming_enabled
            &&& next.displays.len() == manager.displays.len()
            &&& forall|i: int| 0 <= i < from ==> #[trigger] next.displays[i] == manager.displays[i]
            &&& forall|i: int|
                from <= i < manager.displays.len() ==> #[trigger] next.displays[i]
                    == manager.visit_through(job, occupied, i, answers)
        }),
    decreases manager.displays.len() - from,
{
    if from < manager.displays.len() {
        let visited = manager.with_display(
            from,
            manager.visit_through(job, occupied, from, answers),
        );
        lemma_visited_each(visited, job, occupied, from + 1, answers);
        let next = manager.visited_each(job, occupied, from, answers);
        assert(next.displays[from] == visited.displays[from]);
        assert forall|i: int| from <= i < manager.displays.len() implies #[trigger] next.displays[i]
            == manager.visit_through(job, occupied, i, answers) by {
            if i > from {
                assert(visited.displays[i] == manager.displays[i]);
            }
        }
    }
}

/// A job that is given all its answers visits each display by itself, whatever
/// happens on the others, and changes nothing but the displays.
pub proof fn jobs_visit_each_display(
    manager: ManagerView,
    job: Job,
    occupied: Seq<bool>,
    answers: spec_fn(int, Errand, int, Stage) -> MonitorReply,
)
    requires
        manager.countable(),
        job_to_the_point(answers),
    ensures
        ({
            let (begun, operation) = manager.advanced(job, occupied, 0);
            begun.advanced_through(operation, answers) == (ManagerView {
                displays: Seq::new(
                    manager.displays.len(),
                    |i: int| manager.visit_through(job, occupied, i, answers),
                ),
                ..manager
            })
        }),
{
    lemma_job_visits_each(manager, job, occupied, 0, answers);
    lemma_visited_each(manager, job, occupied, 0, answers);
}

/// Jobs end: every answer gets a job further, and a job that still waits then
/// waits where it can.
pub proof fn answers_get_a_job_further(
    manager: ManagerView,
    operation: OperationView,
    reply: MonitorReply,
)
    requires
        manager.countable(),
        manager.awaits(operation),
        reply.answers(operation.at.stage),
    ensures
        ({
            let (next, later) = manager.advanced_on(operation, reply);
            &&& manager.job_further(operation, next, later)
            &&& later matches Some(later) ==> next.awaits(later)
            &&& next.countable()
        }),
{
    let from = operation.display;
    let display = manager.displays[from];
    let conditions = manager.conditions(is_occupied(operation.occupied, from));
    lemma_visit_gets_further(display, conditions, operation.errand, operation.at, reply);
    let (later, step) = display.visited_on(conditions, operation.errand, operation.at, reply);
    let next = manager.with_display(from, later);
    assert(next.countable());
    assert(next.displays[from] == later);
    if step is Finished {
        lemma_advanced_goes_on(next, operation.job, operation.occupied, from + 1);
    }
}

} // verus!
