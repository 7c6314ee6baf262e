//! What an enumeration comes to once every question that it asks has been
//! answered.

use vstd::prelude::*;

use crate::display::can_wait;
use crate::display::lemma_swept_waits;
use crate::display::swept;
use crate::display::swept_on;
use crate::display::Await;
use crate::display::DisplayView;
use crate::display::SweepStep;
use crate::enumeration::enumerated;
use crate::enumeration::DisplayInfoView;
use crate::enumeration::EnumerationReplyView;
use crate::enumeration::EnumerationStage;
use crate::enumeration::EnumerationStepView;
use crate::enumeration::EnumerationView;
use crate::enumeration::MonitorInfoView;
use crate::outcome::about;
use crate::outcome::all_to_the_point;
use crate::outcome::conversations_keep_the_monitor;
use crate::outcome::lemma_sweep_gets_further;
use crate::outcome::lemma_sweep_tells_each;
use crate::outcome::lemma_swept_goes_on;
use crate::outcome::lemma_told_each;
use crate::outcome::questions_left;
use crate::outcome::swept_through;
use crate::outcome::targets_left;
use crate::outcome::told_each;
use crate::snapshot::distinct_keys;
use crate::target::MonitorReply;
use crate::target::Stage;
use crate::target::TargetCommand;
use crate::target::TargetView;
use crate::text::blank;

verus! {

/// The answers to all questions of an enumeration, for each display that the
/// system lists: how many monitors show it, which, and what those answer.
pub struct EnumerationAnswers {
    pub counts: spec_fn(int) -> Option<u32>,
    pub monitors: spec_fn(int) -> Option<Seq<MonitorInfoView>>,
    pub replies: spec_fn(int, int, Stage) -> MonitorReply,
}

impl EnumerationAnswers {
    /// What the monitors of a display answer.
    pub open spec fn replies_on(self, display: int) -> spec_fn(int, Stage) -> MonitorReply {
        |target: int, stage: Stage| (self.replies)(display, target, stage)
    }

    /// Each question to a monitor gets an answer of its kind, and no display is
    /// shown by more monitors than can be counted.
    pub open spec fn in_order(self) -> bool {
        &&& forall|display: int| all_to_the_point(#[trigger] self.replies_on(display))
        &&& forall|display: int|
            #![trigger (self.monitors)(display)]
            (self.monitors)(display) matches Some(monitors) ==> monitors.len() <= usize::MAX
    }

    /// The answer to what an enumeration asks.
    pub open spec fn answer(self, display: int, stage: EnumerationStage) -> EnumerationReplyView {
        match stage {
            EnumerationStage::Counting => EnumerationReplyView::MonitorCount((self.counts)(display)),
            EnumerationStage::Listing { .. } => EnumerationReplyView::Monitors(
                (self.monitors)(display),
            ),
            EnumerationStage::Probing { at } => EnumerationReplyView::Monitor(
                self.replies_on(display)(at.target as int, at.stage),
            ),
        }
    }

    /// The display that is found for one that the system lists: with a probed
    /// target for each monitor, or without targets where the monitors cannot be
    /// told.
    pub open spec fn found(self, info: DisplayInfoView, display: int) -> DisplayView {
        match ((self.counts)(display), (self.monitors)(display)) {
            (Some(count), Some(monitors)) if count > 0 => DisplayView {
                targets: told_each(
                    info.targets(monitors),
                    TargetCommand::Probe,
                    0,
                    true,
                    self.replies_on(display),
                ).0,
                ..info.bare()
            },
            _ => info.bare(),
        }
    }
}

impl EnumerationView {
    /// How much is still to be asked of a display, besides its monitors.
    pub open spec fn stages_left(self) -> nat {
        match self.stage {
            EnumerationStage::Counting => 2,
            EnumerationStage::Listing { .. } => 1,
            EnumerationStage::Probing { .. } => 0,
        }
    }

    /// The sweep that an enumeration stands in.
    pub open spec fn sweep(self) -> SweepStep {
        match self.stage {
            EnumerationStage::Probing { at } => SweepStep::Waiting { at },
            _ => SweepStep::Finished { settled: true },
        }
    }

    /// How many targets of the display being worked on are still to be probed.
    pub open spec fn probes_left(self) -> int {
        targets_left(self.displays.last().targets.len(), self.sweep())
    }

    /// The enumeration is further at the second step than at the first.
    pub open spec fn further_at(self, next: EnumerationStepView) -> bool {
        match next {
            EnumerationStepView::Finished(_) => true,
            EnumerationStepView::Waiting(later) => {
                &&& later.infos == self.infos
                &&& later.next < later.infos.len()
                &&& 0 <= later.probes_left()
                &&& {
                    ||| later.next > self.next
                    ||| later.next == self.next && later.stages_left() < self.stages_left()
                    ||| later.next == self.next && later.stages_left() == self.stages_left()
                        && later.probes_left() < self.probes_left()
                    ||| later.next == self.next && later.stages_left() == self.stages_left()
                        && later.probes_left() == self.probes_left() && questions_left(
                        TargetCommand::Probe,
                        later.sweep(),
                    ) < questions_left(TargetCommand::Probe, self.sweep())
                }
            },
        }
    }

    /// The displays that an enumeration that waits comes to.
    pub open spec fn continued_through(self, answers: EnumerationAnswers) -> Seq<DisplayView>
        decreases
                self.infos.len() - self.next,
                self.stages_left(),
                self.probes_left(),
                questions_left(TargetCommand::Probe, self.sweep()),
    {
        let next = self.continued(answers.answer(self.next, self.stage));
        if self.further_at(next) {
            match next {
                EnumerationStepView::Finished(displays) => displays,
                EnumerationStepView::Waiting(later) => later.continued_through(answers),
            }
        } else {
            self.displays
        }
    }
}

/// The displays that an enumeration comes to.
pub open spec fn found_through(step: EnumerationStepView, answers: EnumerationAnswers) -> Seq<
    DisplayView,
> {
    match step {
        EnumerationStepView::Finished(displays) => displays,
        EnumerationStepView::Waiting(enumeration) => enumeration.continued_through(answers),
    }
}

/// The displays from the place `next` on found one after the other.
pub open spec fn found_each(
    infos: Seq<DisplayInfoView>,
    displays: Seq<DisplayView>,
    next: int,
    answers: EnumerationAnswers,
) -> Seq<DisplayView>
    decreases infos.len() - next,
{
    if next < 0 || next >= infos.len() {
        displays
    } else {
        found_each(infos, displays.push(answers.found(infos[next], next)), next + 1, answers)
    }
}

/// An enumeration finds the displays one after the other.
proof fn lemma_enumeration_finds_each(
    infos: Seq<DisplayInfoView>,
    displays: Seq<DisplayView>,
    next: int,
    answers: EnumerationAnswers,
)
    requires
        0 <= next <= infos.len(),
        answers.in_order(),
    ensures
        found_through(enumerated(infos, displays, next), answers) == found_each(
            infos,
            displays,
            next,
            answers,
        ),
    decreases infos.len() - next, 3nat, 0int, 0nat,
{
    if next < infos.len() {
        let counting = EnumerationView {
            infos,
            displays,
            next,
            stage: EnumerationStage::Counting,
        };
        let info = infos[next];
        let told = counting.continued(answers.answer(next, counting.stage));
        assert(counting.further_at(told));
        match (answers.counts)(next) {
            Some(count) if count > 0 => {
                let listing = EnumerationView {
                    stage: EnumerationStage::Listing { count },
                    ..counting
                };
                assert(told == EnumerationStepView::Waiting(listing));
                assert(counting.continued_through(answers) == listing.continued_through(answers));
                let listed = listing.continued(answers.answer(next, listing.stage));
                match (answers.monitors)(next) {
                    Some(monitors) => {
                        let targets = info.targets(monitors);
                        let display = DisplayView { targets, ..info.bare() };
                        let (visited, sweep) = swept(targets, TargetCommand::Probe, 0, true);
                        let replies = answers.replies_on(next);
                        assert(all_to_the_point(replies));
                        lemma_sweep_tells_each(targets, TargetCommand::Probe, 0, true, replies);
                        lemma_swept_waits(targets, TargetCommand::Probe, 0, true);
                        lemma_swept_goes_on(targets, TargetCommand::Probe, 0, true);
                        let probing = DisplayView { targets: visited, ..display };
                        assert(displays.push(display).update(displays.len() as int, probing)
                            == displays.push(probing));
                        assert(listing.further_at(listed));
                        assert(listing.continued_through(answers) == found_through(
                            listed,
                            answers,
                        ));
                        match sweep {
                            SweepStep::Finished { settled } => {
                                assert(swept_through(
                                    visited,
                                    TargetCommand::Probe,
                                    sweep,
                                    replies,
                                ) == (visited, settled));
                                lemma_enumeration_finds_each(
                                    infos,
                                    displays.push(probing),
                                    next + 1,
                                    answers,
                                );
                            },
                            SweepStep::Waiting { at } => {
                                let probe = EnumerationView {
                                    displays: displays.push(probing),
                                    stage: EnumerationStage::Probing { at },
                                    ..listing
                                };
                                assert(listed == EnumerationStepView::Waiting(probe));
                                lemma_probing_goes_on(probe, at, answers);
                                let found = DisplayView {
                                    targets: swept_through(
                                        visited,
                                        TargetCommand::Probe,
                                        sweep,
                                        replies,
                                    ).0,
                                    ..probing
                                };
                                assert(probe.displays.update(displays.len() as int, found)
                                    == displays.push(found));
                            },
                        }
                    },
                    None => {
                        assert(listing.further_at(listed));
                        assert(listing.continued_through(answers) == found_through(
                            listed,
                            answers,
                        ));
                        lemma_enumeration_finds_each(
                            infos,
                            displays.push(info.bare()),
                            next + 1,
                            answers,
                        );
                    },
                }
            },
            _ => {
                assert(counting.continued_through(answers) == found_through(told, answers));
                lemma_enumeration_finds_each(
                    infos,
                    displays.push(info.bare()),
                    next + 1,
                    answers,
                );
            },
        }
    }
}

/// An enumeration that probes the monitors of a display ends the sweep, and
/// goes on to the displays behind that one.
proof fn lemma_probing_goes_on(
    enumeration: EnumerationView,
    at: Await,
    answers: EnumerationAnswers,
)
    requires
        enumeration.can_wait(),
        enumeration.stage == (EnumerationStage::Probing { at }),
        enumeration.displays.last().targets.len() <= usize::MAX,
        answers.in_order(),
    ensures
        ({
            let last = enumeration.displays.len() - 1;
            let found = DisplayView {
                targets: swept_through(
                    enumeration.displays.last().targets,
                    TargetCommand::Probe,
                    SweepStep::Waiting { at },
                    answers.replies_on(enumeration.next),
                ).0,
                ..enumeration.displays.last()
            };
            enumeration.continued_through(answers) == found_each(
                enumeration.infos,
                enumeration.displays.update(last, found),
                enumeration.next + 1,
                answers,
            )
        }),
    decreases
            enumeration.infos.len() - enumeration.next,
            0nat,
            enumeration.displays.last().targets.len() - at.target,
            questions_left(TargetCommand::Probe, SweepStep::Waiting { at }),
{
    let command = TargetCommand::Probe;
    let last = enumeration.displays.len() - 1;
    let display = enumeration.displays.last();
    let replies = answers.replies_on(enumeration.next);
    assert(all_to_the_point(replies));
    let reply = replies(at.target as int, at.stage);
    lemma_sweep_gets_further(display.targets, command, at, reply);
    let (visited, sweep) = swept_on(display.targets, command, at, reply);
    let probed = DisplayView { targets: visited, ..display };
    let displays = enumeration.displays.update(last, probed);
    let next = enumeration.continued(answers.answer(enumeration.next, enumeration.stage));
    assert(enumeration.further_at(next));
    match sweep {
        SweepStep::Finished { settled } => {
            assert(swept_through(visited, command, sweep, replies) == (visited, settled));
            lemma_enumeration_finds_each(
                enumeration.infos,
                displays,
                enumeration.next + 1,
                answers,
            );
        },
        SweepStep::Waiting { at: place } => {
            let later = EnumerationView {
                displays,
                stage: EnumerationStage::Probing { at: place },
                ..enumeration
            };
            assert(next == EnumerationStepView::Waiting(later));
            lemma_probing_goes_on(later, place, answers);
            let found = DisplayView {
                targets: swept_through(visited, command, sweep, replies).0,
                ..display
            };
            assert(displays.update(last, found) == enumeration.displays.update(last, found));
        },
    }
}

/// Displays are found each by itself.
proof fn lemma_found_each(
    infos: Seq<DisplayInfoView>,
    displays: Seq<DisplayView>,
    next: int,
    answers: EnumerationAnswers,
)
    requires
        0 <= next <= infos.len(),
        displays.len() == next,
    ensures
        ({
            let found = found_each(infos, displays, next, answers);
            &&& found.len() == infos.len()
            &&& forall|i: int| 0 <= i < next ==> #[trigger] found[i] == displays[i]
            &&& forall|i: int|
                next <= i < infos.len() ==> #[trigger] found[i] == answers.found(infos[i], i)
        }),
    decreases infos.len() - next,
{
    if next < infos.len() {
        let longer = displays.push(answers.found(infos[next], next));
        lemma_found_each(infos, longer, next + 1, answers);
        let found = found_each(infos, displays, next, answers);
        assert(found[next] == longer[next]);
        assert forall|i: int| 0 <= i < next implies #[trigger] found[i] == displays[i] by {
            assert(found[i] == longer[i]);
        }
    }
}

/// An enumeration that is given all its answers finds every display that the
/// system lists, in that order, each by itself: a display whose monitors cannot
/// be told is found without targets, and keeps none of the others from being
/// found.
pub proof fn enumerations_find_every_display(
    infos: Seq<DisplayInfoView>,
    answers: EnumerationAnswers,
)
    requires
        answers.in_order(),
    ensures
        found_through(enumerated(infos, Seq::empty(), 0), answers) == Seq::new(
            infos.len(),
            |i: int| answers.found(infos[i], i),
        ),
{
    lemma_enumeration_finds_each(infos, Seq::empty(), 0, answers);
    lemma_found_each(infos, Seq::empty(), 0, answers);
    assert(found_each(infos, Seq::empty(), 0, answers) == Seq::new(
        infos.len(),
        |i: int| answers.found(infos[i], i),
    ));
}

/// The targets of a display that was just found are live, are not dimmed, have
/// no level noted, and can be told apart.
pub proof fn found_targets_are_fresh(
    info: DisplayInfoView,
    answers: EnumerationAnswers,
    display: int,
)
    ensures
        distinct_keys(answers.found(info, display).targets),
        forall|i: int|
            0 <= i < answers.found(info, display).targets.len() ==> {
                let target = #[trigger] answers.found(info, display).targets[i];
                &&& !target.disposed
                &&& !target.is_dimmed
                &&& target.restore_brightness is None
                &&& !blank(target.description)
                &&& target.key.display_device_name == info.device_name
                &&& target.key.physical_index == i
            },
{
    match ((answers.counts)(display), (answers.monitors)(display)) {
        (Some(count), Some(monitors)) if count > 0 => {
            let targets = info.targets(monitors);
            let replies = answers.replies_on(display);
            lemma_told_each(targets, TargetCommand::Probe, 0, true, replies);
            let found = answers.found(info, display).targets;
            assert forall|i: int| 0 <= i < found.len() implies {
                let target = #[trigger] found[i];
                &&& !target.disposed
                &&& !target.is_dimmed
                &&& target.restore_brightness is None
                &&& !blank(target.description)
                &&& target.key.display_device_name == info.device_name
                &&& target.key.physical_index == i
            } by {
                conversations_keep_the_monitor(
                    targets[i],
                    TargetCommand::Probe,
                    about(replies, i),
                );
                reveal_with_fuel(TargetView::talked_on, 3);
                reveal_strlit("Unknown monitor");
                assert(!blank("Unknown monitor"@)) by {
                    assert(!crate::text::is_white_space("Unknown monitor"@[0]));
                }
            }
        },
        _ => {},
    }
}

} // verus!
