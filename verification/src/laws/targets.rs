//! What commands do to a monitor, told in terms of what it answers.

use vstd::prelude::*;

use crate::brightness::levels_span_the_range;
use crate::brightness::raw_level;
use crate::outcome::to_the_point;
use crate::target::BrightnessReading;
use crate::target::MonitorReply;
use crate::target::Stage;
use crate::target::TargetAvailability;
use crate::target::TargetCommand;
use crate::target::TargetKeyView;
use crate::target::TargetStep;
use crate::target::TargetView;

verus! {

/// The monitor has not been closed, lacks no capability, and has not failed too
/// often.
pub open spec fn reachable(target: TargetView) -> bool {
    !target.disposed && target.availability != TargetAvailability::Unavailable
        && target.availability != TargetAvailability::Unsupported
}

/// The level is the one nearest to the percentage of the range, the upper one of
/// two that are equally near. More than all counts as all, and where there is no
/// range, its lower end is meant.
pub open spec fn stands_for(level: int, minimum: int, maximum: int, percent: int) -> bool {
    let share = if percent > 100 {
        100
    } else {
        percent
    };
    if maximum <= minimum {
        level == minimum
    } else {
        -50 < 100 * (level - minimum) - (maximum - minimum) * share <= 50
    }
}

/// The target with one failure more. The third in a row makes it unavailable.
pub open spec fn once_more_failed(target: TargetView) -> TargetView {
    TargetView {
        consecutive_failures: if target.consecutive_failures == 255 {
            255
        } else {
            (target.consecutive_failures + 1) as u8
        },
        availability: if target.consecutive_failures >= 2 {
            TargetAvailability::Unavailable
        } else {
            TargetAvailability::TemporarilyUnavailable
        },
        ..target
    }
}

/// What a command comes to with a failure: it is settled only if the target is
/// not to be talked to any more.
pub open spec fn failing(target: TargetView) -> (TargetView, bool) {
    (once_more_failed(target), target.consecutive_failures >= 2)
}

/// What a command comes to with a success.
pub open spec fn succeeding(target: TargetView) -> (TargetView, bool) {
    (
        TargetView {
            availability: TargetAvailability::Available,
            consecutive_failures: 0,
            ..target
        },
        true,
    )
}

/// A percentage stands for one level: the nearest one.
pub proof fn percentages_stand_for_one_level(minimum: int, maximum: int, percent: int, level: int)
    requires
        0 <= percent,
    ensures
        stands_for(level, minimum, maximum, percent) <==> level == raw_level(
            minimum,
            maximum,
            percent,
        ),
{
    if minimum < maximum {
        let share = if percent > 100 {
            100
        } else {
            percent
        };
        let scaled = (maximum - minimum) * share + 50;
        assert(scaled / 100 * 100 + scaled % 100 == scaled);
    }
}

/// A monitor's level for a percentage is the one nearest to it in the monitor's
/// own range. Nothing stands for the lower end of the range, and all of it for the
/// upper end.
pub proof fn levels_lie_in_the_monitors_range(found: BrightnessReading, percent: u32, level: u32)
    ensures
        stands_for(level as int, found.minimum as int, found.maximum as int, percent as int)
            <==> level == found.level(percent),
        found.minimum <= found.maximum ==> found.minimum <= found.level(percent) <= found.maximum,
        found.level(0) == found.minimum,
        percent >= 100 && found.minimum <= found.maximum ==> found.level(percent) == found.maximum,
{
    percentages_stand_for_one_level(
        found.minimum as int,
        found.maximum as int,
        percent as int,
        level as int,
    );
    if found.minimum <= found.maximum {
        levels_span_the_range(
            found.minimum as int,
            found.maximum as int,
            percent as int,
            percent as int,
        );
    }
}

/// A target may be talked to exactly while it is open, has the capability as far
/// as is known, and has not failed three times in a row.
pub proof fn only_reachable_targets_are_talked_to(target: TargetView)
    ensures
        target.attemptable() <==> reachable(target),
{
}

/// An exchange that fails is counted, and the third in a row makes the target
/// unavailable; one that goes well starts the count again.
pub proof fn exchanges_are_counted(target: TargetView)
    ensures
        target.missed() == once_more_failed(target),
        target.gives_up() <==> target.consecutive_failures >= 2,
        target.reached() == succeeding(target).0,
{
}

/// A command to dim or to set the brightness asks a monitor that may be talked to
/// for its brightness first; a probe asks any open monitor for its capabilities.
/// Others are not asked anything, and opening a conversation changes nothing.
pub proof fn brightness_is_read_before_it_is_set(target: TargetView, percent: u32)
    ensures
        reachable(target) ==> target.opened(TargetCommand::Dim { percent }) == (
            target,
            TargetStep::Ask { stage: Stage::Reading },
        ) && target.opened(TargetCommand::SetLevel { percent }) == (
            target,
            TargetStep::Ask { stage: Stage::Reading },
        ),
        !reachable(target) ==> target.opened(TargetCommand::Dim { percent }) == (
            target,
            TargetStep::Done { settled: !target.disposed },
        ) && target.opened(TargetCommand::SetLevel { percent }) == (
            target,
            TargetStep::Done { settled: !target.disposed },
        ),
        !target.disposed ==> target.opened(TargetCommand::Probe) == (
            target,
            TargetStep::Ask { stage: Stage::Capabilities },
        ),
        target.disposed ==> target.opened(TargetCommand::Probe) == (
            target,
            TargetStep::Done { settled: true },
        ),
{
}

/// Restoring asks every monitor that may be talked to and is dimmed, whatever its
/// availability and its failures, to take on exactly the level noted for it. So
/// does restoring at shutdown, of every open monitor.
pub proof fn restoring_asks_for_the_noted_level(target: TargetView, level: u32)
    requires
        target.is_dimmed,
        target.restore_brightness == Some(level),
    ensures
        reachable(target) ==> target.opened(TargetCommand::Restore) == (
            target,
            TargetStep::Ask { stage: Stage::Writing { level } },
        ),
        !target.disposed ==> target.opened(TargetCommand::RestoreForShutdown) == (
            target,
            TargetStep::Ask { stage: Stage::Writing { level } },
        ),
{
}

/// Where there is nothing to return from or to, restoring asks nothing.
pub proof fn restoring_asks_nothing_without_need(target: TargetView)
    ensures
        !target.disposed && (!target.is_dimmed || !reachable(target)) ==> target.opened(
            TargetCommand::Restore,
        ) == (target, TargetStep::Done { settled: true }),
        reachable(target) && target.restore_brightness is None ==> target.opened(
            TargetCommand::Restore,
        ) == (
            TargetView { is_dimmed: false, ..target },
            TargetStep::Done { settled: true },
        ),
        !target.disposed && !target.is_dimmed ==> target.opened(TargetCommand::RestoreForShutdown)
            == (target, TargetStep::Done { settled: true }),
        !target.disposed && target.is_dimmed && target.restore_brightness is None ==> target.opened(
            TargetCommand::RestoreForShutdown,
        ) == (target, TargetStep::Done { settled: false }),
        target.disposed ==> target.opened(TargetCommand::Restore) == (
            target,
            TargetStep::Done { settled: false },
        ) && target.opened(TargetCommand::RestoreForShutdown) == (
            target,
            TargetStep::Done { settled: false },
        ),
{
}

/// A monitor for which a level is noted counts as no longer dimmed only once it
/// has answered that it has taken a level on; and none counts as dimmed before it
/// has answered so to a command to dim. No such word, no change.
pub proof fn dimming_changes_only_with_the_monitors_word(
    target: TargetView,
    command: TargetCommand,
    stage: Stage,
    reply: MonitorReply,
)
    ensures
        target.restore_brightness is Some ==> target.opened(command).0.is_dimmed
            == target.is_dimmed,
        !target.is_dimmed ==> !target.opened(command).0.is_dimmed,
        reply != MonitorReply::Written(true) || !(stage is Writing) ==> target.continued(
            command,
            stage,
            reply,
        ).0.is_dimmed == target.is_dimmed,
        stage is Writing && reply == MonitorReply::Written(true) ==> target.continued(
            command,
            stage,
            reply,
        ).0.is_dimmed == (command is Dim),
{
}

/// The level to return to changes in two ways only: a monitor that is not dimmed
/// and has none noted tells its brightness to a command to dim, or it takes on a
/// level that was picked.
pub proof fn the_noted_level_changes_for_two_reasons(
    target: TargetView,
    command: TargetCommand,
    stage: Stage,
    reply: MonitorReply,
)
    ensures
        target.opened(command).0.restore_brightness == target.restore_brightness,
        target.continued(command, stage, reply).0.restore_brightness == (match (
            command,
            stage,
            reply,
        ) {
            (
                TargetCommand::Dim { .. },
                Stage::Reading,
                MonitorReply::Reading(Some(found)),
            ) => if target.is_dimmed || target.restore_brightness is Some {
                target.restore_brightness
            } else {
                Some(found.current)
            },
            (
                TargetCommand::SetLevel { .. },
                Stage::Writing { level },
                MonitorReply::Written(true),
            ) => Some(level),
            _ => target.restore_brightness,
        }),
{
}

/// A monitor that tells its brightness to a command to dim it, or to set it, is
/// asked to take on the level nearest to the percentage of its own range.
pub proof fn told_brightness_leads_to_the_nearest_level(
    target: TargetView,
    percent: u32,
    found: BrightnessReading,
    level: u32,
)
    requires
        stands_for(level as int, found.minimum as int, found.maximum as int, percent as int),
    ensures
        target.continued(
            TargetCommand::Dim { percent },
            Stage::Reading,
            MonitorReply::Reading(Some(found)),
        ).1 == (TargetStep::Ask { stage: Stage::Writing { level } }),
        target.continued(
            TargetCommand::SetLevel { percent },
            Stage::Reading,
            MonitorReply::Reading(Some(found)),
        ).1 == (TargetStep::Ask { stage: Stage::Writing { level } }),
{
    levels_lie_in_the_monitors_range(found, percent, level);
}

/// A number's second bit is set exactly if half of it, rounded down, is odd.
proof fn lemma_second_bit(bits: u32)
    ensures
        (bits & 2 == 0) <==> (bits / 2) % 2 == 0,
{
    assert((bits & 2 == 0) <==> (bits / 2) % 2 == 0) by (bit_vector);
}

/// What a probe of an open monitor comes to. It is unsupported if and only if it
/// tells capabilities without the one for brightness, which is the second bit;
/// whatever the other bits, a monitor with that one, or one that does not tell its
/// capabilities, is available exactly if it tells its brightness.
pub proof fn probing_finds_what_the_monitor_tells(
    target: TargetView,
    answers: spec_fn(Stage) -> MonitorReply,
    capabilities: Option<u32>,
    reading: Option<BrightnessReading>,
)
    requires
        !target.disposed,
        answers(Stage::Capabilities) == MonitorReply::Capabilities(capabilities),
        answers(Stage::Reading) == MonitorReply::Reading(reading),
    ensures
        ({
            let told = target.told(TargetCommand::Probe, answers);
            let lacks = capabilities is Some && (capabilities->0 / 2) % 2 == 0;
            &&& told.1
            &&& lacks ==> told.0 == (TargetView {
                availability: TargetAvailability::Unsupported,
                ..target
            })
            &&& !lacks && reading is Some ==> told.0 == succeeding(target).0
            &&& !lacks && reading is None ==> told.0 == once_more_failed(target)
        }),
{
    reveal_with_fuel(TargetView::talked_on, 3);
    if let Some(bits) = capabilities {
        lemma_second_bit(bits);
    }
}

/// Of the capabilities that a monitor tells, only the one for brightness matters
/// to a probe.
pub proof fn other_capabilities_do_not_matter(target: TargetView, one: u32, other: u32)
    requires
        (one / 2) % 2 == (other / 2) % 2,
    ensures
        target.continued(
            TargetCommand::Probe,
            Stage::Capabilities,
            MonitorReply::Capabilities(Some(one)),
        ) == target.continued(
            TargetCommand::Probe,
            Stage::Capabilities,
            MonitorReply::Capabilities(Some(other)),
        ),
        (one / 2) % 2 == 1 ==> target.continued(
            TargetCommand::Probe,
            Stage::Capabilities,
            MonitorReply::Capabilities(Some(one)),
        ) == (target, TargetStep::Ask { stage: Stage::Reading }),
{
    lemma_second_bit(one);
    lemma_second_bit(other);
}

/// What dimming a monitor comes to. One that may be talked to and tells its
/// brightness is set to the level nearest to the percentage; if it takes that on,
/// it is dimmed, with the level that it had noted, unless one was noted already.
/// Every failure to answer is counted.
pub proof fn dimming_comes_to_this(
    target: TargetView,
    percent: u32,
    answers: spec_fn(Stage) -> MonitorReply,
    level: u32,
)
    requires
        to_the_point(answers),
    ensures
        ({
            let told = target.told(TargetCommand::Dim { percent }, answers);
            &&& !reachable(target) ==> told == (target, !target.disposed)
            &&& reachable(target) ==> match answers(Stage::Reading) {
                MonitorReply::Reading(Some(found)) => {
                    let noted = TargetView {
                        restore_brightness: if target.is_dimmed
                            || target.restore_brightness is Some {
                            target.restore_brightness
                        } else {
                            Some(found.current)
                        },
                        ..target
                    };
                    stands_for(
                        level as int,
                        found.minimum as int,
                        found.maximum as int,
                        percent as int,
                    ) ==> told == (if answers(Stage::Writing { level }) == MonitorReply::Written(
                        true,
                    ) {
                        succeeding(TargetView { is_dimmed: true, ..noted })
                    } else {
                        failing(noted)
                    })
                },
                _ => told == failing(target),
            }
        }),
{
    reveal_with_fuel(TargetView::talked_on, 3);
    assert(answers(Stage::Reading).answers(Stage::Reading));
    assert(answers(Stage::Writing { level }).answers(Stage::Writing { level }));
    if let MonitorReply::Reading(Some(found)) = answers(Stage::Reading) {
        levels_lie_in_the_monitors_range(found, percent, level);
    }
}

/// What setting a monitor's brightness comes to. One that may be talked to and
/// tells its brightness is set to the level nearest to the percentage; if it takes
/// that on, it is not dimmed, and that level is the one to return to.
pub proof fn setting_comes_to_this(
    target: TargetView,
    percent: u32,
    answers: spec_fn(Stage) -> MonitorReply,
    level: u32,
)
    requires
        to_the_point(answers),
    ensures
        ({
            let told = target.told(TargetCommand::SetLevel { percent }, answers);
            &&& !reachable(target) ==> told == (target, !target.disposed)
            &&& reachable(target) ==> match answers(Stage::Reading) {
                MonitorReply::Reading(Some(found)) => stands_for(
                    level as int,
                    found.minimum as int,
                    found.maximum as int,
                    percent as int,
                ) ==> told == (if answers(Stage::Writing { level }) == MonitorReply::Written(true) {
                    succeeding(
                        TargetView {
                            is_dimmed: false,
                            restore_brightness: Some(level),
                            ..target
                        },
                    )
                } else {
                    failing(target)
                }),
                _ => told == failing(target),
            }
        }),
{
    reveal_with_fuel(TargetView::talked_on, 3);
    assert(answers(Stage::Reading).answers(Stage::Reading));
    assert(answers(Stage::Writing { level }).answers(Stage::Writing { level }));
    if let MonitorReply::Reading(Some(found)) = answers(Stage::Reading) {
        levels_lie_in_the_monitors_range(found, percent, level);
    }
}

/// What restoring a monitor comes to. One that may be talked to and is dimmed is
/// set to the level noted for it; only if it takes that on does it count as not
/// dimmed. One for which none is noted just counts as not dimmed.
pub proof fn restoring_comes_to_this(target: TargetView, answers: spec_fn(Stage) -> MonitorReply)
    requires
        to_the_point(answers),
    ensures
        ({
            let told = target.told(TargetCommand::Restore, answers);
            let lit = TargetView { is_dimmed: false, ..target };
            if !reachable(target) || !target.is_dimmed {
                told == (target, !target.disposed)
            } else {
                match target.restore_brightness {
                    Some(level) => told == (if answers(Stage::Writing { level })
                        == MonitorReply::Written(true) {
                        succeeding(lit)
                    } else {
                        failing(target)
                    }),
                    None => told == (lit, true),
                }
            }
        }),
{
    reveal_with_fuel(TargetView::talked_on, 3);
    if let Some(level) = target.restore_brightness {
        assert(answers(Stage::Writing { level }).answers(Stage::Writing { level }));
    }
}

/// What restoring a monitor at shutdown comes to: every open monitor that is
/// dimmed with a level noted is set to that level, and nothing is counted.
pub proof fn restoring_at_shutdown_comes_to_this(
    target: TargetView,
    answers: spec_fn(Stage) -> MonitorReply,
)
    requires
        to_the_point(answers),
    ensures
        ({
            let told = target.told(TargetCommand::RestoreForShutdown, answers);
            if target.disposed || !target.is_dimmed {
                told == (target, !target.disposed)
            } else {
                match target.restore_brightness {
                    Some(level) => {
                        let taken = answers(Stage::Writing { level }) == MonitorReply::Written(true);
                        told == (TargetView { is_dimmed: !taken, ..target }, taken)
                    },
                    None => told == (target, false),
                }
            }
        }),
{
    reveal_with_fuel(TargetView::talked_on, 3);
    if let Some(level) = target.restore_brightness {
        assert(answers(Stage::Writing { level }).answers(Stage::Writing { level }));
    }
}

/// A target that is given up for good is closed, and nothing else about it changes;
/// its handle is to be closed if it was still open.
pub proof fn targets_are_closed_once(target: TargetView)
    ensures
        target.closed() == (TargetView { disposed: true, ..target }),
        target.disposed ==> target.open_handle() is None,
        !target.disposed ==> target.open_handle() == Some(target.handle),
        target.closed().open_handle() is None,
{
}

/// An answer is taken for one to a question of its own kind only, and only the
/// questions that belong to a command are asked on it.
pub proof fn answers_are_of_the_kind_asked_for(stage: Stage, reply: MonitorReply)
    ensures
        reply.answers(stage) <==> {
            ||| stage is Capabilities && reply is Capabilities
            ||| stage is Reading && reply is Reading
            ||| stage is Writing && reply is Written
        },
{
}

/// A target for a monitor that was just found is open, not dimmed, without a level
/// noted and without failures, and nothing is known of its availability. It is
/// described as told, unless that is nothing but white space.
pub proof fn found_targets_start_afresh(
    handle: isize,
    key: TargetKeyView,
    description: Seq<char>,
)
    ensures
        ({
            let target = TargetView::found(handle, key, description);
            let says_something = exists|i: int|
                0 <= i < description.len() && !crate::text::is_white_space(
                    #[trigger] description[i],
                );
            &&& target.handle == handle
            &&& target.key == key
            &&& target.restore_brightness is None
            &&& !target.is_dimmed
            &&& target.availability is Unknown
            &&& target.consecutive_failures == 0
            &&& !target.disposed
            &&& says_something ==> target.description == description
            &&& !says_something ==> target.description == "Unknown monitor"@
        }),
{
}

} // verus!
