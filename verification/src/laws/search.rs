//! What is found of the displays that the system lists.

use vstd::prelude::*;

use crate::brightness::DisplayDimmingState;
use crate::discovery::EnumerationAnswers;
use crate::display::DisplayView;
use crate::enumeration::told_display;
use crate::enumeration::DisplayInfoView;
use crate::enumeration::EnumerationRequest;
use crate::enumeration::EnumerationReplyView;
use crate::enumeration::EnumerationStage;
use crate::enumeration::EnumerationStepView;
use crate::enumeration::EnumerationView;
use crate::enumeration::MonitorInfoView;
use crate::geometry::SimpleRect;
use crate::laws::windows::folded;
use crate::laws::windows::names_are_folded;
use crate::laws::windows::says_something;
use crate::outcome::about;
use crate::outcome::lemma_told_each;
use crate::target::Stage;
use crate::target::TargetAvailability;
use crate::target::TargetCommand;
use crate::target::TargetKeyView;
use crate::target::TargetView;
use crate::utf16::decoded;
use crate::utf16::until_null;

verus! {

/// A monitor that shows a display, before it is asked anything: with its own
/// handle and description, under a key of the display's name, the description
/// without the case of its letters, and its place.
pub open spec fn unprobed(
    info: DisplayInfoView,
    monitor: MonitorInfoView,
    place: int,
) -> TargetView {
    let description = decoded(until_null(monitor.description));
    TargetView {
        handle: monitor.handle,
        key: TargetKeyView {
            display_device_name: info.device_name,
            description: folded(description),
            physical_index: place,
        },
        description: if says_something(description) {
            description
        } else {
            "Unknown monitor"@
        },
        restore_brightness: None,
        is_dimmed: false,
        availability: TargetAvailability::Unknown,
        consecutive_failures: 0,
        disposed: false,
    }
}

/// A display is found under the name and at the place that the system tells, lit
/// and with nothing pending, and with one target for each of its monitors, in
/// order, each of them probed; or with none, where the number of monitors cannot be
/// told or is zero, or the monitors cannot be listed.
pub proof fn displays_are_found_as_they_are_told(
    info: DisplayInfoView,
    answers: EnumerationAnswers,
    display: int,
    target: int,
)
    ensures
        ({
            let found = answers.found(info, display);
            let listed = (answers.counts)(display) is Some && (answers.counts)(display)->0 > 0
                && (answers.monitors)(display) is Some;
            let monitors = (answers.monitors)(display)->0;
            &&& found == (DisplayView {
                device_name: info.device_name,
                bounds: info.bounds,
                targets: found.targets,
                dimming_state: DisplayDimmingState::Lit,
                pending_operation: None,
                last_blocking_window: None,
            })
            &&& found.targets.len() == (if listed {
                monitors.len()
            } else {
                0
            })
            &&& listed && 0 <= target < monitors.len() ==> found.targets[target] == unprobed(
                info,
                monitors[target],
                target,
            ).told(TargetCommand::Probe, about(answers.replies_on(display), target)).0
        }),
{
    match ((answers.counts)(display), (answers.monitors)(display)) {
        (Some(count), Some(monitors)) if count > 0 => {
            let targets = info.targets(monitors);
            lemma_told_each(targets, TargetCommand::Probe, 0, true, answers.replies_on(display));
            if 0 <= target < monitors.len() {
                let description = decoded(until_null(monitors[target].description));
                names_are_folded(description);
                assert(says_something(description) <==> !crate::text::blank(description));
                assert(targets[target] == unprobed(info, monitors[target], target));
            }
        },
        _ => {},
    }
}

/// A display counts under the handle, the name and the edges that the system tells,
/// unless the name says nothing.
pub proof fn displays_need_a_name(handle: isize, device: Seq<u16>, bounds: SimpleRect)
    ensures
        told_display(handle, device, bounds) == (if says_something(decoded(until_null(device))) {
            Some(
                DisplayInfoView { handle, device_name: decoded(until_null(device)), bounds },
            )
        } else {
            None
        }),
{
    let name = decoded(until_null(device));
    assert(says_something(name) <==> !crate::text::blank(name));
}

/// As many monitors are listed as were counted, if any were, and the answers that
/// are taken are of the kind asked for.
pub proof fn as_many_monitors_are_listed_as_counted(
    enumeration: EnumerationView,
    count: u32,
    reply: EnumerationReplyView,
)
    ensures
        enumeration.stage is Counting && count > 0 ==> enumeration.continued(
            EnumerationReplyView::MonitorCount(Some(count)),
        ) == EnumerationStepView::Waiting(
            EnumerationView { stage: EnumerationStage::Listing { count }, ..enumeration },
        ),
        reply.answers(enumeration.stage) <==> match enumeration.stage {
            EnumerationStage::Counting => reply is MonitorCount,
            EnumerationStage::Listing { .. } => reply is Monitors,
            EnumerationStage::Probing { at } => reply is Monitor && match at.stage {
                Stage::Capabilities => reply->Monitor_0 is Capabilities,
                Stage::Reading => reply->Monitor_0 is Reading,
                Stage::Writing { .. } => reply->Monitor_0 is Written,
            },
        },
{
}

/// What an enumeration asks is asked of the display being worked on, or of the
/// monitor being probed.
pub proof fn enumerations_ask_about_the_display_at_hand(enumeration: EnumerationView)
    ensures
        match enumeration.stage {
            EnumerationStage::Counting => enumeration.request()
                == (EnumerationRequest::CountMonitors {
                display: enumeration.infos[enumeration.next].handle,
            }),
            EnumerationStage::Listing { count } => enumeration.request()
                == (EnumerationRequest::ListMonitors {
                display: enumeration.infos[enumeration.next].handle,
                count,
            }),
            EnumerationStage::Probing { at } => {
                &&& enumeration.request() is Monitor
                &&& enumeration.request()->request.stage == at.stage
                &&& enumeration.request()->request.monitor
                    == enumeration.displays.last().targets[at.target as int].handle
            },
        },
{
}

} // verus!
