//! Finding the displays and the monitors that show them.
//!
//! An enumeration goes over the displays that the system lists. Of each it
//! asks for the monitors, and probes every one of them.

use vstd::prelude::*;

use crate::brightness::DisplayDimmingState;
use crate::display::can_wait;
use crate::display::lemma_swept_on_waits;
use crate::display::lemma_swept_waits;
use crate::display::resume_sweep;
use crate::display::sweep;
use crate::display::swept;
use crate::display::swept_on;
use crate::display::Await;
use crate::display::DisplayState;
use crate::display::DisplayView;
use crate::display::SweepStep;
use crate::geometry::SimpleRect;
use crate::manager::MonitorRequest;
use crate::snapshot::display_views;
use crate::target::target_views;
use crate::target::MonitorReply;
use crate::target::PhysicalMonitorTarget;
use crate::target::TargetCommand;
use crate::target::TargetKey;
use crate::target::TargetKeyView;
use crate::target::TargetView;
use crate::text::blank;
use crate::text::is_blank;
use crate::text::normalize_name;
use crate::text::normalized;
use crate::utf16::decoded;
use crate::utf16::string_from_wide_slice;
use crate::utf16::until_null;

verus! {

/// A display that the system lists.
#[derive(Debug)]
pub struct DisplayInfo {
    pub handle: isize,
    pub device_name: String,
    pub bounds: SimpleRect,
}

/// The contents of a `DisplayInfo`.
#[verifier::ext_equal]
pub struct DisplayInfoView {
    pub handle: isize,
    pub device_name: Seq<char>,
    pub bounds: SimpleRect,
}

impl View for DisplayInfo {
    type V = DisplayInfoView;

    open spec fn view(&self) -> DisplayInfoView {
        DisplayInfoView {
            handle: self.handle,
            device_name: self.device_name@,
            bounds: self.bounds,
        }
    }
}

/// The contents of a list of displays that the system lists.
pub open spec fn info_views(infos: Seq<DisplayInfo>) -> Seq<DisplayInfoView> {
    infos.map_values(|info: DisplayInfo| info@)
}

/// A monitor that shows a display: its handle, and its description in a
/// null-terminated buffer.
#[derive(Debug)]
pub struct MonitorInfo {
    pub handle: isize,
    pub description: Vec<u16>,
}

/// The contents of a `MonitorInfo`.
#[verifier::ext_equal]
pub struct MonitorInfoView {
    pub handle: isize,
    pub description: Seq<u16>,
}

impl View for MonitorInfo {
    type V = MonitorInfoView;

    open spec fn view(&self) -> MonitorInfoView {
        MonitorInfoView { handle: self.handle, description: self.description@ }
    }
}

/// The contents of a list of monitors.
pub open spec fn monitor_views(monitors: Seq<MonitorInfo>) -> Seq<MonitorInfoView> {
    monitors.map_values(|monitor: MonitorInfo| monitor@)
}

/// The display that the system tells of, unless its device name is blank.
pub open spec fn told_display(handle: isize, device: Seq<u16>, bounds: SimpleRect) -> Option<
    DisplayInfoView,
> {
    let device_name = decoded(until_null(device));
    if blank(device_name) {
        None
    } else {
        Some(DisplayInfoView { handle, device_name, bounds })
    }
}

/// Takes what the system tells of a display. One without a device name is
/// passed over.
pub fn display_info(handle: isize, device: &[u16], bounds: SimpleRect) -> (info: Option<DisplayInfo>)
    ensures
        match info {
            Some(info) => Some(info@) == told_display(handle, device@, bounds),
            None => told_display(handle, device@, bounds) is None,
        },
{
    let device_name = string_from_wide_slice(device);
    if is_blank(device_name.as_str()) {
        return None;
    }
    Some(DisplayInfo { handle, device_name, bounds })
}

impl DisplayInfoView {
    /// The display without any targets.
    pub open spec fn bare(self) -> DisplayView {
        DisplayView {
            device_name: self.device_name,
            bounds: self.bounds,
            targets: Seq::empty(),
            dimming_state: DisplayDimmingState::Lit,
            pending_operation: None,
            last_blocking_window: None,
        }
    }

    /// The target for a monitor that shows the display, before it is probed.
    pub open spec fn target(self, monitor: MonitorInfoView, at: int) -> TargetView {
        let description = decoded(until_null(monitor.description));
        TargetView::found(
            monitor.handle,
            TargetKeyView {
                display_device_name: self.device_name,
                description: normalized(description),
                physical_index: at,
            },
            description,
        )
    }

    /// The targets for the monitors that show the display, before they are
    /// probed.
    pub open spec fn targets(self, monitors: Seq<MonitorInfoView>) -> Seq<TargetView> {
        Seq::new(monitors.len(), |i: int| self.target(monitors[i], i))
    }
}

/// What is asked of a display.
#[derive(Debug, Clone, Copy, PartialEq, Eq, Structural)]
pub enum EnumerationStage {
    /// How many monitors show it.
    Counting,
    /// Which monitors, so many of them, show it.
    Listing { count: u32 },
    /// Whether the brightness of the monitors that show it can be set.
    Probing { at: Await },
}

/// An enumeration that waits for an answer.
#[derive(Debug)]
pub struct Enumeration {
    /// All displays that the system lists.
    pub infos: Vec<DisplayInfo>,
    /// The displays that are done, and while its monitors are being probed the
    /// one being worked on.
    pub displays: Vec<DisplayState>,
    /// The display being worked on.
    pub next: usize,
    pub stage: EnumerationStage,
}

/// The contents of an `Enumeration`.
#[verifier::ext_equal]
pub struct EnumerationView {
    pub infos: Seq<DisplayInfoView>,
    pub displays: Seq<DisplayView>,
    pub next: int,
    pub stage: EnumerationStage,
}

impl View for Enumeration {
    type V = EnumerationView;

    open spec fn view(&self) -> EnumerationView {
        EnumerationView {
            infos: info_views(self.infos@),
            displays: display_views(self.displays@),
            next: self.next as int,
            stage: self.stage,
        }
    }
}

/// Where an enumeration stands.
#[derive(Debug)]
pub enum EnumerationStep {
    /// All displays are found.
    Finished(Vec<DisplayState>),
    /// An answer is needed.
    Waiting(Enumeration),
}

/// The contents of an `EnumerationStep`.
pub enum EnumerationStepView {
    Finished(Seq<DisplayView>),
    Waiting(EnumerationView),
}

impl View for EnumerationStep {
    type V = EnumerationStepView;

    open spec fn view(&self) -> EnumerationStepView {
        match *self {
            EnumerationStep::Finished(displays) => EnumerationStepView::Finished(
                display_views(displays@),
            ),
            EnumerationStep::Waiting(enumeration) => EnumerationStepView::Waiting(enumeration@),
        }
    }
}

/// What an enumeration asks.
#[derive(Debug, Clone, Copy, PartialEq, Eq, Structural)]
pub enum EnumerationRequest {
    /// How many monitors show the display.
    CountMonitors { display: isize },
    /// Which monitors show the display.
    ListMonitors { display: isize, count: u32 },
    /// Something of a monitor.
    Monitor { request: MonitorRequest },
}

/// An answer to an enumeration.
#[derive(Debug)]
pub enum EnumerationReply {
    /// The number of monitors, unless it cannot be told.
    MonitorCount(Option<u32>),
    /// The monitors, unless they cannot be told.
    Monitors(Option<Vec<MonitorInfo>>),
    /// A monitor's answer.
    Monitor(MonitorReply),
}

/// The contents of an `EnumerationReply`.
pub enum EnumerationReplyView {
    MonitorCount(Option<u32>),
    Monitors(Option<Seq<MonitorInfoView>>),
    Monitor(MonitorReply),
}

impl View for EnumerationReply {
    type V = EnumerationReplyView;

    open spec fn view(&self) -> EnumerationReplyView {
        match *self {
            EnumerationReply::MonitorCount(count) => EnumerationReplyView::MonitorCount(count),
            EnumerationReply::Monitors(Some(monitors)) => EnumerationReplyView::Monitors(
                Some(monitor_views(monitors@)),
            ),
            EnumerationReply::Monitors(None) => EnumerationReplyView::Monitors(None),
            EnumerationReply::Monitor(reply) => EnumerationReplyView::Monitor(reply),
        }
    }
}

impl EnumerationReplyView {
    /// The answer is one to what the enumeration asks.
    pub open spec fn answers(self, stage: EnumerationStage) -> bool {
        match stage {
            EnumerationStage::Counting => self is MonitorCount,
            EnumerationStage::Listing { .. } => self is Monitors,
            EnumerationStage::Probing { at } => self matches EnumerationReplyView::Monitor(reply)
                && reply.answers(at.stage),
        }
    }
}

/// Goes on with an enumeration at the display `next`, the earlier ones being
/// done.
pub open spec fn enumerated(
    infos: Seq<DisplayInfoView>,
    displays: Seq<DisplayView>,
    next: int,
) -> EnumerationStepView {
    if next < 0 || next >= infos.len() {
        EnumerationStepView::Finished(displays)
    } else {
        EnumerationStepView::Waiting(
            EnumerationView { infos, displays, next, stage: EnumerationStage::Counting },
        )
    }
}

impl EnumerationView {
    /// An enumeration can wait like this.
    pub open spec fn can_wait(self) -> bool {
        &&& 0 <= self.next < self.infos.len()
        &&& self.stage matches EnumerationStage::Probing { at } ==> self.displays.len() > 0
            && can_wait(self.displays.last().targets, TargetCommand::Probe, at)
    }

    /// What an enumeration asks.
    pub open spec fn request(self) -> EnumerationRequest
        recommends
            self.can_wait(),
    {
        let display = self.infos[self.next].handle;
        match self.stage {
            EnumerationStage::Counting => EnumerationRequest::CountMonitors { display },
            EnumerationStage::Listing { count } => EnumerationRequest::ListMonitors {
                display,
                count,
            },
            EnumerationStage::Probing { at } => EnumerationRequest::Monitor {
                request: MonitorRequest {
                    monitor: self.displays.last().targets[at.target as int].handle,
                    stage: at.stage,
                },
            },
        }
    }

    /// Passes on to the next display; this one has no monitor that can be
    /// talked to.
    pub open spec fn passed_over(self) -> EnumerationStepView {
        enumerated(
            self.infos,
            self.displays.push(self.infos[self.next].bare()),
            self.next + 1,
        )
    }

    /// Goes on after a step of the sweep that probes the monitors of the last
    /// display.
    pub open spec fn probed(self, sweep: (Seq<TargetView>, SweepStep)) -> EnumerationStepView {
        let last = self.displays.len() - 1;
        let displays = self.displays.update(
            last,
            DisplayView { targets: sweep.0, ..self.displays[last] },
        );
        match sweep.1 {
            SweepStep::Finished { .. } => enumerated(self.infos, displays, self.next + 1),
            SweepStep::Waiting { at } => EnumerationStepView::Waiting(
                EnumerationView { displays, stage: EnumerationStage::Probing { at }, ..self },
            ),
        }
    }

    /// Takes the monitors of a display, and starts probing them.
    pub open spec fn listed(self, monitors: Seq<MonitorInfoView>) -> EnumerationStepView {
        let info = self.infos[self.next];
        let display = DisplayView { targets: info.targets(monitors), ..info.bare() };
        (EnumerationView { displays: self.displays.push(display), ..self }).probed(
            swept(display.targets, TargetCommand::Probe, 0, true),
        )
    }

    /// Goes on with an enumeration, with the answer it waits for.
    pub open spec fn continued(self, reply: EnumerationReplyView) -> EnumerationStepView
        recommends
            self.can_wait(),
            reply.answers(self.stage),
    {
        match (self.stage, reply) {
            (EnumerationStage::Counting, EnumerationReplyView::MonitorCount(Some(count))) =>
            if count == 0 {
                self.passed_over()
            } else {
                EnumerationStepView::Waiting(
                    EnumerationView { stage: EnumerationStage::Listing { count }, ..self },
                )
            },
            (
                EnumerationStage::Listing { .. },
                EnumerationReplyView::Monitors(Some(monitors)),
            ) => self.listed(monitors),
            (EnumerationStage::Probing { at }, EnumerationReplyView::Monitor(reply)) => self.probed(
                swept_on(self.displays.last().targets, TargetCommand::Probe, at, reply),
            ),
            _ => self.passed_over(),
        }
    }
}

/// An enumeration waits only where it can.
pub open spec fn waits_well(step: EnumerationStepView) -> bool {
    step matches EnumerationStepView::Waiting(enumeration) ==> enumeration.can_wait()
}

impl EnumerationReply {
    /// Tests whether the answer is one to what the enumeration asks.
    pub fn is_answer_to(&self, stage: EnumerationStage) -> (result: bool)
        ensures
            result == self@.answers(stage),
    {
        match (stage, self) {
            (EnumerationStage::Counting, EnumerationReply::MonitorCount(_)) => true,
            (EnumerationStage::Listing { .. }, EnumerationReply::Monitors(_)) => true,
            (EnumerationStage::Probing { at }, EnumerationReply::Monitor(reply)) =>
            reply.is_answer_to(at.stage),
            _ => false,
        }
    }
}

/// The targets for the monitors that show a display, before they are probed.
fn found_targets(info: &DisplayInfo, monitors: Vec<MonitorInfo>) -> (targets: Vec<
    PhysicalMonitorTarget,
>)
    ensures
        target_views(targets@) == info@.targets(monitor_views(monitors@)),
{
    let mut targets: Vec<PhysicalMonitorTarget> = Vec::new();
    let mut at: usize = 0;
    while at < monitors.len()
        invariant
            at <= monitors@.len(),
            targets@.len() == at,
            forall|i: int|
                0 <= i < at ==> (#[trigger] targets@[i])@ == info@.target(monitors@[i]@, i),
        decreases monitors@.len() - at,
    {
        let description = string_from_wide_slice(monitors[at].description.as_slice());
        let key = TargetKey {
            display_device_name: info.device_name.clone(),
            description: normalize_name(description.as_str()),
            physical_index: at,
        };
        targets.push(PhysicalMonitorTarget::new(monitors[at].handle, key, description));
        at = at + 1;
    }
    targets
}

/// Goes on with an enumeration at the display `next`.
fn pass_on(infos: Vec<DisplayInfo>, displays: Vec<DisplayState>, next: usize) -> (step:
    EnumerationStep)
    ensures
        step@ == enumerated(info_views(infos@), display_views(displays@), next as int),
        waits_well(step@),
{
    if next >= infos.len() {
        EnumerationStep::Finished(displays)
    } else {
        EnumerationStep::Waiting(
            Enumeration { infos, displays, next, stage: EnumerationStage::Counting },
        )
    }
}

/// Starts finding the monitors of the displays that the system lists.
pub fn enumerate_displays(infos: Vec<DisplayInfo>) -> (step: EnumerationStep)
    ensures
        step@ == enumerated(info_views(infos@), Seq::empty(), 0),
        waits_well(step@),
{
    let displays: Vec<DisplayState> = Vec::new();
    assert(display_views(displays@) == Seq::<DisplayView>::empty());
    pass_on(infos, displays, 0)
}

impl Enumeration {
    /// What the enumeration asks.
    pub fn request(&self) -> (request: EnumerationRequest)
        requires
            self@.can_wait(),
        ensures
            request == self@.request(),
    {
        let display: isize = self.infos[self.next].handle;
        match self.stage {
            EnumerationStage::Counting => EnumerationRequest::CountMonitors { display },
            EnumerationStage::Listing { count } => EnumerationRequest::ListMonitors {
                display,
                count,
            },
            EnumerationStage::Probing { at } => {
                let last = &self.displays[self.displays.len() - 1];
                EnumerationRequest::Monitor {
                    request: MonitorRequest {
                        monitor: last.targets[at.target].handle,
                        stage: at.stage,
                    },
                }
            },
        }
    }

    /// Goes on after a step of the sweep that probes the monitors of the last
    /// display, whose targets the sweep has changed already.
    fn follow(self, step: SweepStep, Ghost(before): Ghost<EnumerationView>) -> (result:
        EnumerationStep)
        requires
            0 <= self@.next < self@.infos.len(),
            self@.displays.len() > 0,
            before.infos == self@.infos,
            before.next == self@.next,
            self@.displays =~= before.displays.update(
                before.displays.len() - 1,
                DisplayView {
                    targets: self@.displays.last().targets,
                    ..before.displays.last()
                },
            ),
            step matches SweepStep::Waiting { at } ==> can_wait(
                self@.displays.last().targets,
                TargetCommand::Probe,
                at,
            ),
        ensures
            result@ == before.probed((self@.displays.last().targets, step)),
            waits_well(result@),
    {
        let Enumeration { infos, displays, next, .. } = self;
        match step {
            SweepStep::Finished { .. } => {
                assert(next < infos.len());
                pass_on(infos, displays, next + 1)
            },
            SweepStep::Waiting { at } => EnumerationStep::Waiting(
                Enumeration { infos, displays, next, stage: EnumerationStage::Probing { at } },
            ),
        }
    }

    /// Goes on with an enumeration, with the answer it waits for. A display
    /// whose monitors cannot be told stays without targets.
    pub fn resume(self, reply: EnumerationReply) -> (step: EnumerationStep)
        requires
            self@.can_wait(),
            reply@.answers(self.stage),
        ensures
            step@ == self@.continued(reply@),
            waits_well(step@),
    {
        let ghost before = self@;
        let Enumeration { infos, mut displays, next, stage } = self;
        assert(next < infos.len());
        let device_name = infos[next].device_name.clone();
        let mut display = DisplayState {
            device_name,
            bounds: infos[next].bounds,
            targets: Vec::new(),
            dimming_state: DisplayDimmingState::Lit,
            pending_operation: None,
            last_blocking_window: None,
        };
        assert(target_views(display.targets@) == Seq::<TargetView>::empty());
        match (stage, reply) {
            (EnumerationStage::Counting, EnumerationReply::MonitorCount(Some(count))) => {
                if count != 0 {
                    return EnumerationStep::Waiting(
                        Enumeration {
                            infos,
                            displays,
                            next,
                            stage: EnumerationStage::Listing { count },
                        },
                    );
                }
            },
            (EnumerationStage::Listing { .. }, EnumerationReply::Monitors(Some(monitors))) => {
                display.targets = found_targets(&infos[next], monitors);
                let ghost found = display@;
                assert(display.targets.len() <= usize::MAX);
                let step = sweep(&mut display.targets, TargetCommand::Probe, 0, true);
                proof {
                    lemma_swept_waits(found.targets, TargetCommand::Probe, 0, true);
                }
                displays.push(display);
                let ghost listed = EnumerationView {
                    displays: before.displays.push(found),
                    ..before
                };
                return (Enumeration { infos, displays, next, stage }).follow(step, Ghost(listed));
            },
            (EnumerationStage::Probing { at }, EnumerationReply::Monitor(reply)) => {
                let last: usize = displays.len() - 1;
                assert(displays@[last as int].targets.len() <= usize::MAX);
                let step = resume_sweep(
                    &mut displays[last].targets,
                    TargetCommand::Probe,
                    at,
                    reply,
                );
                proof {
                    lemma_swept_on_waits(
                        before.displays.last().targets,
                        TargetCommand::Probe,
                        at,
                        reply,
                    );
                }
                return (Enumeration { infos, displays, next, stage }).follow(step, Ghost(before));
            },
            _ => {},
        }
        displays.push(display);
        assert(display_views(displays@) == before.displays.push(before.infos[before.next].bare()));
        pass_on(infos, displays, next + 1)
    }
}

} // verus!
