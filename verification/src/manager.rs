//! All displays, and the operations that go over all of them.

use vstd::prelude::*;

use crate::brightness::occupancy_state;
use crate::brightness::occupied_as;
use crate::brightness::DisplayDimmingState;
use crate::brightness::PendingBrightnessOperation;
use crate::display::lemma_visit_on_waits;
use crate::display::lemma_visit_waits;
use crate::display::optional_text;
use crate::display::resume_visit;
use crate::display::user_dimming;
use crate::display::visit_display;
use crate::display::Await;
use crate::display::Conditions;
use crate::display::DisplayState;
use crate::display::DisplayStep;
use crate::display::DisplayView;
use crate::display::Errand;
use crate::display::Visit;
use crate::ledger::Ledger;
use crate::settings::AppSettings;
use crate::settings::SettingsView;
use crate::snapshot::capture_display_snapshots;
use crate::snapshot::captured_displays;
use crate::snapshot::display_views;
use crate::snapshot::recalled_displays;
use crate::snapshot::restore_display_snapshots;
use crate::snapshot::DisplaySnapshot;
use crate::snapshot::DisplaySnapshotView;
use crate::target::target_views;
use crate::target::MonitorReply;
use crate::target::PhysicalMonitorTarget;
use crate::target::Stage;
use crate::target::TargetView;
use crate::text::decimal;
use crate::text::write_unsigned;
use crate::tracking::blocking_caption;
use crate::tracking::first_blocking;
use crate::tracking::try_find_blocking_window;
use crate::tracking::window_views;
use crate::tracking::TrackedWindow;
use crate::tracking::WindowView;

verus! {

/// All displays and what is to happen to them.
#[derive(Debug)]
pub struct MonitorManager {
    pub settings: AppSettings,
    pub displays: Vec<DisplayState>,
    pub detached_snapshots: Ledger<String, DisplaySnapshot>,
    pub manual_dimming_enabled: bool,
}

/// The contents of a `MonitorManager`.
#[verifier::ext_equal]
pub struct ManagerView {
    pub settings: SettingsView,
    pub displays: Seq<DisplayView>,
    pub detached_snapshots: Map<Seq<char>, DisplaySnapshotView>,
    pub manual_dimming_enabled: bool,
}

impl View for MonitorManager {
    type V = ManagerView;

    open spec fn view(&self) -> ManagerView {
        ManagerView {
            settings: self.settings@,
            displays: display_views(self.displays@),
            detached_snapshots: self.detached_snapshots@,
            manual_dimming_enabled: self.manual_dimming_enabled,
        }
    }
}

/// What is done with all displays.
#[derive(Debug, Clone, Copy, PartialEq, Eq, Structural)]
pub enum Job {
    /// Each is brought in line with what is on it.
    Update,
    /// All are dimmed by hand.
    DimAll,
    /// All are restored by hand.
    RestoreAllFromUser,
    /// All are set to a percentage of their ranges.
    SetAll { brightness: u32 },
    /// All are returned to their earlier levels for the last time.
    RestoreAll,
}

/// A job that waits for a monitor's answer.
#[derive(Debug)]
pub struct Operation {
    pub job: Job,
    /// For each display whether a window keeps it lit.
    pub occupied: Vec<bool>,
    pub display: usize,
    pub errand: Errand,
    pub at: Await,
}

/// The contents of an `Operation`.
#[verifier::ext_equal]
pub struct OperationView {
    pub job: Job,
    pub occupied: Seq<bool>,
    pub display: int,
    pub errand: Errand,
    pub at: Await,
}

impl View for Operation {
    type V = OperationView;

    open spec fn view(&self) -> OperationView {
        OperationView {
            job: self.job,
            occupied: self.occupied@,
            display: self.display as int,
            errand: self.errand,
            at: self.at,
        }
    }
}

/// The contents of an optional operation.
pub open spec fn optional_operation(operation: Option<Operation>) -> Option<OperationView> {
    match operation {
        Some(operation) => Some(operation@),
        None => None,
    }
}

/// What is asked of a monitor.
#[derive(Debug, Clone, Copy, PartialEq, Eq, Structural)]
pub struct MonitorRequest {
    pub monitor: isize,
    pub stage: Stage,
}

/// A window keeps the display at the place lit.
pub open spec fn is_occupied(occupied: Seq<bool>, at: int) -> bool {
    0 <= at < occupied.len() && occupied[at]
}

impl Job {
    /// What the job does with a display.
    pub open spec fn visit(self, empty_brightness: u32, has_window: bool) -> Visit {
        match self {
            Job::Update => Visit::Update,
            Job::DimAll => Visit::Request { operation: user_dimming(empty_brightness) },
            Job::RestoreAllFromUser => Visit::Request {
                operation: PendingBrightnessOperation::Restore {
                    next_state: occupied_as(has_window),
                },
            },
            Job::SetAll { brightness } => Visit::Request {
                operation: PendingBrightnessOperation::SetLevel {
                    brightness,
                    next_state: occupied_as(has_window),
                },
            },
            Job::RestoreAll => Visit::Shutdown,
        }
    }

    /// What the job does with a display.
    fn visit_to(self, empty_brightness: u32, has_window: bool) -> (visit: Visit)
        ensures
            visit == self.visit(empty_brightness, has_window),
    {
        match self {
            Job::Update => Visit::Update,
            Job::DimAll => Visit::Request {
                operation: PendingBrightnessOperation::Dim {
                    brightness: empty_brightness,
                    next_state: DisplayDimmingState::UserDimmed,
                },
            },
            Job::RestoreAllFromUser => Visit::Request {
                operation: PendingBrightnessOperation::Restore {
                    next_state: occupancy_state(has_window),
                },
            },
            Job::SetAll { brightness } => Visit::Request {
                operation: PendingBrightnessOperation::SetLevel {
                    brightness,
                    next_state: occupancy_state(has_window),
                },
            },
            Job::RestoreAll => Visit::Shutdown,
        }
    }
}

impl ManagerView {
    /// A manager at its start.
    pub open spec fn fresh(settings: SettingsView, displays: Seq<DisplayView>) -> ManagerView {
        ManagerView {
            settings,
            displays,
            detached_snapshots: Map::empty(),
            manual_dimming_enabled: false,
        }
    }

    /// What the state of a display depends on.
    pub open spec fn conditions(self, has_window: bool) -> Conditions {
        Conditions {
            has_window,
            manual_dimming: self.manual_dimming_enabled,
            empty_brightness: self.settings.empty_brightness,
        }
    }

    /// The manager with one display in another state.
    pub open spec fn with_display(self, at: int, display: DisplayView) -> ManagerView {
        ManagerView { displays: self.displays.update(at, display), ..self }
    }

    /// Goes on with a job at the display `from`, the earlier ones being done.
    pub open spec fn advanced(self, job: Job, occupied: Seq<bool>, from: int) -> (
        ManagerView,
        Option<OperationView>,
    )
        decreases self.displays.len() - from,
    {
        if from < 0 || from >= self.displays.len() {
            (self, None)
        } else {
            let has_window = is_occupied(occupied, from);
            let (display, step) = self.displays[from].visited(
                job.visit(self.settings.empty_brightness, has_window),
                self.conditions(has_window),
            );
            match step {
                DisplayStep::Finished => self.with_display(from, display).advanced(
                    job,
                    occupied,
                    from + 1,
                ),
                DisplayStep::Waiting { errand, at } => (
                    self.with_display(from, display),
                    Some(OperationView { job, occupied, display: from, errand, at }),
                ),
            }
        }
    }

    /// Goes on with a job that waits, with the answer it waits for.
    pub open spec fn advanced_on(self, operation: OperationView, reply: MonitorReply) -> (
        ManagerView,
        Option<OperationView>,
    ) {
        let (display, step) = self.displays[operation.display].visited_on(
            self.conditions(is_occupied(operation.occupied, operation.display)),
            operation.errand,
            operation.at,
            reply,
        );
        let next = self.with_display(operation.display, display);
        match step {
            DisplayStep::Finished => next.advanced(
                operation.job,
                operation.occupied,
                operation.display + 1,
            ),
            DisplayStep::Waiting { errand, at } => (
                next,
                Some(OperationView { errand, at, ..operation }),
            ),
        }
    }

    /// A job can wait there.
    pub open spec fn awaits(self, operation: OperationView) -> bool {
        &&& 0 <= operation.display < self.displays.len()
        &&& self.displays[operation.display].awaits(operation.errand, operation.at)
    }

    /// What a job that waits asks, and of which monitor.
    pub open spec fn request(self, operation: OperationView) -> MonitorRequest
        recommends
            self.awaits(operation),
    {
        let targets = self.displays[operation.display].targets;
        MonitorRequest {
            monitor: targets[operation.at.target as int].handle,
            stage: operation.at.stage,
        }
    }

    /// For each display whether a window keeps it lit.
    pub open spec fn survey(self, windows: Seq<WindowView>) -> Seq<bool> {
        self.displays.map_values(
            |display: DisplayView| first_blocking(self.settings, display.bounds, windows) is Some,
        )
    }

    /// Notes on each display the caption of the window that keeps it lit, or
    /// else the given note.
    pub open spec fn noted(
        self,
        windows: Seq<WindowView>,
        otherwise: Option<Seq<char>>,
    ) -> ManagerView {
        ManagerView {
            displays: self.displays.map_values(
                |display: DisplayView|
                    DisplayView {
                        last_blocking_window: match blocking_caption(
                            self.settings,
                            display.bounds,
                            windows,
                        ) {
                            Some(caption) => Some(caption),
                            None => otherwise,
                        },
                        ..display
                    },
            ),
            ..self
        }
    }

    /// Starts bringing all displays in line with what is on them.
    pub open spec fn updating(self, windows: Seq<WindowView>) -> (
        ManagerView,
        Option<OperationView>,
    ) {
        self.noted(windows, None).advanced(Job::Update, self.survey(windows), 0)
    }

    /// Starts restoring all displays by hand.
    pub open spec fn restoring_from_user(self, windows: Seq<WindowView>) -> (
        ManagerView,
        Option<OperationView>,
    ) {
        (ManagerView { manual_dimming_enabled: false, ..self }).noted(windows, None).advanced(
            Job::RestoreAllFromUser,
            self.survey(windows),
            0,
        )
    }

    /// Starts setting all displays to a percentage of their ranges.
    pub open spec fn setting_all(self, brightness: u32, windows: Seq<WindowView>) -> (
        ManagerView,
        Option<OperationView>,
    ) {
        (ManagerView { manual_dimming_enabled: false, ..self }).noted(
            windows,
            Some(brightness_note(brightness)),
        ).advanced(Job::SetAll { brightness }, self.survey(windows), 0)
    }

    /// Starts dimming all displays by hand.
    pub open spec fn dimming_all(self) -> (ManagerView, Option<OperationView>) {
        (ManagerView {
            manual_dimming_enabled: true,
            displays: self.displays.map_values(
                |display: DisplayView|
                    DisplayView { last_blocking_window: Some("Tray icon click"@), ..display },
            ),
            ..self
        }).advanced(Job::DimAll, Seq::empty(), 0)
    }

    /// Starts returning all displays to their earlier levels for the last
    /// time.
    pub open spec fn restoring_all(self) -> (ManagerView, Option<OperationView>) {
        self.advanced(Job::RestoreAll, Seq::empty(), 0)
    }
}

/// The handles of the monitors that are still open.
pub open spec fn open_handles(targets: Seq<TargetView>) -> Seq<isize> {
    targets.filter_map(
        |target: TargetView|
            if target.disposed {
                None
            } else {
                Some(target.handle)
            },
    )
}

/// The handles of the monitors of all displays that are still open.
pub open spec fn open_monitors(displays: Seq<DisplayView>) -> Seq<isize>
    decreases displays.len(),
{
    if displays.len() == 0 {
        Seq::empty()
    } else {
        open_monitors(displays.drop_last()) + open_handles(displays.last().targets)
    }
}

impl ManagerView {
    /// The manager without its displays.
    pub open spec fn without_displays(self) -> ManagerView {
        ManagerView { displays: Seq::empty(), ..self }
    }

    /// The manager without its displays, with what is remembered of them in
    /// place of what was remembered under the same names.
    pub open spec fn detached(self) -> ManagerView {
        ManagerView {
            displays: Seq::empty(),
            detached_snapshots: self.detached_snapshots.union_prefer_right(
                captured_displays(self.displays),
            ),
            ..self
        }
    }

    /// The manager with new displays, which are given what is remembered of
    /// them.
    pub open spec fn attached(self, displays: Seq<DisplayView>) -> ManagerView {
        let (recalled, left) = recalled_displays(displays, self.detached_snapshots, 0);
        ManagerView { displays: recalled, detached_snapshots: left, ..self }
    }
}

/// Closes targets for good, and lists behind the given ones the handles that
/// were still open.
fn dispose_targets(targets: &mut Vec<PhysicalMonitorTarget>, handles: &mut Vec<isize>)
    ensures
        final(handles)@ == old(handles)@ + open_handles(target_views(old(targets)@)),
{
    let ghost views = target_views(targets@);
    let ghost open = |target: TargetView|
        if target.disposed {
            None
        } else {
            Some(target.handle)
        };
    let mut at: usize = 0;
    assert(views.take(0).filter_map(open) == Seq::<isize>::empty());
    while at < targets.len()
        invariant
            at <= targets@.len(),
            targets@.len() == views.len(),
            open == (|target: TargetView|
                if target.disposed {
                    None
                } else {
                    Some(target.handle)
                }),
            forall|i: int| at <= i < targets@.len() ==> (#[trigger] targets@[i])@ == views[i],
            handles@ == old(handles)@ + views.take(at as int).filter_map(open),
        decreases targets@.len() - at,
    {
        let ghost so_far = handles@;
        assert(targets@[at as int]@ == views[at as int]);
        match targets[at].dispose() {
            Some(handle) => handles.push(handle),
            None => {},
        }
        proof {
            views.lemma_filter_map_take_succ(open, at as int);
        }
        at = at + 1;
    }
    assert(views.take(views.len() as int) == views);
}

/// The note on a display that was set to a brightness.
pub open spec fn brightness_note(brightness: u32) -> Seq<char> {
    "Brightness set to "@ + decimal(brightness as int) + "%"@
}

impl MonitorManager {
    /// A manager without displays.
    pub fn new(settings: AppSettings) -> (manager: Self)
        ensures
            manager@ == ManagerView::fresh(settings@, Seq::empty()),
    {
        let manager = MonitorManager {
            settings,
            displays: Vec::new(),
            detached_snapshots: Ledger::new(),
            manual_dimming_enabled: false,
        };
        assert(display_views(manager.displays@) == Seq::<DisplayView>::empty());
        manager
    }

    /// Whether the user has dimmed all displays by hand.
    pub fn manual_dimming_enabled(&self) -> (enabled: bool)
        ensures
            enabled == self@.manual_dimming_enabled,
    {
        self.manual_dimming_enabled
    }

    /// Goes on with a job at the display `from`.
    fn advance(&mut self, job: Job, occupied: Vec<bool>, from: usize) -> (operation: Option<
        Operation,
    >)
        requires
            from <= old(self)@.displays.len(),
        ensures
            (final(self)@, optional_operation(operation)) == old(self)@.advanced(
                job,
                occupied@,
                from as int,
            ),
            operation matches Some(operation) ==> final(self)@.awaits(operation@),
    {
        let mut at: usize = from;
        while at < self.displays.len()
            invariant
                at <= self.displays@.len(),
                old(self)@.advanced(job, occupied@, from as int) == self@.advanced(
                    job,
                    occupied@,
                    at as int,
                ),
            decreases self.displays@.len() - at,
        {
            let ghost before = self@;
            let has_window = at < occupied.len() && occupied[at];
            let visit = job.visit_to(self.settings.empty_brightness, has_window);
            let conditions = Conditions {
                has_window,
                manual_dimming: self.manual_dimming_enabled,
                empty_brightness: self.settings.empty_brightness,
            };
            assert(self.displays@[at as int].targets.len() <= usize::MAX);
            let step = visit_display(&mut self.displays[at], visit, conditions);
            proof {
                let display = before.displays[at as int];
                lemma_visit_waits(display, visit, conditions);
                assert(self@ == before.with_display(
                    at as int,
                    display.visited(visit, conditions).0,
                ));
            }
            match step {
                DisplayStep::Finished => {
                    at = at + 1;
                },
                DisplayStep::Waiting { errand, at: place } => {
                    return Some(Operation { job, occupied, display: at, errand, at: place });
                },
            }
        }
        None
    }

    /// Goes on with a job that waits, with the answer it waits for.
    pub fn resume(&mut self, operation: Operation, reply: MonitorReply) -> (next: Option<Operation>)
        requires
            old(self)@.awaits(operation@),
            reply.answers(operation.at.stage),
        ensures
            (final(self)@, optional_operation(next)) == old(self)@.advanced_on(operation@, reply),
            next matches Some(next) ==> final(self)@.awaits(next@),
    {
        let ghost before = self@;
        let ghost asked = operation@;
        let Operation { job, occupied, display, errand, at } = operation;
        let has_window = display < occupied.len() && occupied[display];
        let conditions = Conditions {
            has_window,
            manual_dimming: self.manual_dimming_enabled,
            empty_brightness: self.settings.empty_brightness,
        };
        assert(self.displays@[display as int].targets.len() <= usize::MAX);
        assert(display < self.displays.len());
        let step = resume_visit(&mut self.displays[display], conditions, errand, at, reply);
        proof {
            let visited = before.displays[display as int];
            lemma_visit_on_waits(visited, conditions, errand, at, reply);
            assert(self@ == before.with_display(
                display as int,
                visited.visited_on(conditions, errand, at, reply).0,
            ));
        }
        match step {
            DisplayStep::Finished => self.advance(job, occupied, display + 1),
            DisplayStep::Waiting { errand: next_errand, at: next_at } => Some(
                Operation { job, occupied, display, errand: next_errand, at: next_at },
            ),
        }
    }

    /// What a job that waits asks, and of which monitor.
    pub fn request(&self, operation: &Operation) -> (request: MonitorRequest)
        requires
            self@.awaits(operation@),
        ensures
            request == self@.request(operation@),
    {
        let target = &self.displays[operation.display].targets[operation.at.target];
        MonitorRequest { monitor: target.handle, stage: operation.at.stage }
    }

    /// Finds for each display the window that keeps it lit, and notes its
    /// caption, or else the given note.
    fn survey_displays(
        &mut self,
        windows: &[TrackedWindow],
        otherwise: Option<String>,
    ) -> (occupied: Vec<bool>)
        ensures
            final(self)@ == old(self)@.noted(window_views(windows@), optional_text(otherwise)),
            occupied@ == old(self)@.survey(window_views(windows@)),
    {
        let ghost views = window_views(windows@);
        let mut occupied: Vec<bool> = Vec::new();
        let mut at: usize = 0;
        while at < self.displays.len()
            invariant
                at <= self.displays@.len(),
                self.displays@.len() == old(self).displays@.len(),
                self.settings == old(self).settings,
                self.detached_snapshots == old(self).detached_snapshots,
                self.manual_dimming_enabled == old(self).manual_dimming_enabled,
                views == window_views(windows@),
                occupied@ == old(self)@.survey(views).take(at as int),
                forall|i: int|
                    0 <= i < at ==> (#[trigger] self.displays@[i])@ == old(self)@.noted(
                        views,
                        optional_text(otherwise),
                    ).displays[i],
                forall|i: int|
                    at <= i < self.displays@.len() ==> #[trigger] self.displays@[i] == old(
                        self,
                    ).displays@[i],
            decreases self.displays@.len() - at,
        {
            let (has_window, caption) = try_find_blocking_window(
                &self.settings,
                &self.displays[at],
                windows,
            );
            assert(old(self)@.displays[at as int] == self.displays@[at as int]@);
            let note = match caption {
                Some(caption) => Some(caption),
                None => match &otherwise {
                    Some(note) => Some(note.clone()),
                    None => None,
                },
            };
            self.displays[at].last_blocking_window = note;
            occupied.push(has_window);
            assert(old(self)@.survey(views).take(at + 1) == old(self)@.survey(views).take(
                at as int,
            ).push(has_window));
            at = at + 1;
        }
        assert(self@.displays == old(self)@.noted(views, optional_text(otherwise)).displays);
        assert(occupied@ == old(self)@.survey(views));
        occupied
    }

    /// Starts bringing all displays in line with what is on them.
    pub fn update(&mut self, windows: &[TrackedWindow]) -> (operation: Option<Operation>)
        ensures
            (final(self)@, optional_operation(operation)) == old(self)@.updating(
                window_views(windows@),
            ),
            operation matches Some(operation) ==> final(self)@.awaits(operation@),
    {
        let occupied = self.survey_displays(windows, None);
        self.advance(Job::Update, occupied, 0)
    }

    /// Starts restoring all displays by hand.
    pub fn restore_all_from_user(&mut self, windows: &[TrackedWindow]) -> (operation: Option<
        Operation,
    >)
        ensures
            (final(self)@, optional_operation(operation)) == old(self)@.restoring_from_user(
                window_views(windows@),
            ),
            operation matches Some(operation) ==> final(self)@.awaits(operation@),
    {
        self.manual_dimming_enabled = false;
        let occupied = self.survey_displays(windows, None);
        self.advance(Job::RestoreAllFromUser, occupied, 0)
    }

    /// Starts dimming all displays by hand.
    pub fn dim_all(&mut self) -> (operation: Option<Operation>)
        ensures
            (final(self)@, optional_operation(operation)) == old(self)@.dimming_all(),
            operation matches Some(operation) ==> final(self)@.awaits(operation@),
    {
        self.manual_dimming_enabled = true;
        let mut at: usize = 0;
        while at < self.displays.len()
            invariant
                at <= self.displays@.len(),
                self.displays@.len() == old(self).displays@.len(),
                self.settings == old(self).settings,
                self.detached_snapshots == old(self).detached_snapshots,
                self.manual_dimming_enabled,
                forall|i: int|
                    0 <= i < at ==> (#[trigger] self.displays@[i])@ == (DisplayView {
                        last_blocking_window: Some("Tray icon click"@),
                        ..old(self)@.displays[i]
                    }),
                forall|i: int|
                    at <= i < self.displays@.len() ==> #[trigger] self.displays@[i] == old(
                        self,
                    ).displays@[i],
            decreases self.displays@.len() - at,
        {
            assert(old(self)@.displays[at as int] == self.displays@[at as int]@);
            self.displays[at].last_blocking_window = Some("Tray icon click".to_string());
            at = at + 1;
        }
        assert(self@.displays == old(self)@.displays.map_values(
            |display: DisplayView|
                DisplayView { last_blocking_window: Some("Tray icon click"@), ..display },
        ));
        let nobody: Vec<bool> = Vec::new();
        self.advance(Job::DimAll, nobody, 0)
    }

    /// Starts setting all displays to a percentage of their ranges.
    pub fn set_all_brightness(&mut self, brightness: u32, windows: &[TrackedWindow]) -> (operation:
        Option<Operation>)
        ensures
            (final(self)@, optional_operation(operation)) == old(self)@.setting_all(
                brightness,
                window_views(windows@),
            ),
            operation matches Some(operation) ==> final(self)@.awaits(operation@),
    {
        self.manual_dimming_enabled = false;
        let mut note = "Brightness set to ".to_string();
        note.append(write_unsigned(brightness as u64).as_str());
        note.append("%");
        let occupied = self.survey_displays(windows, Some(note));
        self.advance(Job::SetAll { brightness }, occupied, 0)
    }

    /// Starts returning all displays to their earlier levels for the last
    /// time.
    pub fn restore_all(&mut self) -> (operation: Option<Operation>)
        ensures
            (final(self)@, optional_operation(operation)) == old(self)@.restoring_all(),
            operation matches Some(operation) ==> final(self)@.awaits(operation@),
    {
        let nobody: Vec<bool> = Vec::new();
        self.advance(Job::RestoreAll, nobody, 0)
    }

    /// Lets go of all displays, and tells which monitor handles are to be
    /// closed.
    pub fn release_displays(&mut self) -> (handles: Vec<isize>)
        ensures
            final(self)@ == old(self)@.without_displays(),
            handles@ == open_monitors(old(self)@.displays),
    {
        let ghost views = self@.displays;
        let mut handles: Vec<isize> = Vec::new();
        let mut at: usize = 0;
        assert(open_monitors(views.take(0)) == Seq::<isize>::empty());
        while at < self.displays.len()
            invariant
                at <= self.displays@.len(),
                self.displays@.len() == views.len(),
                self.settings == old(self).settings,
                self.detached_snapshots == old(self).detached_snapshots,
                self.manual_dimming_enabled == old(self).manual_dimming_enabled,
                forall|i: int|
                    at <= i < self.displays@.len() ==> (#[trigger] self.displays@[i])@ == views[i],
                handles@ == open_monitors(views.take(at as int)),
            decreases self.displays@.len() - at,
        {
            assert(self.displays@[at as int]@ == views[at as int]);
            dispose_targets(&mut self.displays[at].targets, &mut handles);
            proof {
                assert(views.take(at + 1).drop_last() == views.take(at as int));
                assert(views.take(at + 1).last() == views[at as int]);
            }
            at = at + 1;
        }
        assert(views.take(views.len() as int) == views);
        self.displays.clear();
        assert(self@.displays == Seq::<DisplayView>::empty());
        handles
    }

    /// Lets go of all displays, remembering how they were, and tells which
    /// monitor handles are to be closed.
    pub fn detach_displays(&mut self) -> (handles: Vec<isize>)
        ensures
            final(self)@ == old(self)@.detached(),
            handles@ == open_monitors(old(self)@.displays),
    {
        let captured = capture_display_snapshots(self.displays.as_slice());
        self.detached_snapshots.extend(captured);
        self.release_displays()
    }

    /// Takes displays that were found anew, and gives them what is remembered
    /// of them.
    pub fn attach_displays(&mut self, displays: Vec<DisplayState>)
        ensures
            final(self)@ == old(self)@.attached(display_views(displays@)),
    {
        self.displays = displays;
        restore_display_snapshots(self.displays.as_mut_slice(), &mut self.detached_snapshots);
    }

    /// Takes displays that were found anew, gives them what is remembered of
    /// them, and starts bringing them in line with what is on them.
    pub fn reenumerate(
        &mut self,
        displays: Vec<DisplayState>,
        windows: &[TrackedWindow],
    ) -> (operation: Option<Operation>)
        ensures
            (final(self)@, optional_operation(operation)) == old(self)@.attached(
                display_views(displays@),
            ).updating(window_views(windows@)),
            operation matches Some(operation) ==> final(self)@.awaits(operation@),
    {
        self.attach_displays(displays);
        self.update(windows)
    }
}

} // verus!
