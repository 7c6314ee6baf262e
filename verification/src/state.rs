//! The program as a whole: what it keeps in mind, and what it does on each
//! occasion.
//!
//! On each occasion a turn starts. It says what is to be done at once, and what
//! it needs to go on; with that it is taken further, until it is finished.

use vstd::prelude::*;

use crate::commands::command_with;
use crate::commands::find_command;
use crate::commands::Command;
use crate::display::optional_text;
use crate::display::DisplayState;
use crate::display::DisplayView;
use crate::enumeration::enumerate_displays;
use crate::enumeration::enumerated;
use crate::enumeration::info_views;
use crate::enumeration::DisplayInfo;
use crate::enumeration::DisplayInfoView;
use crate::enumeration::Enumeration;
use crate::enumeration::EnumerationReply;
use crate::enumeration::EnumerationReplyView;
use crate::enumeration::EnumerationStep;
use crate::enumeration::EnumerationStepView;
use crate::enumeration::EnumerationView;
use crate::events::last_event_text;
use crate::events::EventLog;
use crate::inspection::WindowTracker;
use crate::manager::open_monitors;
use crate::manager::optional_operation;
use crate::manager::ManagerView;
use crate::manager::MonitorManager;
use crate::manager::Operation;
use crate::manager::OperationView;
use crate::settings::AppSettings;
use crate::settings::SettingsView;
use crate::snapshot::display_views;
use crate::target::MonitorReply;
use crate::text::decimal;
use crate::text::starts_with;
use crate::text::write_signed;
use crate::text::write_unsigned;
use crate::tracking::window_views;
use crate::tracking::TrackedWindow;
use crate::tracking::WindowView;

verus! {

/// What the program keeps in mind.
#[derive(Debug)]
pub struct AppState {
    pub settings: AppSettings,
    pub monitor_manager: MonitorManager,
    pub window_tracker: WindowTracker,
    /// The timer runs.
    pub update_scheduled: bool,
    /// The timer runs to try again what has failed.
    pub retry_timer_scheduled: bool,
    /// The next update finds the displays anew.
    pub display_refresh_needed: bool,
    pub last_error: Option<String>,
}

/// The contents of an `AppState`.
#[verifier::ext_equal]
pub struct AppView {
    pub settings: SettingsView,
    pub monitor_manager: ManagerView,
    pub window_tracker: SettingsView,
    pub update_scheduled: bool,
    pub retry_timer_scheduled: bool,
    pub display_refresh_needed: bool,
    pub last_error: Option<Seq<char>>,
}

impl View for AppState {
    type V = AppView;

    open spec fn view(&self) -> AppView {
        AppView {
            settings: self.settings@,
            monitor_manager: self.monitor_manager@,
            window_tracker: self.window_tracker.settings@,
            update_scheduled: self.update_scheduled,
            retry_timer_scheduled: self.retry_timer_scheduled,
            display_refresh_needed: self.display_refresh_needed,
            last_error: optional_text(self.last_error),
        }
    }
}

/// Something to be done at once.
#[derive(Debug)]
pub enum Effect {
    StopTimer,
    /// If the timer cannot be started, `AppState::timer_lost` is to be called.
    StartTimer { milliseconds: u32 },
    SetTooltip { text: String },
}

/// The contents of an `Effect`.
#[verifier::ext_equal]
pub enum EffectView {
    StopTimer,
    StartTimer { milliseconds: u32 },
    SetTooltip { text: Seq<char> },
}

impl View for Effect {
    type V = EffectView;

    open spec fn view(&self) -> EffectView {
        match *self {
            Effect::StopTimer => EffectView::StopTimer,
            Effect::StartTimer { milliseconds } => EffectView::StartTimer { milliseconds },
            Effect::SetTooltip { text } => EffectView::SetTooltip { text: text@ },
        }
    }
}

/// The contents of a list of effects.
pub open spec fn effect_views(effects: Seq<Effect>) -> Seq<EffectView> {
    effects.map_values(|effect: Effect| effect@)
}

/// What a turn is about.
#[derive(Debug, Clone, Copy, PartialEq, Eq, Structural)]
pub enum Task {
    /// Dimming by hand is switched on or off.
    Toggle,
    /// All displays are set to a percentage of their ranges.
    SetBrightness { percent: u32 },
    /// All displays are brought in line with what is on them.
    Update,
}

/// What is left to be done at the end of a turn.
#[derive(Debug)]
pub enum AppAction {
    Nothing,
    Exit,
    ShowDiagnostics { text: String },
}

/// The contents of an `AppAction`.
#[verifier::ext_equal]
pub enum ActionView {
    Nothing,
    Exit,
    ShowDiagnostics { text: Seq<char> },
}

impl View for AppAction {
    type V = ActionView;

    open spec fn view(&self) -> ActionView {
        match *self {
            AppAction::Nothing => ActionView::Nothing,
            AppAction::Exit => ActionView::Exit,
            AppAction::ShowDiagnostics { text } => ActionView::ShowDiagnostics { text: text@ },
        }
    }
}

/// Where a turn stands.
#[derive(Debug)]
pub enum AppStep {
    /// The turn is finished.
    Finished { action: AppAction },
    /// The windows that count are to be listed: see `AppState::take_windows`.
    ListWindows { task: Task },
    /// The monitors are to be closed and the displays to be listed: see
    /// `AppState::take_displays`.
    ListDisplays { closing: Vec<isize>, windows: Vec<TrackedWindow> },
    /// An enumeration waits: see `AppState::resume_enumeration`.
    Enumerate { enumeration: Enumeration, windows: Vec<TrackedWindow> },
    /// A monitor's answer is needed: see `AppState::resume_operation`.
    Talk { task: Task, operation: Operation },
    /// The work on the displays is over: see `AppState::conclude`.
    Conclude { task: Task },
}

/// The contents of an `AppStep`.
#[verifier::ext_equal]
pub enum AppStepView {
    Finished { action: ActionView },
    ListWindows { task: Task },
    ListDisplays { closing: Seq<isize>, windows: Seq<WindowView> },
    Enumerate { enumeration: EnumerationView, windows: Seq<WindowView> },
    Talk { task: Task, operation: OperationView },
    Conclude { task: Task },
}

impl View for AppStep {
    type V = AppStepView;

    open spec fn view(&self) -> AppStepView {
        match *self {
            AppStep::Finished { action } => AppStepView::Finished { action: action@ },
            AppStep::ListWindows { task } => AppStepView::ListWindows { task },
            AppStep::ListDisplays { closing, windows } => AppStepView::ListDisplays {
                closing: closing@,
                windows: window_views(windows@),
            },
            AppStep::Enumerate { enumeration, windows } => AppStepView::Enumerate {
                enumeration: enumeration@,
                windows: window_views(windows@),
            },
            AppStep::Talk { task, operation } => AppStepView::Talk { task, operation: operation@ },
            AppStep::Conclude { task } => AppStepView::Conclude { task },
        }
    }
}

/// One stretch of a turn: what is to be done at once, in this order, and where
/// the turn stands then.
#[derive(Debug)]
pub struct Turn {
    pub effects: Vec<Effect>,
    pub step: AppStep,
}

/// The contents of a `Turn`.
#[verifier::ext_equal]
pub struct TurnView {
    pub effects: Seq<EffectView>,
    pub step: AppStepView,
}

impl View for Turn {
    type V = TurnView;

    open spec fn view(&self) -> TurnView {
        TurnView { effects: effect_views(self.effects@), step: self.step@ }
    }
}

/// A turn that is finished once the effects are done.
pub open spec fn finished_with(effects: Seq<EffectView>) -> TurnView {
    TurnView { effects, step: AppStepView::Finished { action: ActionView::Nothing } }
}

/// Starts the timer anew. It never runs for less than a millisecond.
pub open spec fn timer_effects(milliseconds: u32) -> Seq<EffectView> {
    seq![
        EffectView::StopTimer,
        EffectView::StartTimer {
            milliseconds: if milliseconds < 1 {
                1
            } else {
                milliseconds
            },
        },
    ]
}

/// Starts setting all displays to a percentage of their ranges.
pub open spec fn picking(percent: u32) -> TurnView {
    TurnView {
        effects: Seq::empty(),
        step: AppStepView::ListWindows { task: Task::SetBrightness { percent } },
    }
}

/// Starts an update.
pub open spec fn looking() -> TurnView {
    TurnView { effects: Seq::empty(), step: AppStepView::ListWindows { task: Task::Update } }
}

impl AppView {
    /// The program at its start.
    pub open spec fn fresh(settings: SettingsView, displays: Seq<DisplayView>) -> AppView {
        AppView {
            settings,
            monitor_manager: ManagerView::fresh(settings, displays),
            window_tracker: settings,
            update_scheduled: false,
            retry_timer_scheduled: false,
            display_refresh_needed: false,
            last_error: None,
        }
    }

    /// The text on the tray icon.
    pub open spec fn tooltip(self) -> Seq<char> {
        match self.last_error {
            Some(error) => "MMD - Error: "@ + error,
            None => if self.monitor_manager.pending_count() > 0 {
                "MMD - retrying "@ + decimal(self.monitor_manager.pending_count() as int)
                    + " brightness update(s)"@
            } else {
                "MMD - "@ + decimal(self.monitor_manager.dimmed_count() as int) + "/"@ + decimal(
                    self.monitor_manager.controllable_count() as int,
                ) + " dimmed"@
            },
        }
    }

    /// Shows the text on the tray icon.
    pub open spec fn showing(self) -> EffectView {
        EffectView::SetTooltip { text: self.tooltip() }
    }

    /// No update is scheduled.
    pub open spec fn unscheduled(self) -> AppView {
        AppView { update_scheduled: false, retry_timer_scheduled: false, ..self }
    }

    /// An update is scheduled.
    pub open spec fn scheduled(self, is_retry: bool) -> AppView {
        AppView { update_scheduled: true, retry_timer_scheduled: is_retry, ..self }
    }

    /// The timer could not be started.
    pub open spec fn without_timer(self) -> (AppView, TurnView) {
        let next = AppView {
            last_error: Some("Failed to schedule brightness update"@),
            ..self.unscheduled()
        };
        (next, finished_with(seq![next.showing()]))
    }

    /// Schedules an update, unless one other than a further attempt is
    /// scheduled already.
    pub open spec fn scheduling(self) -> (AppView, TurnView) {
        if self.update_scheduled && !self.retry_timer_scheduled {
            (self, finished_with(Seq::empty()))
        } else {
            (
                self.scheduled(false),
                finished_with(timer_effects(self.settings.event_debounce_milliseconds)),
            )
        }
    }

    /// Schedules an update that finds the displays anew.
    pub open spec fn scheduling_refresh(self) -> (AppView, TurnView) {
        (AppView { display_refresh_needed: true, ..self }).scheduling()
    }

    /// A further attempt is called for.
    pub open spec fn needs_retry(self) -> bool {
        self.monitor_manager.pending_count() > 0 && !self.update_scheduled
    }

    /// Ends the work on the displays: shows how they are, and schedules a
    /// further attempt where one is called for.
    pub open spec fn ending(self) -> (AppView, TurnView) {
        if self.needs_retry() {
            (
                self.scheduled(true),
                finished_with(
                    seq![self.showing()] + timer_effects(
                        self.settings.brightness_retry_milliseconds,
                    ),
                ),
            )
        } else {
            (self, finished_with(seq![self.showing()]))
        }
    }

    /// Ends a turn on a task. An update clears the last error, unless it has
    /// broken off.
    pub open spec fn concluded(self, task: Task, broken_off: bool) -> (AppView, TurnView) {
        match task {
            Task::Update => (AppView {
                last_error: if broken_off {
                    Some("Unexpected update error"@)
                } else {
                    None
                },
                ..self
            }).ending(),
            _ => self.ending(),
        }
    }

    /// Goes on after a step of a job.
    pub open spec fn working(self, task: Task, job: (ManagerView, Option<OperationView>)) -> (
        AppView,
        AppStepView,
    ) {
        (
            AppView { monitor_manager: job.0, ..self },
            match job.1 {
                Some(operation) => AppStepView::Talk { task, operation },
                None => AppStepView::Conclude { task },
            },
        )
    }

    /// Starts switching dimming by hand on or off.
    pub open spec fn toggling(self) -> (AppView, TurnView) {
        let (next, step) = if self.monitor_manager.manual_dimming_enabled {
            (self.unscheduled(), AppStepView::ListWindows { task: Task::Toggle })
        } else {
            self.unscheduled().working(Task::Toggle, self.monitor_manager.dimming_all())
        };
        (next, TurnView { effects: seq![EffectView::StopTimer], step })
    }

    /// Starts the update that was scheduled.
    pub open spec fn elapsed(self) -> (AppView, TurnView) {
        (
            self.unscheduled(),
            TurnView {
                effects: seq![EffectView::StopTimer],
                step: AppStepView::ListWindows { task: Task::Update },
            },
        )
    }

    /// Starts an update that finds the displays anew, in place of one that is
    /// scheduled.
    pub open spec fn refreshing(self) -> (AppView, TurnView) {
        (AppView { display_refresh_needed: true, ..self }).elapsed()
    }

    /// Goes on with the windows that count.
    pub open spec fn with_windows(self, task: Task, windows: Seq<WindowView>) -> (
        AppView,
        AppStepView,
    ) {
        match task {
            Task::Toggle => self.working(
                task,
                self.monitor_manager.restoring_from_user(windows),
            ),
            Task::SetBrightness { percent } => self.working(
                task,
                self.monitor_manager.setting_all(percent, windows),
            ),
            Task::Update => if self.display_refresh_needed {
                (
                    AppView {
                        monitor_manager: self.monitor_manager.detached(),
                        display_refresh_needed: false,
                        ..self
                    },
                    AppStepView::ListDisplays {
                        closing: open_monitors(self.monitor_manager.displays),
                        windows,
                    },
                )
            } else {
                self.working(task, self.monitor_manager.updating(windows))
            },
        }
    }

    /// Goes on after a step of an enumeration.
    pub open spec fn finding(self, found: EnumerationStepView, windows: Seq<WindowView>) -> (
        AppView,
        AppStepView,
    ) {
        match found {
            EnumerationStepView::Finished(displays) => self.working(
                Task::Update,
                self.monitor_manager.attached(displays).updating(windows),
            ),
            EnumerationStepView::Waiting(enumeration) => (
                self,
                AppStepView::Enumerate { enumeration, windows },
            ),
        }
    }

    /// Goes on with the displays that the system lists.
    pub open spec fn with_displays(
        self,
        infos: Seq<DisplayInfoView>,
        windows: Seq<WindowView>,
    ) -> (AppView, AppStepView) {
        self.finding(enumerated(infos, Seq::empty(), 0), windows)
    }

    /// Goes on with an answer to an enumeration.
    pub open spec fn with_finding(
        self,
        enumeration: EnumerationView,
        windows: Seq<WindowView>,
        reply: EnumerationReplyView,
    ) -> (AppView, AppStepView) {
        self.finding(enumeration.continued(reply), windows)
    }

    /// Goes on with a monitor's answer.
    pub open spec fn with_answer(
        self,
        task: Task,
        operation: OperationView,
        reply: MonitorReply,
    ) -> (AppView, AppStepView) {
        self.working(task, self.monitor_manager.advanced_on(operation, reply))
    }

    /// What went wrong when the tray icon was put back is told, or is
    /// forgotten once it has gone well.
    pub open spec fn restoring_tray_icon(self, error: Option<Seq<char>>) -> (AppView, TurnView) {
        let next = match error {
            Some(error) => AppView {
                last_error: Some("Failed to restore tray icon: "@ + error),
                ..self
            },
            None => AppView {
                last_error: match self.last_error {
                    Some(last) if "Failed to restore tray icon:"@.is_prefix_of(last) => None,
                    _ => self.last_error,
                },
                ..self
            },
        };
        (next, finished_with(seq![next.showing()]))
    }

    /// The diagnostics.
    pub open spec fn diagnostics(self, events: EventLog) -> Seq<char> {
        let text = "Dimmed displays: "@ + decimal(self.monitor_manager.dimmed_count() as int)
            + "\r\n"@ + "Debounce: "@ + decimal(self.settings.event_debounce_milliseconds as int)
            + " ms\r\n"@ + "Brightness retry: "@ + decimal(
            self.settings.brightness_retry_milliseconds as int,
        ) + " ms\r\n"@ + "Window events: "@ + decimal(events.count as int) + "\r\n"@
            + "Last window event: "@ + last_event_text(events.last) + "\r\n\r\n"@
            + self.monitor_manager.diagnostic_text();
        match self.last_error {
            Some(error) => text + "\r\n\r\nLast error: "@ + error,
            None => text,
        }
    }

    /// Starts carrying out a command.
    pub open spec fn commanded(self, id: usize, events: EventLog) -> (AppView, TurnView) {
        match command_with(id) {
            Some(Command::SetBrightness { percent }) => (self, picking(percent)),
            Some(Command::ToggleDimming) => self.toggling(),
            Some(Command::Refresh) => self.refreshing(),
            Some(Command::Diagnostics) => (
                self,
                TurnView {
                    effects: Seq::empty(),
                    step: AppStepView::Finished {
                        action: ActionView::ShowDiagnostics { text: self.diagnostics(events) },
                    },
                },
            ),
            Some(Command::Exit) => (
                self,
                TurnView {
                    effects: Seq::empty(),
                    step: AppStepView::Finished { action: ActionView::Exit },
                },
            ),
            None => (self, finished_with(Seq::empty())),
        }
    }

    /// A turn that stands there waits only where it can.
    pub open spec fn waits_well(self, step: AppStepView) -> bool {
        match step {
            AppStepView::Talk { operation, .. } => self.monitor_manager.awaits(operation),
            AppStepView::Enumerate { enumeration, .. } => enumeration.can_wait(),
            _ => true,
        }
    }

    /// A timer that runs for a further attempt runs.
    pub open spec fn timer_flags_agree(self) -> bool {
        self.retry_timer_scheduled ==> self.update_scheduled
    }
}

/// A turn that is finished once the effects are done.
fn finished(effects: Vec<Effect>) -> (turn: Turn)
    ensures
        turn@ == finished_with(effect_views(effects@)),
{
    Turn { effects, step: AppStep::Finished { action: AppAction::Nothing } }
}

/// A turn that stands at a step, with nothing to be done at once.
fn standing_at(step: AppStep) -> (turn: Turn)
    ensures
        turn@ == (TurnView { effects: Seq::empty(), step: step@ }),
{
    let effects: Vec<Effect> = Vec::new();
    assert(effect_views(effects@) == Seq::<EffectView>::empty());
    Turn { effects, step }
}

/// A turn that stands at a step, with the timer to be stopped.
fn stopping_timer(step: AppStep) -> (turn: Turn)
    ensures
        turn@ == (TurnView { effects: seq![EffectView::StopTimer], step: step@ }),
{
    let mut effects: Vec<Effect> = Vec::new();
    effects.push(Effect::StopTimer);
    assert(effect_views(effects@) == seq![EffectView::StopTimer]);
    Turn { effects, step }
}

impl AppState {
    /// The program at its start, with the displays that were found.
    pub fn new(settings: AppSettings, displays: Vec<DisplayState>) -> (state: Self)
        ensures
            state@ == AppView::fresh(settings@, display_views(displays@)),
    {
        let mut monitor_manager = MonitorManager::new(settings.clone());
        monitor_manager.displays = displays;
        let window_tracker = WindowTracker::new(settings.clone());
        AppState {
            settings,
            monitor_manager,
            window_tracker,
            update_scheduled: false,
            retry_timer_scheduled: false,
            display_refresh_needed: false,
            last_error: None,
        }
    }

    /// Writes the text on the tray icon.
    pub fn tray_text(&self) -> (text: String)
        ensures
            text@ == self@.tooltip(),
    {
        match &self.last_error {
            Some(error) => {
                let mut text = "MMD - Error: ".to_string();
                text.append(error.as_str());
                text
            },
            None => {
                let pending: usize = self.monitor_manager.pending_operation_count();
                if pending > 0 {
                    let mut text = "MMD - retrying ".to_string();
                    text.append(write_unsigned(pending as u64).as_str());
                    text.append(" brightness update(s)");
                    text
                } else {
                    let dimmed: usize = self.monitor_manager.dimmed_display_count();
                    let controllable: usize = self.monitor_manager.controllable_display_count();
                    let mut text = "MMD - ".to_string();
                    text.append(write_unsigned(dimmed as u64).as_str());
                    text.append("/");
                    text.append(write_unsigned(controllable as u64).as_str());
                    text.append(" dimmed");
                    text
                }
            },
        }
    }

    /// Shows the text on the tray icon.
    fn update_tray_text(&self) -> (effects: Vec<Effect>)
        ensures
            effect_views(effects@) == seq![self@.showing()],
    {
        let mut effects: Vec<Effect> = Vec::new();
        effects.push(Effect::SetTooltip { text: self.tray_text() });
        assert(effect_views(effects@) == seq![self@.showing()]);
        effects
    }

    /// Schedules an update, behind the given effects.
    fn set_update_timer(&mut self, milliseconds: u32, is_retry: bool, effects: &mut Vec<Effect>)
        ensures
            final(self)@ == old(self)@.scheduled(is_retry),
            effect_views(final(effects)@) == effect_views(old(effects)@) + timer_effects(
                milliseconds,
            ),
    {
        let ghost before = effect_views(effects@);
        self.update_scheduled = true;
        self.retry_timer_scheduled = is_retry;
        let milliseconds: u32 = if milliseconds < 1 {
            1
        } else {
            milliseconds
        };
        effects.push(Effect::StopTimer);
        effects.push(Effect::StartTimer { milliseconds });
        assert(effect_views(effects@) == before + timer_effects(milliseconds));
    }

    /// Takes note that the timer could not be started.
    pub fn timer_lost(&mut self) -> (turn: Turn)
        ensures
            (final(self)@, turn@) == old(self)@.without_timer(),
    {
        self.update_scheduled = false;
        self.retry_timer_scheduled = false;
        self.last_error = Some("Failed to schedule brightness update".to_string());
        finished(self.update_tray_text())
    }

    /// Schedules an update. Where one is scheduled already it stays, unless it
    /// is only a further attempt at what has failed.
    pub fn schedule_update(&mut self) -> (turn: Turn)
        ensures
            (final(self)@, turn@) == old(self)@.scheduling(),
    {
        let mut effects: Vec<Effect> = Vec::new();
        assert(effect_views(effects@) == Seq::<EffectView>::empty());
        if self.update_scheduled && !self.retry_timer_scheduled {
            return finished(effects);
        }
        let milliseconds: u32 = self.settings.event_debounce_milliseconds;
        self.set_update_timer(milliseconds, false, &mut effects);
        assert(effect_views(effects@) == timer_effects(milliseconds));
        finished(effects)
    }

    /// Schedules an update that finds the displays anew.
    pub fn schedule_display_refresh(&mut self) -> (turn: Turn)
        ensures
            (final(self)@, turn@) == old(self)@.scheduling_refresh(),
    {
        self.display_refresh_needed = true;
        self.schedule_update()
    }

    /// Schedules a further attempt where one is called for, behind the given
    /// effects.
    fn schedule_pending_retry(&mut self, effects: &mut Vec<Effect>)
        ensures
            final(self)@ == (if old(self)@.needs_retry() {
                old(self)@.scheduled(true)
            } else {
                old(self)@
            }),
            effect_views(final(effects)@) == effect_views(old(effects)@) + (if old(
                self,
            )@.needs_retry() {
                timer_effects(old(self)@.settings.brightness_retry_milliseconds)
            } else {
                Seq::empty()
            }),
    {
        if self.monitor_manager.pending_operation_count() > 0 && !self.update_scheduled {
            let milliseconds: u32 = self.settings.brightness_retry_milliseconds;
            self.set_update_timer(milliseconds, true, effects);
        } else {
            assert(effect_views(effects@) + Seq::<EffectView>::empty() == effect_views(effects@));
        }
    }

    /// Calls off the scheduled update.
    fn cancel_scheduled_update(&mut self)
        ensures
            final(self)@ == old(self)@.unscheduled(),
    {
        self.update_scheduled = false;
        self.retry_timer_scheduled = false;
    }

    /// Where a turn stands after a step of a job.
    fn step_of(task: Task, operation: Option<Operation>) -> (step: AppStep)
        ensures
            step@ == (match optional_operation(operation) {
                Some(operation) => AppStepView::Talk { task, operation },
                None => AppStepView::Conclude { task },
            }),
    {
        match operation {
            Some(operation) => AppStep::Talk { task, operation },
            None => AppStep::Conclude { task },
        }
    }

    /// Starts switching dimming by hand on or off.
    pub fn toggle_tray_brightness(&mut self) -> (turn: Turn)
        ensures
            (final(self)@, turn@) == old(self)@.toggling(),
            final(self)@.waits_well(turn@.step),
    {
        self.cancel_scheduled_update();
        if self.monitor_manager.manual_dimming_enabled() {
            return stopping_timer(AppStep::ListWindows { task: Task::Toggle });
        }
        let operation = self.monitor_manager.dim_all();
        stopping_timer(AppState::step_of(Task::Toggle, operation))
    }

    /// Starts setting all displays to a percentage of their ranges.
    pub fn set_brightness_now(&self, percent: u32) -> (turn: Turn)
        ensures
            turn@ == picking(percent),
    {
        standing_at(AppStep::ListWindows { task: Task::SetBrightness { percent } })
    }

    /// Starts an update that finds the displays anew, in place of one that is
    /// scheduled.
    pub fn refresh_now(&mut self) -> (turn: Turn)
        ensures
            (final(self)@, turn@) == old(self)@.refreshing(),
    {
        self.cancel_scheduled_update();
        self.display_refresh_needed = true;
        stopping_timer(AppStep::ListWindows { task: Task::Update })
    }

    /// Starts the update that was scheduled.
    pub fn timer_elapsed(&mut self) -> (turn: Turn)
        ensures
            (final(self)@, turn@) == old(self)@.elapsed(),
    {
        self.cancel_scheduled_update();
        stopping_timer(AppStep::ListWindows { task: Task::Update })
    }

    /// Starts an update.
    pub fn update_brightness_state(&self) -> (turn: Turn)
        ensures
            turn@ == looking(),
    {
        standing_at(AppStep::ListWindows { task: Task::Update })
    }

    /// Goes on with the windows that count.
    pub fn take_windows(&mut self, task: Task, windows: Vec<TrackedWindow>) -> (step: AppStep)
        ensures
            (final(self)@, step@) == old(self)@.with_windows(task, window_views(windows@)),
            final(self)@.waits_well(step@),
    {
        match task {
            Task::Toggle => {
                let operation = self.monitor_manager.restore_all_from_user(windows.as_slice());
                AppState::step_of(task, operation)
            },
            Task::SetBrightness { percent } => {
                let operation = self.monitor_manager.set_all_brightness(percent, windows.as_slice());
                AppState::step_of(task, operation)
            },
            Task::Update => {
                if self.display_refresh_needed {
                    self.display_refresh_needed = false;
                    let closing = self.monitor_manager.detach_displays();
                    return AppStep::ListDisplays { closing, windows };
                }
                let operation = self.monitor_manager.update(windows.as_slice());
                AppState::step_of(task, operation)
            },
        }
    }

    /// Goes on after a step of an enumeration.
    fn follow(&mut self, found: EnumerationStep, windows: Vec<TrackedWindow>) -> (step: AppStep)
        requires
            crate::enumeration::waits_well(found@),
        ensures
            (final(self)@, step@) == old(self)@.finding(found@, window_views(windows@)),
            final(self)@.waits_well(step@),
    {
        match found {
            EnumerationStep::Finished(displays) => {
                let operation = self.monitor_manager.reenumerate(displays, windows.as_slice());
                AppState::step_of(Task::Update, operation)
            },
            EnumerationStep::Waiting(enumeration) => AppStep::Enumerate { enumeration, windows },
        }
    }

    /// Goes on with the displays that the system lists.
    pub fn take_displays(&mut self, infos: Vec<DisplayInfo>, windows: Vec<TrackedWindow>) -> (step:
        AppStep)
        ensures
            (final(self)@, step@) == old(self)@.with_displays(
                info_views(infos@),
                window_views(windows@),
            ),
            final(self)@.waits_well(step@),
    {
        self.follow(enumerate_displays(infos), windows)
    }

    /// Goes on with an answer to an enumeration.
    pub fn resume_enumeration(
        &mut self,
        enumeration: Enumeration,
        windows: Vec<TrackedWindow>,
        reply: EnumerationReply,
    ) -> (step: AppStep)
        requires
            enumeration@.can_wait(),
            reply@.answers(enumeration.stage),
        ensures
            (final(self)@, step@) == old(self)@.with_finding(
                enumeration@,
                window_views(windows@),
                reply@,
            ),
            final(self)@.waits_well(step@),
    {
        self.follow(enumeration.resume(reply), windows)
    }

    /// Goes on with a monitor's answer.
    pub fn resume_operation(&mut self, task: Task, operation: Operation, reply: MonitorReply) -> (
    step: AppStep)
        requires
            old(self)@.monitor_manager.awaits(operation@),
            reply.answers(operation.at.stage),
        ensures
            (final(self)@, step@) == old(self)@.with_answer(task, operation@, reply),
            final(self)@.waits_well(step@),
    {
        let next = self.monitor_manager.resume(operation, reply);
        AppState::step_of(task, next)
    }

    /// Ends a turn: shows how the displays are, and schedules a further attempt
    /// where one is called for.
    pub fn conclude(&mut self, task: Task, broken_off: bool) -> (turn: Turn)
        ensures
            (final(self)@, turn@) == old(self)@.concluded(task, broken_off),
    {
        if let Task::Update = task {
            self.last_error = if broken_off {
                Some("Unexpected update error".to_string())
            } else {
                None
            };
        }
        let mut effects = self.update_tray_text();
        self.schedule_pending_retry(&mut effects);
        finished(effects)
    }

    /// Takes note of how putting the tray icon back went.
    pub fn restore_tray_icon(&mut self, error: Option<String>) -> (turn: Turn)
        ensures
            (final(self)@, turn@) == old(self)@.restoring_tray_icon(optional_text(error)),
    {
        match error {
            Some(error) => {
                let mut text = "Failed to restore tray icon: ".to_string();
                text.append(error.as_str());
                self.last_error = Some(text);
            },
            None => {
                let forgotten = match &self.last_error {
                    Some(last) => starts_with(last.as_str(), "Failed to restore tray icon:"),
                    None => false,
                };
                if forgotten {
                    self.last_error = None;
                }
            },
        }
        finished(self.update_tray_text())
    }

    /// Writes the diagnostics.
    pub fn build_diagnostics(&self, events: &EventLog) -> (text: String)
        ensures
            text@ == self@.diagnostics(*events),
    {
        let mut text = "Dimmed displays: ".to_string();
        text.append(write_unsigned(self.monitor_manager.dimmed_display_count() as u64).as_str());
        text.append("\r\n");
        text.append("Debounce: ");
        text.append(write_unsigned(self.settings.event_debounce_milliseconds as u64).as_str());
        text.append(" ms\r\n");
        text.append("Brightness retry: ");
        text.append(write_unsigned(self.settings.brightness_retry_milliseconds as u64).as_str());
        text.append(" ms\r\n");
        text.append("Window events: ");
        text.append(write_signed(events.event_count()).as_str());
        text.append("\r\n");
        text.append("Last window event: ");
        text.append(events.last_event_description().as_str());
        text.append("\r\n\r\n");
        text.append(self.monitor_manager.build_diagnostic_text().as_str());
        if let Some(error) = &self.last_error {
            text.append("\r\n\r\nLast error: ");
            text.append(error.as_str());
        }
        text
    }

    /// Starts carrying out a command.
    pub fn handle_command(&mut self, command_id: usize, events: &EventLog) -> (turn: Turn)
        ensures
            (final(self)@, turn@) == old(self)@.commanded(command_id, *events),
            final(self)@.waits_well(turn@.step),
    {
        match find_command(command_id) {
            Some(Command::SetBrightness { percent }) => self.set_brightness_now(percent),
            Some(Command::ToggleDimming) => self.toggle_tray_brightness(),
            Some(Command::Refresh) => self.refresh_now(),
            Some(Command::Diagnostics) => {
                let text = self.build_diagnostics(events);
                standing_at(AppStep::Finished { action: AppAction::ShowDiagnostics { text } })
            },
            Some(Command::Exit) => standing_at(AppStep::Finished { action: AppAction::Exit }),
            None => standing_at(AppStep::Finished { action: AppAction::Nothing }),
        }
    }
}

/// Whether the timer runs once the effects are done.
pub open spec fn runs_after(running: bool, effects: Seq<EffectView>) -> bool
    decreases effects.len(),
{
    if effects.len() == 0 {
        running
    } else {
        match effects.last() {
            EffectView::StopTimer => false,
            EffectView::StartTimer { .. } => true,
            EffectView::SetTooltip { .. } => runs_after(running, effects.drop_last()),
        }
    }
}

/// The timer runs after a turn if and only if an update is scheduled, and the
/// flags agree.
pub open spec fn timer_follows(running: bool, after: (AppView, TurnView)) -> bool {
    &&& runs_after(running, after.1.effects) == after.0.update_scheduled
    &&& after.0.timer_flags_agree()
}

/// What is done to the timer by the lists of effects that turns come with.
proof fn lemma_runs_after(running: bool, effect: EffectView, milliseconds: u32)
    ensures
        runs_after(running, Seq::empty()) == running,
        runs_after(running, seq![EffectView::StopTimer]) == false,
        effect is SetTooltip ==> runs_after(running, seq![effect]) == running,
        runs_after(running, timer_effects(milliseconds)) == true,
        runs_after(running, seq![effect] + timer_effects(milliseconds)) == true,
{
    reveal_with_fuel(runs_after, 2);
    assert(seq![effect].drop_last() == Seq::<EffectView>::empty());
    assert((seq![effect] + timer_effects(milliseconds)).last() == timer_effects(
        milliseconds,
    ).last());
}

/// The timer runs exactly while an update is scheduled: whatever happens, the
/// flags and the timer stay in step. A timer that cannot be started does not
/// run.
pub proof fn the_timer_runs_while_an_update_is_scheduled(
    app: AppView,
    task: Task,
    broken_off: bool,
    error: Option<Seq<char>>,
    id: usize,
    events: EventLog,
)
    requires
        app.timer_flags_agree(),
    ensures
        timer_follows(app.update_scheduled, app.scheduling()),
        timer_follows(app.update_scheduled, app.scheduling_refresh()),
        timer_follows(false, app.without_timer()),
        timer_follows(app.update_scheduled, app.elapsed()),
        timer_follows(app.update_scheduled, app.refreshing()),
        timer_follows(app.update_scheduled, app.toggling()),
        timer_follows(app.update_scheduled, app.concluded(task, broken_off)),
        timer_follows(app.update_scheduled, app.restoring_tray_icon(error)),
        timer_follows(app.update_scheduled, app.commanded(id, events)),
{
    let running = app.update_scheduled;
    let ended = match task {
        Task::Update => AppView {
            last_error: if broken_off {
                Some("Unexpected update error"@)
            } else {
                None
            },
            ..app
        },
        _ => app,
    };
    lemma_runs_after(running, ended.showing(), app.settings.event_debounce_milliseconds);
    lemma_runs_after(running, ended.showing(), app.settings.brightness_retry_milliseconds);
    lemma_runs_after(running, app.restoring_tray_icon(error).0.showing(), 0);
    lemma_runs_after(false, app.without_timer().0.showing(), 0);
}

/// Events that come in while an update is scheduled on account of earlier ones
/// do not put it off: the timer is left alone. A timer that runs only for a
/// further attempt gives way to one for the events.
pub proof fn events_do_not_put_an_update_off(app: AppView)
    ensures
        ({
            let (scheduled, _) = app.scheduling();
            scheduled.scheduling() == (scheduled, finished_with(Seq::empty()))
        }),
        app.retry_timer_scheduled || !app.update_scheduled ==> app.scheduling().1.effects
            == timer_effects(app.settings.event_debounce_milliseconds),
{
}

/// As long as something is pending, a further attempt lies ahead: at the end of
/// a turn an update is scheduled then.
pub proof fn what_is_pending_is_tried_again(app: AppView, task: Task, broken_off: bool)
    ensures
        ({
            let (ended, turn) = app.concluded(task, broken_off);
            &&& ended.monitor_manager == app.monitor_manager
            &&& app.monitor_manager.pending_count() > 0 ==> ended.update_scheduled
            &&& app.monitor_manager.pending_count() > 0 && !app.update_scheduled ==> (
            ended.retry_timer_scheduled && turn.effects.skip(1) == timer_effects(
                app.settings.brightness_retry_milliseconds,
            ))
            &&& app.monitor_manager.pending_count() == 0 ==> ended.update_scheduled
                == app.update_scheduled
        }),
{
}

/// That the displays are to be found anew is not forgotten, whatever happens in
/// between, until an update does so.
pub proof fn a_needed_refresh_is_not_forgotten(
    app: AppView,
    task: Task,
    broken_off: bool,
    error: Option<Seq<char>>,
    id: usize,
    events: EventLog,
    windows: Seq<WindowView>,
)
    requires
        app.display_refresh_needed,
    ensures
        app.scheduling().0.display_refresh_needed,
        app.without_timer().0.display_refresh_needed,
        app.elapsed().0.display_refresh_needed,
        app.toggling().0.display_refresh_needed,
        app.concluded(task, broken_off).0.display_refresh_needed,
        app.restoring_tray_icon(error).0.display_refresh_needed,
        app.commanded(id, events).0.display_refresh_needed,
        !(task is Update) ==> app.with_windows(task, windows).0.display_refresh_needed,
        app.with_windows(Task::Update, windows).1 is ListDisplays,
        !app.with_windows(Task::Update, windows).0.display_refresh_needed,
{
}

} // verus!
