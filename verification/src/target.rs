//! A physical monitor whose brightness is set over its control channel.
//!
//! Talking to a monitor takes time and may fail, so each command to a target
//! is a conversation: the target says what has to be asked of the monitor
//! next, and is handed the monitor's answer.

use vstd::prelude::*;

use crate::brightness::percent_to_raw;
use crate::brightness::raw_level;

verus! {

/// After this many failures in a row a target is given up.
pub const MAX_TARGET_FAILURES: u8 = 3;

/// The bit of a monitor's capabilities that stands for brightness control.
pub const BRIGHTNESS_CAPABILITY: u32 = 2;

/// What tells the targets of all displays apart, across enumerations.
#[derive(Debug)]
pub struct TargetKey {
    pub display_device_name: String,
    pub description: String,
    pub physical_index: usize,
}

/// The contents of a `TargetKey`.
pub struct TargetKeyView {
    pub display_device_name: Seq<char>,
    pub description: Seq<char>,
    pub physical_index: int,
}

impl View for TargetKey {
    type V = TargetKeyView;

    open spec fn view(&self) -> TargetKeyView {
        TargetKeyView {
            display_device_name: self.display_device_name@,
            description: self.description@,
            physical_index: self.physical_index as int,
        }
    }
}

/// Whether a target can be talked to.
#[derive(Debug, Clone, Copy, PartialEq, Eq, Structural)]
pub enum TargetAvailability {
    Unknown,
    Available,
    TemporarilyUnavailable,
    Unavailable,
    Unsupported,
}

impl TargetAvailability {
    /// The name of the availability.
    pub open spec fn name(self) -> Seq<char> {
        match self {
            TargetAvailability::Unknown => "Unknown"@,
            TargetAvailability::Available => "Available"@,
            TargetAvailability::TemporarilyUnavailable => "TemporarilyUnavailable"@,
            TargetAvailability::Unavailable => "Unavailable"@,
            TargetAvailability::Unsupported => "Unsupported"@,
        }
    }

    /// The name of the availability, for diagnostics.
    pub fn label(self) -> (label: &'static str)
        ensures
            label@ == self.name(),
    {
        match self {
            TargetAvailability::Unknown => "Unknown",
            TargetAvailability::Available => "Available",
            TargetAvailability::TemporarilyUnavailable => "TemporarilyUnavailable",
            TargetAvailability::Unavailable => "Unavailable",
            TargetAvailability::Unsupported => "Unsupported",
        }
    }
}

/// A monitor's brightness and the range it lies in.
#[derive(Debug, Clone, Copy, PartialEq, Eq, Structural)]
pub struct BrightnessReading {
    pub minimum: u32,
    pub current: u32,
    pub maximum: u32,
}

/// What a target can be told to do.
#[derive(Debug, Clone, Copy, PartialEq, Eq, Structural)]
pub enum TargetCommand {
    Probe,
    Dim { percent: u32 },
    Restore,
    SetLevel { percent: u32 },
    RestoreForShutdown,
}

/// What a conversation waits for.
#[derive(Debug, Clone, Copy, PartialEq, Eq, Structural)]
pub enum Stage {
    /// The monitor's capabilities.
    Capabilities,
    /// The monitor's brightness and range.
    Reading,
    /// Whether the monitor has taken on this raw level.
    Writing { level: u32 },
}

/// Where a conversation stands.
#[derive(Debug, Clone, Copy, PartialEq, Eq, Structural)]
pub enum TargetStep {
    /// The command is over; nothing, or nothing more, is left to be done for
    /// it if `settled`.
    Done { settled: bool },
    /// An answer is needed.
    Ask { stage: Stage },
}

/// A monitor's answer.
#[derive(Debug, Clone, Copy, PartialEq, Eq, Structural)]
pub enum MonitorReply {
    /// The capability bits, unless the monitor did not tell them.
    Capabilities(Option<u32>),
    /// The brightness and range, unless the monitor did not tell them.
    Reading(Option<BrightnessReading>),
    /// Whether the level was taken on.
    Written(bool),
}

impl MonitorReply {
    /// The answer is one to what the conversation waits for.
    pub open spec fn answers(self, stage: Stage) -> bool {
        match stage {
            Stage::Capabilities => self is Capabilities,
            Stage::Reading => self is Reading,
            Stage::Writing { .. } => self is Written,
        }
    }

    /// Tests whether the answer is one to what the conversation waits for.
    pub fn is_answer_to(&self, stage: Stage) -> (result: bool)
        ensures
            result == self.answers(stage),
    {
        match (stage, self) {
            (Stage::Capabilities, MonitorReply::Capabilities(_)) => true,
            (Stage::Reading, MonitorReply::Reading(_)) => true,
            (Stage::Writing { .. }, MonitorReply::Written(_)) => true,
            _ => false,
        }
    }
}

impl TargetCommand {
    /// A conversation on this command can wait for that.
    pub open spec fn may_await(self, stage: Stage) -> bool {
        match self {
            TargetCommand::Probe => stage is Capabilities || stage is Reading,
            TargetCommand::Dim { .. } => stage is Reading || stage is Writing,
            TargetCommand::SetLevel { .. } => stage is Reading || stage is Writing,
            TargetCommand::Restore => stage is Writing,
            TargetCommand::RestoreForShutdown => stage is Writing,
        }
    }
}

/// A physical monitor and what is remembered of it.
#[derive(Debug)]
pub struct PhysicalMonitorTarget {
    pub handle: isize,
    pub key: TargetKey,
    pub description: String,
    pub restore_brightness: Option<u32>,
    pub is_dimmed: bool,
    pub availability: TargetAvailability,
    pub consecutive_failures: u8,
    pub disposed: bool,
}

/// The contents of a `PhysicalMonitorTarget`.
#[verifier::ext_equal]
pub struct TargetView {
    pub handle: isize,
    pub key: TargetKeyView,
    pub description: Seq<char>,
    pub restore_brightness: Option<u32>,
    pub is_dimmed: bool,
    pub availability: TargetAvailability,
    pub consecutive_failures: u8,
    pub disposed: bool,
}

impl View for PhysicalMonitorTarget {
    type V = TargetView;

    open spec fn view(&self) -> TargetView {
        TargetView {
            handle: self.handle,
            key: self.key@,
            description: self.description@,
            restore_brightness: self.restore_brightness,
            is_dimmed: self.is_dimmed,
            availability: self.availability,
            consecutive_failures: self.consecutive_failures,
            disposed: self.disposed,
        }
    }
}

/// The contents of a list of targets.
pub open spec fn target_views(targets: Seq<PhysicalMonitorTarget>) -> Seq<TargetView> {
    targets.map_values(|target: PhysicalMonitorTarget| target@)
}

impl TargetView {
    /// The target may be talked to.
    pub open spec fn attemptable(self) -> bool {
        &&& !self.disposed
        &&& {
            ||| self.availability is Unknown
            ||| self.availability is Available
            ||| self.availability is TemporarilyUnavailable
        }
    }

    /// The target after an exchange that went well.
    pub open spec fn reached(self) -> TargetView {
        TargetView {
            availability: TargetAvailability::Available,
            consecutive_failures: 0,
            ..self
        }
    }

    /// The failures in a row, counting one more.
    pub open spec fn failures_after_one_more(self) -> u8 {
        if self.consecutive_failures < u8::MAX {
            (self.consecutive_failures + 1) as u8
        } else {
            u8::MAX
        }
    }

    /// One more failure is one too many.
    pub open spec fn gives_up(self) -> bool {
        self.failures_after_one_more() >= MAX_TARGET_FAILURES
    }

    /// The target after an exchange that failed.
    pub open spec fn missed(self) -> TargetView {
        TargetView {
            availability: if self.gives_up() {
                TargetAvailability::Unavailable
            } else {
                TargetAvailability::TemporarilyUnavailable
            },
            consecutive_failures: self.failures_after_one_more(),
            ..self
        }
    }

    /// The target with the level to return to noted, unless one is noted
    /// already or the target is dimmed.
    pub open spec fn noting(self, current: u32) -> TargetView {
        if !self.is_dimmed && self.restore_brightness is None {
            TargetView { restore_brightness: Some(current), ..self }
        } else {
            self
        }
    }

    /// A conversation that ends in a failed exchange. A target that is given
    /// up needs no further attempt.
    pub open spec fn ended_by_failure(self) -> (TargetView, TargetStep) {
        (self.missed(), TargetStep::Done { settled: self.gives_up() })
    }

    /// How a conversation on a command opens.
    pub open spec fn opened(self, command: TargetCommand) -> (TargetView, TargetStep) {
        match command {
            TargetCommand::Probe => if self.disposed {
                (self, TargetStep::Done { settled: true })
            } else {
                (self, TargetStep::Ask { stage: Stage::Capabilities })
            },
            TargetCommand::Dim { .. } | TargetCommand::SetLevel { .. } => if self.disposed {
                (self, TargetStep::Done { settled: false })
            } else if !self.attemptable() {
                (self, TargetStep::Done { settled: true })
            } else {
                (self, TargetStep::Ask { stage: Stage::Reading })
            },
            TargetCommand::Restore => if self.disposed {
                (self, TargetStep::Done { settled: false })
            } else if !self.is_dimmed || !self.attemptable() {
                (self, TargetStep::Done { settled: true })
            } else {
                match self.restore_brightness {
                    None => (
                        TargetView { is_dimmed: false, ..self },
                        TargetStep::Done { settled: true },
                    ),
                    Some(level) => (self, TargetStep::Ask { stage: Stage::Writing { level } }),
                }
            },
            TargetCommand::RestoreForShutdown => if self.disposed {
                (self, TargetStep::Done { settled: false })
            } else if !self.is_dimmed {
                (self, TargetStep::Done { settled: true })
            } else {
                match self.restore_brightness {
                    None => (self, TargetStep::Done { settled: false }),
                    Some(level) => (self, TargetStep::Ask { stage: Stage::Writing { level } }),
                }
            },
        }
    }

    /// How a probe goes on once the monitor has, or has not, told its
    /// capabilities.
    pub open spec fn after_capabilities(self, capabilities: Option<u32>) -> (
        TargetView,
        TargetStep,
    ) {
        if capabilities matches Some(bits) && bits & BRIGHTNESS_CAPABILITY == 0 {
            (
                TargetView { availability: TargetAvailability::Unsupported, ..self },
                TargetStep::Done { settled: true },
            )
        } else {
            (self, TargetStep::Ask { stage: Stage::Reading })
        }
    }

    /// How a conversation goes on once the monitor has, or has not, told its
    /// brightness.
    pub open spec fn after_reading(
        self,
        command: TargetCommand,
        reading: Option<BrightnessReading>,
    ) -> (TargetView, TargetStep) {
        match (command, reading) {
            (TargetCommand::Probe, Some(_)) => (self.reached(), TargetStep::Done { settled: true }),
            (TargetCommand::Probe, None) => (self.missed(), TargetStep::Done { settled: true }),
            (TargetCommand::Dim { percent }, Some(found)) => (
                self.noting(found.current),
                TargetStep::Ask { stage: Stage::Writing { level: found.level(percent) } },
            ),
            (TargetCommand::SetLevel { percent }, Some(found)) => (
                self,
                TargetStep::Ask { stage: Stage::Writing { level: found.level(percent) } },
            ),
            _ => self.ended_by_failure(),
        }
    }

    /// How a conversation ends once the monitor has, or has not, taken on a
    /// level.
    pub open spec fn after_write(self, command: TargetCommand, level: u32, written: bool) -> (
        TargetView,
        TargetStep,
    ) {
        if command is RestoreForShutdown {
            (
                TargetView { is_dimmed: self.is_dimmed && !written, ..self },
                TargetStep::Done { settled: written },
            )
        } else if !written {
            self.ended_by_failure()
        } else {
            (
                TargetView {
                    is_dimmed: command is Dim,
                    restore_brightness: if command is SetLevel {
                        Some(level)
                    } else {
                        self.restore_brightness
                    },
                    ..self.reached()
                },
                TargetStep::Done { settled: true },
            )
        }
    }

    /// How a conversation on a command goes on with the monitor's answer.
    pub open spec fn continued(
        self,
        command: TargetCommand,
        stage: Stage,
        reply: MonitorReply,
    ) -> (TargetView, TargetStep)
        recommends
            command.may_await(stage),
            reply.answers(stage),
    {
        match (stage, reply) {
            (Stage::Capabilities, MonitorReply::Capabilities(bits)) => self.after_capabilities(bits),
            (Stage::Reading, MonitorReply::Reading(reading)) => self.after_reading(command, reading),
            (Stage::Writing { level }, MonitorReply::Written(written)) => self.after_write(
                command,
                level,
                written,
            ),
            _ => (self, TargetStep::Done { settled: false }),
        }
    }

    /// The target once it is given up for good.
    pub open spec fn closed(self) -> TargetView {
        TargetView { disposed: true, ..self }
    }

    /// The handle that is still open.
    pub open spec fn open_handle(self) -> Option<isize> {
        if self.disposed {
            None
        } else {
            Some(self.handle)
        }
    }

    /// The same monitor, under the same name.
    pub open spec fn same_monitor(self, other: TargetView) -> bool {
        &&& self.handle == other.handle
        &&& self.key == other.key
        &&& self.description == other.description
        &&& self.disposed == other.disposed
    }

    /// A target for a monitor that was just found, before it is probed. A
    /// monitor without a description gets one.
    pub open spec fn found(handle: isize, key: TargetKeyView, description: Seq<char>) -> TargetView {
        TargetView {
            handle,
            key,
            description: if crate::text::blank(description) {
                "Unknown monitor"@
            } else {
                description
            },
            restore_brightness: None,
            is_dimmed: false,
            availability: TargetAvailability::Unknown,
            consecutive_failures: 0,
            disposed: false,
        }
    }
}

impl PhysicalMonitorTarget {
    /// A target for a monitor that was just found, before it is probed. A
    /// monitor without a description gets one.
    pub fn new(handle: isize, key: TargetKey, description: String) -> (target: Self)
        ensures
            target@ == TargetView::found(handle, key@, description@),
    {
        PhysicalMonitorTarget {
            handle,
            key,
            description: if crate::text::is_blank(description.as_str()) {
                "Unknown monitor".to_string()
            } else {
                description
            },
            restore_brightness: None,
            is_dimmed: false,
            availability: TargetAvailability::Unknown,
            consecutive_failures: 0,
            disposed: false,
        }
    }

    /// Tests whether the target may be talked to.
    pub fn can_attempt_operations(&self) -> (result: bool)
        ensures
            result == self@.attemptable(),
    {
        !self.disposed && match self.availability {
            TargetAvailability::Unknown => true,
            TargetAvailability::Available => true,
            TargetAvailability::TemporarilyUnavailable => true,
            _ => false,
        }
    }

    /// Notes an exchange that went well.
    pub fn record_success(&mut self)
        ensures
            final(self)@ == old(self)@.reached(),
    {
        self.availability = TargetAvailability::Available;
        self.consecutive_failures = 0;
    }

    /// Notes an exchange that failed, and tells whether the target is given
    /// up.
    pub fn record_failure(&mut self) -> (given_up: bool)
        ensures
            final(self)@ == old(self)@.missed(),
            given_up == old(self)@.gives_up(),
    {
        self.consecutive_failures = if self.consecutive_failures < u8::MAX {
            self.consecutive_failures + 1
        } else {
            u8::MAX
        };
        if self.consecutive_failures >= MAX_TARGET_FAILURES {
            self.availability = TargetAvailability::Unavailable;
            true
        } else {
            self.availability = TargetAvailability::TemporarilyUnavailable;
            false
        }
    }

    /// Starts finding out whether the monitor's brightness can be set.
    pub fn probe_availability(&self) -> (step: TargetStep)
        ensures
            (self@, step) == self@.opened(TargetCommand::Probe),
    {
        if self.disposed {
            TargetStep::Done { settled: true }
        } else {
            TargetStep::Ask { stage: Stage::Capabilities }
        }
    }

    /// Starts dimming the monitor to a percentage of its range.
    pub fn dim(&self, percent: u32) -> (step: TargetStep)
        ensures
            (self@, step) == self@.opened(TargetCommand::Dim { percent }),
    {
        if self.disposed {
            return TargetStep::Done { settled: false };
        }
        if !self.can_attempt_operations() {
            return TargetStep::Done { settled: true };
        }
        TargetStep::Ask { stage: Stage::Reading }
    }

    /// Starts setting the monitor to a percentage of its range.
    pub fn set_brightness(&self, percent: u32) -> (step: TargetStep)
        ensures
            (self@, step) == self@.opened(TargetCommand::SetLevel { percent }),
    {
        if self.disposed {
            return TargetStep::Done { settled: false };
        }
        if !self.can_attempt_operations() {
            return TargetStep::Done { settled: true };
        }
        TargetStep::Ask { stage: Stage::Reading }
    }

    /// Starts returning a dimmed monitor to its earlier level.
    pub fn restore(&mut self) -> (step: TargetStep)
        ensures
            (final(self)@, step) == old(self)@.opened(TargetCommand::Restore),
    {
        if self.disposed {
            return TargetStep::Done { settled: false };
        }
        if !self.is_dimmed {
            return TargetStep::Done { settled: true };
        }
        if !self.can_attempt_operations() {
            return TargetStep::Done { settled: true };
        }
        match self.restore_brightness {
            None => {
                self.is_dimmed = false;
                TargetStep::Done { settled: true }
            },
            Some(level) => TargetStep::Ask { stage: Stage::Writing { level } },
        }
    }

    /// Starts the last attempt at returning a dimmed monitor to its earlier
    /// level, made even for a target that was given up.
    pub fn restore_for_shutdown(&self) -> (step: TargetStep)
        ensures
            (self@, step) == self@.opened(TargetCommand::RestoreForShutdown),
    {
        if self.disposed {
            return TargetStep::Done { settled: false };
        }
        if !self.is_dimmed {
            return TargetStep::Done { settled: true };
        }
        match self.restore_brightness {
            None => TargetStep::Done { settled: false },
            Some(level) => TargetStep::Ask { stage: Stage::Writing { level } },
        }
    }

    /// Opens a conversation on a command.
    pub fn begin(&mut self, command: TargetCommand) -> (step: TargetStep)
        ensures
            (final(self)@, step) == old(self)@.opened(command),
    {
        match command {
            TargetCommand::Probe => self.probe_availability(),
            TargetCommand::Dim { percent } => self.dim(percent),
            TargetCommand::Restore => self.restore(),
            TargetCommand::SetLevel { percent } => self.set_brightness(percent),
            TargetCommand::RestoreForShutdown => self.restore_for_shutdown(),
        }
    }

    /// Hands a probe the monitor's capabilities.
    fn take_capabilities(&mut self, capabilities: Option<u32>) -> (step: TargetStep)
        ensures
            (final(self)@, step) == old(self)@.after_capabilities(capabilities),
    {
        if let Some(bits) = capabilities {
            if bits & BRIGHTNESS_CAPABILITY == 0 {
                self.availability = TargetAvailability::Unsupported;
                return TargetStep::Done { settled: true };
            }
        }
        TargetStep::Ask { stage: Stage::Reading }
    }

    /// Hands a conversation the monitor's brightness.
    fn take_reading(
        &mut self,
        command: TargetCommand,
        reading: Option<BrightnessReading>,
    ) -> (step: TargetStep)
        requires
            command.may_await(Stage::Reading),
        ensures
            (final(self)@, step) == old(self)@.after_reading(command, reading),
    {
        let found = match reading {
            Some(found) => found,
            None => {
                let given_up = self.record_failure();
                return match command {
                    TargetCommand::Probe => TargetStep::Done { settled: true },
                    _ => TargetStep::Done { settled: given_up },
                };
            },
        };
        match command {
            TargetCommand::Probe => {
                self.record_success();
                TargetStep::Done { settled: true }
            },
            TargetCommand::Dim { percent } => {
                if !self.is_dimmed && self.restore_brightness.is_none() {
                    self.restore_brightness = Some(found.current);
                }
                let level: u32 = percent_to_raw(found.minimum, found.maximum, percent);
                TargetStep::Ask { stage: Stage::Writing { level } }
            },
            TargetCommand::SetLevel { percent } => {
                let level: u32 = percent_to_raw(found.minimum, found.maximum, percent);
                TargetStep::Ask { stage: Stage::Writing { level } }
            },
            _ => TargetStep::Done { settled: false },
        }
    }

    /// Tells a conversation whether the monitor has taken on a level.
    fn take_write(&mut self, command: TargetCommand, level: u32, written: bool) -> (step:
        TargetStep)
        requires
            command.may_await(Stage::Writing { level }),
        ensures
            (final(self)@, step) == old(self)@.after_write(command, level, written),
    {
        if let TargetCommand::RestoreForShutdown = command {
            if written {
                self.is_dimmed = false;
            }
            return TargetStep::Done { settled: written };
        }
        if !written {
            let given_up = self.record_failure();
            return TargetStep::Done { settled: given_up };
        }
        self.record_success();
        match command {
            TargetCommand::Dim { .. } => {
                self.is_dimmed = true;
            },
            TargetCommand::SetLevel { .. } => {
                self.restore_brightness = Some(level);
                self.is_dimmed = false;
            },
            _ => {
                self.is_dimmed = false;
            },
        }
        TargetStep::Done { settled: true }
    }

    /// Hands a conversation the answer that it waits for.
    pub fn resume(&mut self, command: TargetCommand, stage: Stage, reply: MonitorReply) -> (step:
        TargetStep)
        requires
            command.may_await(stage),
            reply.answers(stage),
        ensures
            (final(self)@, step) == old(self)@.continued(command, stage, reply),
    {
        match (stage, reply) {
            (Stage::Capabilities, MonitorReply::Capabilities(bits)) => self.take_capabilities(bits),
            (Stage::Reading, MonitorReply::Reading(reading)) => self.take_reading(command, reading),
            (Stage::Writing { level }, MonitorReply::Written(written)) => self.take_write(
                command,
                level,
                written,
            ),
            _ => TargetStep::Done { settled: false },
        }
    }

    /// Gives the monitor up for good, and tells which handle is to be closed,
    /// if it is still open.
    pub fn dispose(&mut self) -> (handle: Option<isize>)
        ensures
            final(self)@ == old(self)@.closed(),
            handle == old(self)@.open_handle(),
    {
        if self.disposed {
            return None;
        }
        self.disposed = true;
        Some(self.handle)
    }
}

impl BrightnessReading {
    /// The raw level that stands for a percentage of the range.
    pub open spec fn level(self, percent: u32) -> u32 {
        raw_level(self.minimum as int, self.maximum as int, percent as int) as u32
    }
}

} // verus!
