//! Counting displays, and telling how they are.

use vstd::prelude::*;

use crate::brightness::PendingBrightnessOperation;
use crate::display::DisplayState;
use crate::display::DisplayView;
use crate::manager::ManagerView;
use crate::manager::MonitorManager;
use crate::target::PhysicalMonitorTarget;
use crate::target::TargetView;
use crate::text::decimal;
use crate::text::join_lines;
use crate::text::joined;
use crate::text::texts;
use crate::text::truth;
use crate::text::write_bool;
use crate::text::write_signed;
use crate::text::write_unsigned;

verus! {

impl DisplayView {
    /// Some target may be talked to.
    pub open spec fn is_controllable(self) -> bool {
        exists|i: int| 0 <= i < self.targets.len() && (#[trigger] self.targets[i]).attemptable()
    }

    /// Some target is dimmed.
    pub open spec fn is_dimmed(self) -> bool {
        exists|i: int| 0 <= i < self.targets.len() && (#[trigger] self.targets[i]).is_dimmed
    }

    /// An operation is pending.
    pub open spec fn is_pending(self) -> bool {
        self.pending_operation is Some
    }
}

impl ManagerView {
    /// How many displays have a target that may be talked to.
    pub open spec fn controllable_count(self) -> nat {
        self.displays.filter(|display: DisplayView| display.is_controllable()).len()
    }

    /// How many displays have a target that is dimmed.
    pub open spec fn dimmed_count(self) -> nat {
        self.displays.filter(|display: DisplayView| display.is_dimmed()).len()
    }

    /// On how many displays an operation is pending.
    pub open spec fn pending_count(self) -> nat {
        self.displays.filter(|display: DisplayView| display.is_pending()).len()
    }
}

/// The text of a pending operation.
pub open spec fn operation_text(operation: PendingBrightnessOperation) -> Seq<char> {
    match operation {
        PendingBrightnessOperation::Dim { brightness, next_state } => "Dim { brightness: "@
            + decimal(brightness as int) + ", next_state: "@ + next_state.name() + " }"@,
        PendingBrightnessOperation::Restore { next_state } => "Restore { next_state: "@
            + next_state.name() + " }"@,
        PendingBrightnessOperation::SetLevel { brightness, next_state } => "Set { brightness: "@
            + decimal(brightness as int) + ", next_state: "@ + next_state.name() + " }"@,
    }
}

/// The text of what is pending on a display.
pub open spec fn pending_text(operation: Option<PendingBrightnessOperation>) -> Seq<char> {
    match operation {
        Some(operation) => "Some("@ + operation_text(operation) + ")"@,
        None => "None"@,
    }
}

/// The line on a target.
pub open spec fn target_line(target: TargetView) -> Seq<char> {
    "  Monitor: "@ + target.description + " dimmed="@ + truth(target.is_dimmed)
        + " availability="@ + target.availability.name()
}

impl DisplayView {
    /// The lines on a display itself.
    pub open spec fn own_lines(self) -> Seq<Seq<char>> {
        seq![
            self.device_name + " "@ + decimal(self.bounds.span_x()) + "x"@ + decimal(
                self.bounds.span_y(),
            ) + " targets="@ + decimal(self.targets.len() as int),
            "  State: "@ + self.dimming_state.name(),
            "  Pending: "@ + pending_text(self.pending_operation),
            "  Blocking window: "@ + (match self.last_blocking_window {
                Some(caption) => caption,
                None => "(none)"@,
            }),
        ]
    }

    /// The lines on a display and its targets.
    pub open spec fn lines(self) -> Seq<Seq<char>> {
        self.own_lines() + self.targets.map_values(
            |target: TargetView| target_line(target),
        )
    }
}

/// The lines on displays, one display after the other.
pub open spec fn displays_lines(displays: Seq<DisplayView>) -> Seq<Seq<char>>
    decreases displays.len(),
{
    if displays.len() == 0 {
        Seq::empty()
    } else {
        displays_lines(displays.drop_last()) + displays.last().lines()
    }
}

impl ManagerView {
    /// The lines on the displays as a whole.
    pub open spec fn head_lines(self) -> Seq<Seq<char>> {
        seq![
            "DPI mode: PerMonitorV2"@,
            "Manual dimming: "@ + truth(self.manual_dimming_enabled),
            "Controllable displays: "@ + decimal(self.controllable_count() as int) + "/"@
                + decimal(self.displays.len() as int),
            "Dimmed displays: "@ + decimal(self.dimmed_count() as int),
            "Detached display snapshots: "@ + decimal(self.detached_snapshots.len() as int),
            Seq::empty(),
        ]
    }

    /// The text on all displays.
    pub open spec fn diagnostic_text(self) -> Seq<char> {
        joined(self.head_lines() + displays_lines(self.displays))
    }
}

/// Counting one display more.
pub(crate) proof fn lemma_count_one_more(
    displays: Seq<DisplayView>,
    at: int,
    pred: spec_fn(DisplayView) -> bool,
)
    requires
        0 <= at < displays.len(),
    ensures
        displays.take(at + 1).filter(pred).len() == displays.take(at).filter(pred).len() + (if pred(
            displays[at],
        ) {
            1int
        } else {
            0
        }),
{
    reveal(Seq::filter);
    assert(displays.take(at + 1).drop_last() == displays.take(at));
}

/// Counting none and counting all.
proof fn lemma_count_ends(displays: Seq<DisplayView>, pred: spec_fn(DisplayView) -> bool)
    ensures
        displays.take(0).filter(pred).len() == 0,
        displays.take(displays.len() as int) == displays,
{
    reveal(Seq::filter);
    assert(displays.take(displays.len() as int) == displays);
}

/// Tests for a target that may be talked to.
fn display_is_controllable(display: &DisplayState) -> (result: bool)
    ensures
        result == display@.is_controllable(),
{
    let mut at: usize = 0;
    while at < display.targets.len()
        invariant
            at <= display.targets@.len(),
            forall|i: int| 0 <= i < at ==> !(#[trigger] display.targets@[i])@.attemptable(),
        decreases display.targets@.len() - at,
    {
        if display.targets[at].can_attempt_operations() {
            assert(display@.targets[at as int].attemptable());
            return true;
        }
        at = at + 1;
    }
    false
}

/// Tests for a target that is dimmed.
fn display_is_dimmed(display: &DisplayState) -> (result: bool)
    ensures
        result == display@.is_dimmed(),
{
    let mut at: usize = 0;
    while at < display.targets.len()
        invariant
            at <= display.targets@.len(),
            forall|i: int| 0 <= i < at ==> !(#[trigger] display.targets@[i]).is_dimmed,
        decreases display.targets@.len() - at,
    {
        if display.targets[at].is_dimmed {
            assert(display@.targets[at as int].is_dimmed);
            return true;
        }
        at = at + 1;
    }
    false
}

/// Writes a pending operation.
fn write_operation(operation: PendingBrightnessOperation) -> (text: String)
    ensures
        text@ == operation_text(operation),
{
    let mut text = String::new();
    match operation {
        PendingBrightnessOperation::Dim { brightness, next_state } => {
            text.append("Dim { brightness: ");
            text.append(write_unsigned(brightness as u64).as_str());
            text.append(", next_state: ");
            text.append(next_state.label());
        },
        PendingBrightnessOperation::Restore { next_state } => {
            text.append("Restore { next_state: ");
            text.append(next_state.label());
        },
        PendingBrightnessOperation::SetLevel { brightness, next_state } => {
            text.append("Set { brightness: ");
            text.append(write_unsigned(brightness as u64).as_str());
            text.append(", next_state: ");
            text.append(next_state.label());
        },
    }
    text.append(" }");
    assert(text@ == operation_text(operation));
    text
}

/// Writes what is pending on a display.
fn write_pending(operation: Option<PendingBrightnessOperation>) -> (text: String)
    ensures
        text@ == pending_text(operation),
{
    match operation {
        Some(operation) => {
            let mut text = "Some(".to_string();
            text.append(write_operation(operation).as_str());
            text.append(")");
            text
        },
        None => "None".to_string(),
    }
}

/// Writes the line on a target.
fn write_target_line(target: &PhysicalMonitorTarget) -> (line: String)
    ensures
        line@ == target_line(target@),
{
    let mut line = "  Monitor: ".to_string();
    line.append(target.description.as_str());
    line.append(" dimmed=");
    line.append(write_bool(target.is_dimmed).as_str());
    line.append(" availability=");
    line.append(target.availability.label());
    line
}

/// Writes the first line on a display.
fn write_display_line(display: &DisplayState) -> (line: String)
    ensures
        line@ == display@.own_lines()[0],
{
    let mut line = display.device_name.clone();
    line.append(" ");
    line.append(write_signed(display.bounds.wide_width()).as_str());
    line.append("x");
    line.append(write_signed(display.bounds.wide_height()).as_str());
    line.append(" targets=");
    line.append(write_unsigned(display.targets.len() as u64).as_str());
    line
}

/// Writes the lines on a display behind the given ones.
fn write_display_lines(display: &DisplayState, lines: &mut Vec<String>)
    ensures
        texts(final(lines)@) == texts(old(lines)@) + display@.lines(),
{
    let ghost before = texts(lines@);
    lines.push(write_display_line(display));
    let mut state = "  State: ".to_string();
    state.append(display.dimming_state.label());
    lines.push(state);
    let mut pending = "  Pending: ".to_string();
    pending.append(write_pending(display.pending_operation).as_str());
    lines.push(pending);
    let mut blocking = "  Blocking window: ".to_string();
    match &display.last_blocking_window {
        Some(caption) => blocking.append(caption.as_str()),
        None => blocking.append("(none)"),
    }
    lines.push(blocking);
    assert(texts(lines@) == before + display@.own_lines());
    let ghost target_lines = display@.targets.map_values(
        |target: TargetView| target_line(target),
    );
    let mut at: usize = 0;
    while at < display.targets.len()
        invariant
            at <= display.targets@.len(),
            target_lines == display@.targets.map_values(
                |target: TargetView| target_line(target),
            ),
            texts(lines@) == before + display@.own_lines() + target_lines.take(at as int),
        decreases display.targets@.len() - at,
    {
        let ghost so_far = texts(lines@);
        let line = write_target_line(&display.targets[at]);
        lines.push(line);
        assert(texts(lines@) == so_far.push(target_lines[at as int]));
        assert(target_lines.take(at + 1) == target_lines.take(at as int).push(
            target_lines[at as int],
        ));
        at = at + 1;
    }
    assert(target_lines.take(target_lines.len() as int) == target_lines);
    assert(texts(lines@) == before + display@.lines());
}

impl MonitorManager {
    /// Counts the displays that have a target that may be talked to.
    pub fn controllable_display_count(&self) -> (count: usize)
        ensures
            count == self@.controllable_count(),
    {
        let ghost pred = |display: DisplayView| display.is_controllable();
        let mut count: usize = 0;
        let mut at: usize = 0;
        proof {
            lemma_count_ends(self@.displays, pred);
        }
        while at < self.displays.len()
            invariant
                at <= self.displays@.len(),
                count <= at,
                pred == (|display: DisplayView| display.is_controllable()),
                count == self@.displays.take(at as int).filter(pred).len(),
            decreases self.displays@.len() - at,
        {
            proof {
                lemma_count_one_more(self@.displays, at as int, pred);
            }
            if display_is_controllable(&self.displays[at]) {
                count = count + 1;
            }
            at = at + 1;
        }
        count
    }

    /// Counts the displays that have a target that is dimmed.
    pub fn dimmed_display_count(&self) -> (count: usize)
        ensures
            count == self@.dimmed_count(),
    {
        let ghost pred = |display: DisplayView| display.is_dimmed();
        let mut count: usize = 0;
        let mut at: usize = 0;
        proof {
            lemma_count_ends(self@.displays, pred);
        }
        while at < self.displays.len()
            invariant
                at <= self.displays@.len(),
                count <= at,
                pred == (|display: DisplayView| display.is_dimmed()),
                count == self@.displays.take(at as int).filter(pred).len(),
            decreases self.displays@.len() - at,
        {
            proof {
                lemma_count_one_more(self@.displays, at as int, pred);
            }
            if display_is_dimmed(&self.displays[at]) {
                count = count + 1;
            }
            at = at + 1;
        }
        count
    }

    /// Counts the displays on which an operation is pending.
    pub fn pending_operation_count(&self) -> (count: usize)
        ensures
            count == self@.pending_count(),
    {
        let ghost pred = |display: DisplayView| display.is_pending();
        let mut count: usize = 0;
        let mut at: usize = 0;
        proof {
            lemma_count_ends(self@.displays, pred);
        }
        while at < self.displays.len()
            invariant
                at <= self.displays@.len(),
                count <= at,
                pred == (|display: DisplayView| display.is_pending()),
                count == self@.displays.take(at as int).filter(pred).len(),
            decreases self.displays@.len() - at,
        {
            proof {
                lemma_count_one_more(self@.displays, at as int, pred);
            }
            if self.displays[at].pending_operation.is_some() {
                count = count + 1;
            }
            at = at + 1;
        }
        count
    }

    /// Writes the lines on the displays as a whole.
    fn write_head_lines(&self) -> (lines: Vec<String>)
        ensures
            texts(lines@) == self@.head_lines(),
    {
        let mut lines: Vec<String> = Vec::new();
        lines.push("DPI mode: PerMonitorV2".to_string());
        let mut manual = "Manual dimming: ".to_string();
        manual.append(write_bool(self.manual_dimming_enabled).as_str());
        lines.push(manual);
        let mut controllable = "Controllable displays: ".to_string();
        controllable.append(write_unsigned(self.controllable_display_count() as u64).as_str());
        controllable.append("/");
        controllable.append(write_unsigned(self.displays.len() as u64).as_str());
        lines.push(controllable);
        let mut dimmed = "Dimmed displays: ".to_string();
        dimmed.append(write_unsigned(self.dimmed_display_count() as u64).as_str());
        lines.push(dimmed);
        let mut detached = "Detached display snapshots: ".to_string();
        detached.append(write_unsigned(self.detached_snapshots.len() as u64).as_str());
        lines.push(detached);
        lines.push(String::new());
        assert(texts(lines@) == self@.head_lines());
        lines
    }

    /// Tells how all displays are.
    pub fn build_diagnostic_text(&self) -> (text: String)
        ensures
            text@ == self@.diagnostic_text(),
    {
        let mut lines = self.write_head_lines();
        let ghost views = self@.displays;
        let mut at: usize = 0;
        assert(texts(lines@) == self@.head_lines() + displays_lines(views.take(0)));
        while at < self.displays.len()
            invariant
                at <= self.displays@.len(),
                views == self@.displays,
                texts(lines@) == self@.head_lines() + displays_lines(views.take(at as int)),
            decreases self.displays@.len() - at,
        {
            write_display_lines(&self.displays[at], &mut lines);
            proof {
                assert(views.take(at + 1).drop_last() == views.take(at as int));
                assert(views.take(at + 1).last() == self.displays@[at as int]@);
                assert(texts(lines@) == self@.head_lines() + displays_lines(views.take(at + 1)));
            }
            at = at + 1;
        }
        assert(views.take(views.len() as int) == views);
        join_lines(&lines)
    }
}

} // verus!
