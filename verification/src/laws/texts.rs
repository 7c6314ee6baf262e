//! What texts, numbers and lists of lines are made of.

use vstd::prelude::*;

use crate::brightness::DisplayDimmingState;
use crate::brightness::PendingBrightnessOperation;
use crate::diagnostics::displays_lines;
use crate::diagnostics::lemma_count_one_more;
use crate::diagnostics::operation_text;
use crate::diagnostics::pending_text;
use crate::diagnostics::target_line;
use crate::display::DisplayView;
use crate::laws::targets::reachable;
use crate::laws::windows::says_something;
use crate::manager::ManagerView;
use crate::settings::shell_classes;
use crate::settings::shell_processes;
use crate::target::TargetAvailability;
use crate::target::TargetView;
use crate::text::blank;
use crate::text::decimal;
use crate::text::joined;
use crate::text::normalized;
use crate::text::numeral;
use crate::text::shown_title;
use crate::text::truth;
use crate::text::zero_padded;
use crate::utf16::char_units;
use crate::utf16::copied_units;
use crate::utf16::decoded;
use crate::utf16::encoded;
use crate::utf16::tip;
use crate::utf16::until_null;

verus! {

/// The number that a digit stands for; only capital letters are digits above nine.
pub open spec fn digit_value(ch: char) -> int {
    if '0' <= ch <= '9' {
        ch as int - 48
    } else if 'A' <= ch <= 'F' {
        ch as int - 55
    } else {
        -1
    }
}

/// The number that digits in a row stand for.
pub open spec fn read_back(digits: Seq<char>, base: int) -> int
    decreases digits.len(),
{
    if digits.len() == 0 {
        0
    } else {
        read_back(digits.drop_last(), base) * base + digit_value(digits.last())
    }
}

/// A number in writing, read back, is the number. It is written in digits of the
/// base, with no zero in front but for the number zero.
pub proof fn numbers_in_writing_can_be_read_back(value: nat, base: nat)
    requires
        2 <= base <= 16,
    ensures
        read_back(numeral(value, base), base as int) == value,
        numeral(value, base).len() > 0,
        forall|i: int|
            0 <= i < numeral(value, base).len() ==> 0 <= digit_value(
                #[trigger] numeral(value, base)[i],
            ) < base,
        value > 0 ==> digit_value(numeral(value, base)[0]) > 0,
        value == 0 ==> numeral(value, base).len() == 1,
    decreases value,
{
    let digits = numeral(value, base);
    assert(digits.drop_last().push(digits.last()) =~= digits);
    if value < base {
        assert(digits.drop_last() =~= Seq::<char>::empty());
        reveal_with_fuel(read_back, 2);
        assert(0 * (base as int) == 0);
    } else {
        assert(0 < value / base < value && (value / base) * base + value % base == value && value
            % base < base) by (nonlinear_arith)
            requires
                2 <= base,
                value >= base,
        ;
        numbers_in_writing_can_be_read_back(value / base, base);
        assert(digits.drop_last() =~= numeral(value / base, base));
        assert(digits[0] == numeral(value / base, base)[0]);
        assert forall|i: int| 0 <= i < digits.len() implies 0 <= digit_value(#[trigger] digits[i])
            < base by {
            if i < digits.len() - 1 {
                assert(digits[i] == numeral(value / base, base)[i]);
            }
        }
    }
}

/// An integer in writing is its digits, with a sign in front if it is negative.
pub proof fn integers_in_writing_have_a_sign(value: int)
    ensures
        value >= 0 ==> read_back(decimal(value), 10) == value && decimal(value)[0] != '-',
        value < 0 ==> decimal(value)[0] == '-' && read_back(decimal(value).skip(1), 10) == -value,
        decimal(value).len() > 0,
{
    if value >= 0 {
        numbers_in_writing_can_be_read_back(value as nat, 10);
        assert(0 <= digit_value(numeral(value as nat, 10)[0]));
    } else {
        numbers_in_writing_can_be_read_back((-value) as nat, 10);
        assert(decimal(value).skip(1) =~= numeral((-value) as nat, 10));
    }
}

/// Zeros are put in front of a text up to the width, and nothing else changes.
pub proof fn zeros_fill_up_to_the_width(text: Seq<char>, width: int)
    ensures
        text.len() >= width ==> zero_padded(text, width) == text,
        text.len() < width ==> zero_padded(text, width).len() == width,
        text.len() < width ==> zero_padded(text, width).skip(width - text.len()) == text,
        forall|i: int| 0 <= i < width - text.len() ==> #[trigger] zero_padded(text, width)[i] == '0',
{
    if text.len() < width {
        assert(zero_padded(text, width).skip(width - text.len()) =~= text);
    }
}

/// Truth values, states and availabilities are written by name.
pub proof fn values_are_written_by_name()
    ensures
        truth(true) == "true"@,
        truth(false) == "false"@,
        DisplayDimmingState::Lit.name() == "Lit"@,
        DisplayDimmingState::AutoDimmed.name() == "AutoDimmed"@,
        DisplayDimmingState::UserDimmed.name() == "UserDimmed"@,
        DisplayDimmingState::UserRestoredWhileEmpty.name() == "UserRestoredWhileEmpty"@,
        TargetAvailability::Unknown.name() == "Unknown"@,
        TargetAvailability::Available.name() == "Available"@,
        TargetAvailability::TemporarilyUnavailable.name() == "TemporarilyUnavailable"@,
        TargetAvailability::Unavailable.name() == "Unavailable"@,
        TargetAvailability::Unsupported.name() == "Unsupported"@,
{
}

/// Lines are joined with a line break between any two: one more line comes behind
/// a line break, unless it is the first.
pub proof fn lines_are_joined_by_line_breaks(lines: Seq<Seq<char>>, line: Seq<char>)
    ensures
        joined(Seq::empty()) == Seq::<char>::empty(),
        joined(seq![line]) == line,
        lines.len() > 0 ==> joined(lines.push(line)) == joined(lines) + seq!['\r', '\n'] + line,
{
    reveal_strlit("\r\n");
    assert("\r\n"@ =~= seq!['\r', '\n']);
    assert(lines.push(line).drop_last() =~= lines);
}

/// A text is blank exactly if both of its parts are; the empty one is, and a single
/// character is if it is white space. A title that is blank is replaced, any other
/// shown as it is.
pub proof fn blank_texts_say_nothing(front: Seq<char>, back: Seq<char>, ch: char)
    ensures
        blank(Seq::empty()),
        blank(seq![ch]) == crate::text::is_white_space(ch),
        blank(front + back) == (blank(front) && blank(back)),
        says_something(front) ==> shown_title(front) == front,
        !says_something(front) ==> shown_title(front) == "(untitled)"@,
{
    assert(says_something(front) <==> !blank(front));
    assert(blank(seq![ch]) ==> crate::text::is_white_space(seq![ch][0]));
    let whole = front + back;
    if blank(whole) {
        assert forall|i: int| 0 <= i < front.len() implies crate::text::is_white_space(
            #[trigger] front[i],
        ) by {
            assert(whole[i] == front[i]);
        }
        assert forall|i: int| 0 <= i < back.len() implies crate::text::is_white_space(
            #[trigger] back[i],
        ) by {
            assert(whole[front.len() + i] == back[i]);
        }
    }
}

/// A character is encoded in one unit, its code, or in a surrogate pair from which
/// its code can be put together; and a text is encoded character by character.
pub proof fn characters_are_encoded_by_their_codes(text: Seq<char>, ch: char)
    ensures
        ({
            let units = char_units(ch);
            let code = ch as int;
            &&& code < 0x1_0000 ==> units.len() == 1 && units[0] == code
            &&& code >= 0x1_0000 ==> {
                &&& units.len() == 2
                &&& 0xD800 <= units[0] < 0xDC00
                &&& 0xDC00 <= units[1] < 0xE000
                &&& code == 0x1_0000 + (units[0] - 0xD800) * 0x400 + (units[1] - 0xDC00)
            }
        }),
        encoded(Seq::empty()) == Seq::<u16>::empty(),
        encoded(text.push(ch)) == encoded(text) + char_units(ch),
{
    assert(text.push(ch).drop_last() =~= text);
}

/// Units are decoded one by one, from the front: a pair of surrogates gives the
/// character that it is made of, one without its partner the replacement character,
/// and any other unit the character with that code.
pub proof fn units_are_decoded_from_the_front(units: Seq<u16>)
    ensures
        decoded(Seq::empty()) == Seq::<char>::empty(),
        units.len() > 0 && !(0xD800 <= units[0] < 0xE000) ==> decoded(units) == seq![
            units[0] as char,
        ] + decoded(units.skip(1)) && (units[0] as char) as int == units[0],
        units.len() > 1 && 0xD800 <= units[0] < 0xDC00 && 0xDC00 <= units[1] < 0xE000 ==> decoded(
            units,
        ).len() == decoded(units.skip(2)).len() + 1 && decoded(units)[0] as int == 0x1_0000 + (
        units[0] - 0xD800) * 0x400 + (units[1] - 0xDC00) && decoded(units).skip(1) == decoded(
            units.skip(2),
        ),
        units.len() > 0 && (0xDC00 <= units[0] < 0xE000 || (0xD800 <= units[0] < 0xDC00 && (
        units.len() == 1 || !(0xDC00 <= units[1] < 0xE000)))) ==> decoded(units) == seq![
            '\u{FFFD}',
        ] + decoded(units.skip(1)),
{
    if units.len() > 1 && 0xD800 <= units[0] < 0xDC00 && 0xDC00 <= units[1] < 0xE000 {
        assert(decoded(units).skip(1) =~= decoded(units.skip(2)));
    }
}

/// What is read from a null-terminated buffer is the front of it up to the first
/// zero, or all of it.
pub proof fn buffers_are_read_up_to_the_first_zero(units: Seq<u16>)
    ensures
        until_null(units).len() <= units.len(),
        until_null(units) == units.take(until_null(units).len() as int),
        forall|i: int| 0 <= i < until_null(units).len() ==> #[trigger] units[i] != 0,
        until_null(units).len() < units.len() ==> units[until_null(units).len() as int] == 0,
    decreases units.len(),
{
    if units.len() > 0 && units[0] != 0 {
        let rest = units.skip(1);
        buffers_are_read_up_to_the_first_zero(rest);
        let len = until_null(rest).len() as int;
        assert(until_null(units) =~= units.take(len + 1)) by {
            assert forall|i: int| 0 <= i < len implies until_null(rest)[i] == #[trigger] units[i + 1] by {
                assert(rest.take(len)[i] == rest[i]);
            }
            assert forall|i: int| 0 <= i < len + 1 implies until_null(units)[i] == #[trigger] units[i] by {
                if i > 0 {
                    assert(until_null(rest)[i - 1] == units[(i - 1) + 1]);
                }
            }
        }
        assert forall|i: int| 0 <= i < len + 1 implies #[trigger] units[i] != 0 by {
            if i > 0 {
                assert(rest[i - 1] == units[i]);
            }
        }
        if len < rest.len() {
            assert(rest[len] == units[len + 1]);
        }
    }
}

/// Of a buffer that was filled so far, that much is read, and nothing where the
/// count tells of no units.
pub proof fn buffers_are_read_as_far_as_filled(buffer: Seq<u16>, copied: int)
    ensures
        copied <= 0 ==> copied_units(buffer, copied).len() == 0,
        0 < copied <= buffer.len() ==> copied_units(buffer, copied) == buffer.subrange(0, copied),
{
    if 0 < copied <= buffer.len() {
        assert(copied_units(buffer, copied) =~= buffer.subrange(0, copied));
    }
}

/// A tooltip that fits is kept whole, with zeros behind it; of one that does not,
/// the front is kept, with three dots and a zero behind it.
pub proof fn tooltips_are_cut_with_dots(text: Seq<char>, size: int, at: int)
    requires
        size >= 4,
        0 <= at < size,
    ensures
        ({
            let units = encoded(text);
            &&& tip(text, size).len() == size
            &&& units.len() < size ==> tip(text, size)[at] == (if at < units.len() {
                units[at]
            } else {
                0
            })
            &&& units.len() >= size ==> tip(text, size)[at] == (if at < size - 4 {
                units[at]
            } else if at < size - 1 {
                46
            } else {
                0
            })
        }),
{
}

/// The processes and the window classes of the shell that do not keep a display lit
/// are these, and no others.
pub proof fn the_shell_is_left_out(name: Seq<char>)
    ensures
        shell_processes().contains(name) <==> name == "lockapp"@ || name == "searchhost"@ || name
            == "shellexperiencehost"@ || name == "startmenuexperiencehost"@ || name
            == "textinputhost"@ || name == "widgetservice"@ || name == "widgets"@,
        shell_classes().contains(name) <==> name == "notifyiconoverflowwindow"@ || name
            == "progman"@ || name == "shell_secondarytraywnd"@ || name == "shell_traywnd"@ || name
            == "workerw"@,
{
    assert(normalized("LockApp"@) =~= "lockapp"@) by {
        reveal_strlit("LockApp");
        reveal_strlit("lockapp");
    }
    assert(normalized("SearchHost"@) =~= "searchhost"@) by {
        reveal_strlit("SearchHost");
        reveal_strlit("searchhost");
    }
    assert(normalized("ShellExperienceHost"@) =~= "shellexperiencehost"@) by {
        reveal_strlit("ShellExperienceHost");
        reveal_strlit("shellexperiencehost");
    }
    assert(normalized("StartMenuExperienceHost"@) =~= "startmenuexperiencehost"@) by {
        reveal_strlit("StartMenuExperienceHost");
        reveal_strlit("startmenuexperiencehost");
    }
    assert(normalized("TextInputHost"@) =~= "textinputhost"@) by {
        reveal_strlit("TextInputHost");
        reveal_strlit("textinputhost");
    }
    assert(normalized("WidgetService"@) =~= "widgetservice"@) by {
        reveal_strlit("WidgetService");
        reveal_strlit("widgetservice");
    }
    assert(normalized("Widgets"@) =~= "widgets"@) by {
        reveal_strlit("Widgets");
        reveal_strlit("widgets");
    }
    assert(normalized("NotifyIconOverflowWindow"@) =~= "notifyiconoverflowwindow"@) by {
        reveal_strlit("NotifyIconOverflowWindow");
        reveal_strlit("notifyiconoverflowwindow");
    }
    assert(normalized("Progman"@) =~= "progman"@) by {
        reveal_strlit("Progman");
        reveal_strlit("progman");
    }
    assert(normalized("Shell_SecondaryTrayWnd"@) =~= "shell_secondarytraywnd"@) by {
        reveal_strlit("Shell_SecondaryTrayWnd");
        reveal_strlit("shell_secondarytraywnd");
    }
    assert(normalized("Shell_TrayWnd"@) =~= "shell_traywnd"@) by {
        reveal_strlit("Shell_TrayWnd");
        reveal_strlit("shell_traywnd");
    }
    assert(normalized("WorkerW"@) =~= "workerw"@) by {
        reveal_strlit("WorkerW");
        reveal_strlit("workerw");
    }
}

/// Some monitor of the display may be talked to.
pub open spec fn has_reachable(display: DisplayView) -> bool {
    exists|i: int| 0 <= i < display.targets.len() && reachable(#[trigger] display.targets[i])
}

/// Some monitor of the display is dimmed.
pub open spec fn has_dimmed(display: DisplayView) -> bool {
    exists|i: int| 0 <= i < display.targets.len() && (#[trigger] display.targets[i]).is_dimmed
}

/// Displays are counted one by one: as ones that can be dimmed if some monitor may
/// be talked to, as dimmed if some monitor is, and as pending if something is
/// pending.
pub proof fn displays_are_counted_one_by_one(manager: ManagerView, display: DisplayView)
    ensures
        ({
            let none = ManagerView { displays: Seq::empty(), ..manager };
            let more = ManagerView { displays: manager.displays.push(display), ..manager };
            let one = |counts: bool|
                if counts {
                    1int
                } else {
                    0int
                };
            &&& none.controllable_count() == 0 && none.dimmed_count() == 0 && none.pending_count()
                == 0
            &&& more.controllable_count() == manager.controllable_count() + one(
                has_reachable(display),
            )
            &&& more.dimmed_count() == manager.dimmed_count() + one(has_dimmed(display))
            &&& more.pending_count() == manager.pending_count() + one(
                display.pending_operation is Some,
            )
        }),
{
    reveal(Seq::filter);
    let more = manager.displays.push(display);
    let at = manager.displays.len() as int;
    assert(more.take(at + 1) =~= more);
    assert(more.take(at) =~= manager.displays);
    lemma_count_one_more(more, at, |display: DisplayView| display.is_controllable());
    lemma_count_one_more(more, at, |display: DisplayView| display.is_dimmed());
    lemma_count_one_more(more, at, |display: DisplayView| display.is_pending());
    if display.is_controllable() {
        let i = choose|i: int|
            0 <= i < display.targets.len() && (#[trigger] display.targets[i]).attemptable();
        assert(reachable(display.targets[i]));
    }
    if has_reachable(display) {
        let i = choose|i: int|
            0 <= i < display.targets.len() && reachable(#[trigger] display.targets[i]);
        assert(display.targets[i].attemptable());
    }
    assert(display.is_dimmed() == has_dimmed(display));
}

/// What the diagnostics tell of operations, monitors, a display and all displays.
pub proof fn diagnostics_tell_of_every_display(
    manager: ManagerView,
    displays: Seq<DisplayView>,
    display: DisplayView,
    target: TargetView,
    brightness: u32,
    next_state: DisplayDimmingState,
    operation: PendingBrightnessOperation,
)
    ensures
        operation_text(PendingBrightnessOperation::Dim { brightness, next_state })
            == "Dim { brightness: "@ + decimal(brightness as int) + ", next_state: "@
            + next_state.name() + " }"@,
        operation_text(PendingBrightnessOperation::Restore { next_state })
            == "Restore { next_state: "@ + next_state.name() + " }"@,
        operation_text(PendingBrightnessOperation::SetLevel { brightness, next_state })
            == "Set { brightness: "@ + decimal(brightness as int) + ", next_state: "@
            + next_state.name() + " }"@,
        pending_text(None) == "None"@,
        pending_text(Some(operation)) == "Some("@ + operation_text(operation) + ")"@,
        target_line(target) == "  Monitor: "@ + target.description + " dimmed="@ + truth(
            target.is_dimmed,
        ) + " availability="@ + target.availability.name(),
        ({
            let lines = display.lines();
            &&& lines.len() == 4 + display.targets.len()
            &&& lines[0] == display.device_name + " "@ + decimal(
                display.bounds.right - display.bounds.left,
            ) + "x"@ + decimal(display.bounds.bottom - display.bounds.top) + " targets="@
                + decimal(display.targets.len() as int)
            &&& lines[1] == "  State: "@ + display.dimming_state.name()
            &&& lines[2] == "  Pending: "@ + pending_text(display.pending_operation)
            &&& lines[3] == "  Blocking window: "@ + (if display.last_blocking_window is Some {
                display.last_blocking_window->0
            } else {
                "(none)"@
            })
            &&& forall|i: int|
                0 <= i < display.targets.len() ==> #[trigger] lines[4 + i] == target_line(
                    display.targets[i],
                )
        }),
        displays_lines(Seq::empty()) == Seq::<Seq<char>>::empty(),
        displays_lines(displays.push(display)) == displays_lines(displays) + display.lines(),
        ({
            let head = manager.head_lines();
            &&& head.len() == 6
            &&& head[0] == "DPI mode: PerMonitorV2"@
            &&& head[1] == "Manual dimming: "@ + truth(manager.manual_dimming_enabled)
            &&& head[2] == "Controllable displays: "@ + decimal(
                manager.controllable_count() as int,
            ) + "/"@ + decimal(manager.displays.len() as int)
            &&& head[3] == "Dimmed displays: "@ + decimal(manager.dimmed_count() as int)
            &&& head[4] == "Detached display snapshots: "@ + decimal(
                manager.detached_snapshots.len() as int,
            )
            &&& head[5] == Seq::<char>::empty()
            &&& manager.diagnostic_text() == joined(head + displays_lines(manager.displays))
        }),
{
    assert(displays.push(display).drop_last() =~= displays);
    let lines = display.lines();
    assert forall|i: int| 0 <= i < display.targets.len() implies #[trigger] lines[4 + i]
        == target_line(display.targets[i]) by {
        assert(display.own_lines().len() == 4);
    }
}

} // verus!
