//! Which windows count, and which keep a display lit, told in terms of their
//! edges and of what the operating system says of them.

use vstd::prelude::*;

use crate::geometry::SimpleRect;
use crate::inspection::component_stem;
use crate::inspection::concluded;
use crate::inspection::inspected;
use crate::inspection::last_dot;
use crate::inspection::started;
use crate::inspection::text_or_empty;
use crate::inspection::style_counts;
use crate::inspection::AnswerView;
use crate::inspection::InspectionStepView;
use crate::inspection::InspectionView;
use crate::inspection::WindowFacts;
use crate::settings::SettingsView;
use crate::text::normalized;
use crate::tracking::blocking_caption;
use crate::tracking::first_blocking;
use crate::tracking::first_blocking_is_first;
use crate::tracking::WindowView;

verus! {

/// How far two stretches overlap; zero or less where they do not meet.
pub open spec fn shared_length(low: int, high: int, other_low: int, other_high: int) -> int {
    (if high <= other_high {
        high
    } else {
        other_high
    }) - (if low >= other_low {
        low
    } else {
        other_low
    })
}

/// The overlap of a window with a display is as wide, as high and as large as the
/// settings ask for.
pub open spec fn shows_enough(
    settings: SettingsView,
    display: SimpleRect,
    window: SimpleRect,
) -> bool {
    let width = shared_length(
        display.left as int,
        display.right as int,
        window.left as int,
        window.right as int,
    );
    let height = shared_length(
        display.top as int,
        display.bottom as int,
        window.top as int,
        window.bottom as int,
    );
    &&& width > 0
    &&& height > 0
    &&& width >= settings.minimum_overlap_width
    &&& height >= settings.minimum_overlap_height
    &&& width * height >= settings.minimum_overlap_pixels
}

/// The pixel lies on both.
pub open spec fn on_both(display: SimpleRect, window: SimpleRect, x: int, y: int) -> bool {
    &&& display.left <= x < display.right
    &&& display.top <= y < display.bottom
    &&& window.left <= x < window.right
    &&& window.top <= y < window.bottom
}

/// The overlap of two rectangles that meet has exactly the pixels of both between
/// its edges; that of two that do not has none. The spans are the distances of the
/// edges, and a rectangle is empty if either is none.
pub proof fn overlaps_lie_between_the_inner_edges(a: SimpleRect, b: SimpleRect, x: int, y: int)
    ensures
        ({
            let shared = a.overlap(b);
            &&& (shared.left <= x < shared.right && shared.top <= y < shared.bottom) <==> on_both(
                a,
                b,
                x,
                y,
            )
            &&& (shared.left == a.left || shared.left == b.left) && shared.left >= a.left
                && shared.left >= b.left
            &&& (shared.top == a.top || shared.top == b.top) && shared.top >= a.top && shared.top
                >= b.top
            &&& (shared.right == a.right || shared.right == b.right) && shared.right <= a.right
                && shared.right <= b.right
            &&& (shared.bottom == a.bottom || shared.bottom == b.bottom) && shared.bottom
                <= a.bottom && shared.bottom <= b.bottom
        }),
        a.span_x() == a.right - a.left,
        a.span_y() == a.bottom - a.top,
        a.empty() <==> a.right <= a.left || a.bottom <= a.top,
{
}

/// Whether a window keeps a display lit depends on nothing but how wide, how high
/// and how large the overlap of the two is.
pub proof fn windows_block_by_their_overlap(
    settings: SettingsView,
    display: SimpleRect,
    window: WindowView,
)
    ensures
        window.blocks(settings, display) <==> shows_enough(settings, display, window.bounds),
{
}

/// Two windows that cover the same part of a display both keep it lit or both do
/// not, wherever else they reach.
pub proof fn windows_over_the_same_part_are_judged_alike(
    settings: SettingsView,
    display: SimpleRect,
    one: WindowView,
    other: WindowView,
)
    requires
        forall|x: int, y: int|
            #![trigger on_both(display, one.bounds, x, y)]
            #![trigger on_both(display, other.bounds, x, y)]
            on_both(display, one.bounds, x, y) <==> on_both(display, other.bounds, x, y),
    ensures
        one.blocks(settings, display) == other.blocks(settings, display),
{
    let a = display.overlap(one.bounds);
    let b = display.overlap(other.bounds);
    if !a.empty() {
        assert(on_both(display, one.bounds, a.left as int, a.top as int));
        assert(on_both(display, one.bounds, a.right - 1, a.bottom - 1));
    }
    if !b.empty() {
        assert(on_both(display, other.bounds, b.left as int, b.top as int));
        assert(on_both(display, other.bounds, b.right - 1, b.bottom - 1));
    }
}

/// A window that covers the whole of a display, however far beyond it, keeps it
/// lit, if the display is as large as the settings ask for.
pub proof fn windows_over_all_of_a_display_block_it(
    settings: SettingsView,
    display: SimpleRect,
    window: WindowView,
)
    requires
        window.bounds.left <= display.left < display.right <= window.bounds.right,
        window.bounds.top <= display.top < display.bottom <= window.bounds.bottom,
        display.right - display.left >= settings.minimum_overlap_width,
        display.bottom - display.top >= settings.minimum_overlap_height,
        (display.right - display.left) * (display.bottom - display.top)
            >= settings.minimum_overlap_pixels,
    ensures
        window.blocks(settings, display),
{
}

/// A display is kept lit exactly if the overlap with some window is enough, and
/// what is told is the process and the title of the first such window, with a colon
/// and a blank between them.
pub proof fn displays_are_kept_lit_by_the_first_window_that_shows_enough(
    settings: SettingsView,
    display: SimpleRect,
    windows: Seq<WindowView>,
)
    ensures
        first_blocking(settings, display, windows) is Some <==> exists|i: int|
            0 <= i < windows.len() && shows_enough(
                settings,
                display,
                (#[trigger] windows[i]).bounds,
            ),
        first_blocking(settings, display, windows) is Some <==> blocking_caption(
            settings,
            display,
            windows,
        ) is Some,
        forall|i: int|
            0 <= i < windows.len() && shows_enough(
                settings,
                display,
                (#[trigger] windows[i]).bounds,
            ) && (forall|j: int|
                0 <= j < i ==> !shows_enough(settings, display, (#[trigger] windows[j]).bounds))
                ==> blocking_caption(settings, display, windows) == Some(
                windows[i].process_name + seq![':', ' '] + windows[i].title,
            ),
{
    first_blocking_is_first(settings, display, windows);
    reveal_strlit(": ");
    assert(": "@ == seq![':', ' ']);
    assert forall|i: int| 0 <= i < windows.len() implies (#[trigger] windows[i]).blocks(
        settings,
        display,
    ) == shows_enough(settings, display, windows[i].bounds) by {}
    if first_blocking(settings, display, windows) is Some {
        let k = choose|k: int|
            0 <= k < windows.len() && #[trigger] windows[k] == first_blocking(
                settings,
                display,
                windows,
            )->0 && windows[k].blocks(settings, display) && forall|j: int|
                0 <= j < k ==> !(#[trigger] windows[j]).blocks(settings, display);
        assert(shows_enough(settings, display, windows[k].bounds));
        assert forall|i: int|
            0 <= i < windows.len() && shows_enough(
                settings,
                display,
                (#[trigger] windows[i]).bounds,
            ) && (forall|j: int|
                0 <= j < i ==> !shows_enough(settings, display, (#[trigger] windows[j]).bounds))
            implies i == k by {
            if i < k {
                assert(windows[i].blocks(settings, display));
            }
            if k < i {
                assert(!shows_enough(settings, display, windows[k].bounds));
            }
        }
    }
    if exists|i: int|
        0 <= i < windows.len() && shows_enough(settings, display, (#[trigger] windows[i]).bounds) {
        let i = choose|i: int|
            0 <= i < windows.len() && shows_enough(
                settings,
                display,
                (#[trigger] windows[i]).bounds,
            );
        assert(windows[i].blocks(settings, display));
    }
}

/// The extended style marks a tool window: its eighth bit is set.
pub open spec fn marks_tool_window(style: isize) -> bool {
    (style as int) % 256 >= 128
}

/// Of a window's extended style only the bit for tool windows matters. Two styles
/// that agree on it are judged alike; every style without it is one of a window
/// that counts, and one with it counts only if tool windows do.
pub proof fn only_the_tool_window_bit_matters(
    settings: SettingsView,
    style: isize,
    title_length: int,
)
    ensures
        style_counts(settings, style) <==> !marks_tool_window(style)
            || settings.include_tool_windows,
        inspected(
            settings,
            InspectionView::Style { title_length },
            AnswerView::Style(style),
        ) == (if marks_tool_window(style) && !settings.include_tool_windows {
            InspectionStepView::Rejected
        } else {
            InspectionStepView::Ask(InspectionView::Cloak { title_length })
        }),
{
    assert(((style & 0x80) == 0x80) <==> (style as int) % 256 >= 128) by (bit_vector);
}

/// Two styles that agree on the bit for tool windows are judged alike.
pub proof fn styles_are_judged_by_one_bit(
    settings: SettingsView,
    one: isize,
    other: isize,
    title_length: int,
)
    requires
        marks_tool_window(one) == marks_tool_window(other),
    ensures
        inspected(settings, InspectionView::Style { title_length }, AnswerView::Style(one))
            == inspected(
            settings,
            InspectionView::Style { title_length },
            AnswerView::Style(other),
        ),
{
    only_the_tool_window_bit_matters(settings, one, title_length);
    only_the_tool_window_bit_matters(settings, other, title_length);
}

/// The name without the case of its ASCII letters.
pub open spec fn folded(name: Seq<char>) -> Seq<char> {
    Seq::new(
        name.len(),
        |i: int|
            if 65 <= name[i] as u32 <= 90 {
                (name[i] as u32 + 32) as char
            } else {
                name[i]
            },
    )
}

/// Names are compared without the case of their ASCII letters.
pub proof fn names_are_folded(name: Seq<char>)
    ensures
        normalized(name) == folded(name),
{
    assert(normalized(name) =~= folded(name));
}

/// Some character is no white space.
pub open spec fn says_something(text: Seq<char>) -> bool {
    exists|i: int| 0 <= i < text.len() && !crate::text::is_white_space(#[trigger] text[i])
}

/// The title that a window of that length of title has.
pub open spec fn told_title(facts: WindowFacts) -> Seq<char> {
    if facts.title_length > 0 {
        facts.title
    } else {
        Seq::empty()
    }
}

/// A window counts if it is there, is not the desktop, is visible and not
/// minimised; is no tool window, unless those count; is not cloaked, as far as can
/// be told; has edges that enclose something; and neither its class nor its process
/// is left out. It then counts under its process and its title, or a placeholder
/// where that says nothing.
pub proof fn windows_count_for_what_they_are(settings: SettingsView, facts: WindowFacts)
    ensures
        ({
            let process_name = if facts.process_id == 0 {
                Seq::empty()
            } else {
                facts.process_name
            };
            let counts = {
                &&& !facts.flags.is_null
                &&& !facts.flags.is_shell
                &&& facts.flags.is_visible
                &&& !facts.flags.is_iconic
                &&& !marks_tool_window(facts.style) || settings.include_tool_windows
                &&& facts.cloak is None || facts.cloak->0 == 0
                &&& facts.frame is Some
                &&& facts.frame->0.left < facts.frame->0.right
                &&& facts.frame->0.top < facts.frame->0.bottom
                &&& !settings.excluded_class_names.contains(folded(facts.class_name))
                &&& process_name.len() == 0 || !settings.excluded_process_names.contains(
                    folded(process_name),
                )
            };
            concluded(settings, facts, started(facts.flags), 8) == (if counts {
                InspectionStepView::Accepted(
                    WindowView {
                        process_name,
                        title: if says_something(told_title(facts)) {
                            told_title(facts)
                        } else {
                            "(untitled)"@
                        },
                        bounds: facts.frame->0,
                    },
                )
            } else {
                InspectionStepView::Rejected
            })
        }),
{
    reveal_with_fuel(concluded, 10);
    only_the_tool_window_bit_matters(settings, facts.style, facts.title_length);
    names_are_folded(facts.class_name);
    names_are_folded(facts.process_name);
    names_are_folded(Seq::empty());
    assert(says_something(told_title(facts)) <==> !crate::text::blank(told_title(facts)));
}

/// An inspection goes on with what it was told: the length of the title until the
/// title is asked for, the edges and the title until the end, and the process whose
/// name is asked for is the one that was told.
pub proof fn inspections_keep_what_they_are_told(
    settings: SettingsView,
    title_length: int,
    bounds: SimpleRect,
    title: Seq<char>,
    process_id: u32,
)
    requires
        process_id != 0,
    ensures
        inspected(settings, InspectionView::TitleLength, AnswerView::TitleLength(title_length))
            == InspectionStepView::Ask(InspectionView::Style { title_length }),
        inspected(settings, InspectionView::Cloak { title_length }, AnswerView::Cloak(Some(0)))
            == InspectionStepView::Ask(InspectionView::Frame { title_length }),
        inspected(settings, InspectionView::Cloak { title_length }, AnswerView::Cloak(None))
            == InspectionStepView::Ask(InspectionView::Frame { title_length }),
        inspected(
            settings,
            InspectionView::ProcessId { bounds, title },
            AnswerView::ProcessId(process_id),
        ) == InspectionStepView::Ask(InspectionView::ProcessName { bounds, title, process_id }),
{
}

/// A process is named by the stem of its image, all of it, or not at all.
pub proof fn processes_are_named_by_the_whole_stem(stem: Seq<char>)
    ensures
        text_or_empty(Some(stem)) == stem,
        text_or_empty(None).len() == 0,
{
}

/// The buffer that is asked for to hold a title has room for it and a terminating
/// zero.
pub proof fn titles_are_given_room(settings: SettingsView, bounds: SimpleRect, title_length: int)
    requires
        title_length > 0,
        bounds.left < bounds.right,
        bounds.top < bounds.bottom,
    ensures
        inspected(
            settings,
            InspectionView::Frame { title_length },
            AnswerView::Frame(Some(bounds)),
        ) == InspectionStepView::Ask(InspectionView::Title { bounds, capacity: title_length + 1 }),
{
}

/// The place of the last dot, if there is one.
proof fn lemma_last_dot(name: Seq<char>)
    ensures
        -1 <= last_dot(name) < name.len(),
        last_dot(name) >= 0 ==> name[last_dot(name)] == '.',
        forall|i: int| last_dot(name) < i < name.len() ==> #[trigger] name[i] != '.',
    decreases name.len(),
{
    if name.len() > 0 && name.last() != '.' {
        let front = name.drop_last();
        lemma_last_dot(front);
        assert forall|i: int| last_dot(name) < i < name.len() implies #[trigger] name[i] != '.' by {
            if i < front.len() {
                assert(front[i] == name[i]);
            }
        }
    }
}

/// The stem of a file's name is the name up to its last dot, if that is not the
/// first character; else all of it. Nothing, and the directory above, have no stem.
pub proof fn stems_end_before_the_last_dot(name: Seq<char>, dot: int)
    requires
        0 <= dot < name.len(),
        name[dot] == '.',
        forall|i: int| dot < i < name.len() ==> #[trigger] name[i] != '.',
        name != ".."@,
    ensures
        component_stem(name) == Some(
            if dot == 0 {
                name
            } else {
                name.subrange(0, dot)
            },
        ),
{
    lemma_last_dot(name);
    assert(last_dot(name) == dot);
    assert(name.take(dot) =~= name.subrange(0, dot));
}

/// The stem of a file's name without a dot is the name.
pub proof fn stems_without_dots_are_names(name: Seq<char>)
    requires
        name.len() > 0,
        !name.contains('.'),
    ensures
        component_stem(name) == Some(name),
        component_stem(Seq::empty()) is None,
        component_stem(".."@) is None,
{
    lemma_last_dot(name);
    reveal_strlit("..");
    if last_dot(name) >= 0 {
        assert(name.contains(name[last_dot(name)]));
    }
    if name == ".."@ {
        assert(name[0] == '.');
    }
}

} // verus!
