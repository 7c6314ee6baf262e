//! Which windows count.
//!
//! Finding out about a window takes a number of questions to the operating
//! system. An inspection asks them one by one, and no more of them once the
//! window is known not to count.

use vstd::prelude::*;

use crate::display::optional_text;
use crate::geometry::SimpleRect;
use crate::settings::AppSettings;
use crate::settings::SettingsView;
use crate::text::normalize_name;
use crate::text::normalized;
use crate::text::shown_title;
use crate::text::window_title_or_placeholder;
use crate::tracking::TrackedWindow;
use crate::tracking::WindowView;
use crate::utf16::decode;
use crate::utf16::decoded;

verus! {

/// The bit of a window's extended style that marks a tool window.
pub const TOOL_WINDOW_STYLE: isize = 0x80;

/// What is known of a window from the start.
#[derive(Debug, Clone, Copy, PartialEq, Eq, Structural)]
pub struct WindowFlags {
    /// There is no window.
    pub is_null: bool,
    /// The window is the shell's desktop.
    pub is_shell: bool,
    pub is_visible: bool,
    pub is_iconic: bool,
}

/// The question that an inspection asks next, with what it has to keep of the
/// answers so far.
#[derive(Debug)]
pub enum Inspection {
    TitleLength,
    Style { title_length: i32 },
    Cloak { title_length: i32 },
    Frame { title_length: i32 },
    /// The title, which takes a buffer of `capacity` code units.
    Title { bounds: SimpleRect, capacity: usize },
    ClassName { bounds: SimpleRect, title: String },
    ProcessId { bounds: SimpleRect, title: String },
    ProcessName { bounds: SimpleRect, title: String, process_id: u32 },
}

/// The contents of an `Inspection`.
pub enum InspectionView {
    TitleLength,
    Style { title_length: int },
    Cloak { title_length: int },
    Frame { title_length: int },
    Title { bounds: SimpleRect, capacity: int },
    ClassName { bounds: SimpleRect, title: Seq<char> },
    ProcessId { bounds: SimpleRect, title: Seq<char> },
    ProcessName { bounds: SimpleRect, title: Seq<char>, process_id: u32 },
}

impl View for Inspection {
    type V = InspectionView;

    open spec fn view(&self) -> InspectionView {
        match *self {
            Inspection::TitleLength => InspectionView::TitleLength,
            Inspection::Style { title_length } => InspectionView::Style {
                title_length: title_length as int,
            },
            Inspection::Cloak { title_length } => InspectionView::Cloak {
                title_length: title_length as int,
            },
            Inspection::Frame { title_length } => InspectionView::Frame {
                title_length: title_length as int,
            },
            Inspection::Title { bounds, capacity } => InspectionView::Title {
                bounds,
                capacity: capacity as int,
            },
            Inspection::ClassName { bounds, title } => InspectionView::ClassName {
                bounds,
                title: title@,
            },
            Inspection::ProcessId { bounds, title } => InspectionView::ProcessId {
                bounds,
                title: title@,
            },
            Inspection::ProcessName { bounds, title, process_id } => InspectionView::ProcessName {
                bounds,
                title: title@,
                process_id,
            },
        }
    }
}

/// An answer to an inspection's question.
#[derive(Debug)]
pub enum WindowAnswer {
    TitleLength(i32),
    Style(isize),
    /// Why the window is cloaked, zero if it is not, nothing if that cannot be
    /// told.
    Cloak(Option<u32>),
    /// The window's edges, if they can be told.
    Frame(Option<SimpleRect>),
    Title(String),
    ClassName(String),
    ProcessId(u32),
    ProcessName(String),
}

/// The contents of a `WindowAnswer`.
pub enum AnswerView {
    TitleLength(int),
    Style(isize),
    Cloak(Option<u32>),
    Frame(Option<SimpleRect>),
    Title(Seq<char>),
    ClassName(Seq<char>),
    ProcessId(u32),
    ProcessName(Seq<char>),
}

impl View for WindowAnswer {
    type V = AnswerView;

    open spec fn view(&self) -> AnswerView {
        match *self {
            WindowAnswer::TitleLength(length) => AnswerView::TitleLength(length as int),
            WindowAnswer::Style(style) => AnswerView::Style(style),
            WindowAnswer::Cloak(cloak) => AnswerView::Cloak(cloak),
            WindowAnswer::Frame(frame) => AnswerView::Frame(frame),
            WindowAnswer::Title(title) => AnswerView::Title(title@),
            WindowAnswer::ClassName(name) => AnswerView::ClassName(name@),
            WindowAnswer::ProcessId(id) => AnswerView::ProcessId(id),
            WindowAnswer::ProcessName(name) => AnswerView::ProcessName(name@),
        }
    }
}

/// Where an inspection stands.
#[derive(Debug)]
pub enum InspectionStep {
    /// The window does not count.
    Rejected,
    /// The window counts.
    Accepted(TrackedWindow),
    /// A question is to be answered.
    Ask(Inspection),
}

/// The contents of an `InspectionStep`.
pub enum InspectionStepView {
    Rejected,
    Accepted(WindowView),
    Ask(InspectionView),
}

impl View for InspectionStep {
    type V = InspectionStepView;

    open spec fn view(&self) -> InspectionStepView {
        match *self {
            InspectionStep::Rejected => InspectionStepView::Rejected,
            InspectionStep::Accepted(window) => InspectionStepView::Accepted(window@),
            InspectionStep::Ask(inspection) => InspectionStepView::Ask(inspection@),
        }
    }
}

impl InspectionView {
    /// The answer is one to this question.
    pub open spec fn answered_by(self, answer: AnswerView) -> bool {
        match self {
            InspectionView::TitleLength => answer is TitleLength,
            InspectionView::Style { .. } => answer is Style,
            InspectionView::Cloak { .. } => answer is Cloak,
            InspectionView::Frame { .. } => answer is Frame,
            InspectionView::Title { .. } => answer is Title,
            InspectionView::ClassName { .. } => answer is ClassName,
            InspectionView::ProcessId { .. } => answer is ProcessId,
            InspectionView::ProcessName { .. } => answer is ProcessName,
        }
    }
}

/// The window is there, shows, and is not the desktop.
pub open spec fn on_screen(flags: WindowFlags) -> bool {
    !flags.is_null && !flags.is_shell && flags.is_visible && !flags.is_iconic
}

/// How an inspection starts: with a question if the window shows.
pub open spec fn started(flags: WindowFlags) -> InspectionStepView {
    if on_screen(flags) {
        InspectionStepView::Ask(InspectionView::TitleLength)
    } else {
        InspectionStepView::Rejected
    }
}

/// The style is one of a window that counts.
pub open spec fn style_counts(settings: SettingsView, style: isize) -> bool {
    settings.include_tool_windows || style & TOOL_WINDOW_STYLE != TOOL_WINDOW_STYLE
}

/// The window is not hidden behind a cloak.
pub open spec fn uncloaked(cloak: Option<u32>) -> bool {
    cloak is None || cloak == Some(0u32)
}

/// The class is one of windows that count.
pub open spec fn class_counts(settings: SettingsView, class_name: Seq<char>) -> bool {
    !settings.excluded_class_names.contains(normalized(class_name))
}

/// The process is one whose windows count; so is one without a name.
pub open spec fn process_counts(settings: SettingsView, process_name: Seq<char>) -> bool {
    process_name.len() == 0 || !settings.excluded_process_names.contains(normalized(process_name))
}

/// The verdict on a window of which everything else has been found to count.
pub open spec fn by_process(
    settings: SettingsView,
    bounds: SimpleRect,
    title: Seq<char>,
    process_name: Seq<char>,
) -> InspectionStepView {
    if process_counts(settings, process_name) {
        InspectionStepView::Accepted(WindowView { process_name, title, bounds })
    } else {
        InspectionStepView::Rejected
    }
}

/// The next step of an inspection, given the answer to its question.
pub open spec fn inspected(
    settings: SettingsView,
    inspection: InspectionView,
    answer: AnswerView,
) -> InspectionStepView
    recommends
        inspection.answered_by(answer),
{
    match (inspection, answer) {
        (InspectionView::TitleLength, AnswerView::TitleLength(title_length)) =>
        InspectionStepView::Ask(InspectionView::Style { title_length }),
        (InspectionView::Style { title_length }, AnswerView::Style(style)) => if style_counts(
            settings,
            style,
        ) {
            InspectionStepView::Ask(InspectionView::Cloak { title_length })
        } else {
            InspectionStepView::Rejected
        },
        (InspectionView::Cloak { title_length }, AnswerView::Cloak(cloak)) => if uncloaked(cloak) {
            InspectionStepView::Ask(InspectionView::Frame { title_length })
        } else {
            InspectionStepView::Rejected
        },
        (InspectionView::Frame { title_length }, AnswerView::Frame(Some(bounds))) =>
        if bounds.empty() {
            InspectionStepView::Rejected
        } else if title_length > 0 {
            InspectionStepView::Ask(InspectionView::Title { bounds, capacity: title_length + 1 })
        } else {
            InspectionStepView::Ask(
                InspectionView::ClassName { bounds, title: shown_title(Seq::empty()) },
            )
        },
        (InspectionView::Title { bounds, .. }, AnswerView::Title(title)) => InspectionStepView::Ask(
            InspectionView::ClassName { bounds, title: shown_title(title) },
        ),
        (InspectionView::ClassName { bounds, title }, AnswerView::ClassName(class_name)) =>
        if class_counts(settings, class_name) {
            InspectionStepView::Ask(InspectionView::ProcessId { bounds, title })
        } else {
            InspectionStepView::Rejected
        },
        (InspectionView::ProcessId { bounds, title }, AnswerView::ProcessId(process_id)) =>
        if process_id == 0 {
            by_process(settings, bounds, title, Seq::empty())
        } else {
            InspectionStepView::Ask(InspectionView::ProcessName { bounds, title, process_id })
        },
        (
            InspectionView::ProcessName { bounds, title, .. },
            AnswerView::ProcessName(process_name),
        ) => by_process(settings, bounds, title, process_name),
        _ => InspectionStepView::Rejected,
    }
}

/// Finds the windows that count.
#[derive(Debug)]
pub struct WindowTracker {
    pub settings: AppSettings,
}

impl WindowTracker {
    /// A tracker that goes by the settings.
    pub fn new(settings: AppSettings) -> (tracker: Self)
        ensures
            tracker.settings == settings,
    {
        WindowTracker { settings }
    }

    /// Starts an inspection.
    pub fn try_get_tracked_window(&self, flags: WindowFlags) -> (step: InspectionStep)
        ensures
            step@ == started(flags),
    {
        if flags.is_null || flags.is_shell || !flags.is_visible || flags.is_iconic {
            return InspectionStep::Rejected;
        }
        InspectionStep::Ask(Inspection::TitleLength)
    }

    /// The verdict on a window of which everything else has been found to
    /// count.
    fn judge_process(&self, bounds: SimpleRect, title: String, process_name: String) -> (step:
        InspectionStep)
        ensures
            step@ == by_process(self.settings@, bounds, title@, process_name@),
    {
        if !process_name.as_str().is_empty() && self.settings.excluded_process_names.contains(
            &normalize_name(process_name.as_str()),
        ) {
            return InspectionStep::Rejected;
        }
        InspectionStep::Accepted(TrackedWindow { process_name, title, bounds })
    }

    /// Hands an inspection the answer to its question.
    pub fn resume_inspection(&self, inspection: Inspection, answer: WindowAnswer) -> (step:
        InspectionStep)
        requires
            inspection@.answered_by(answer@),
        ensures
            step@ == inspected(self.settings@, inspection@, answer@),
    {
        match (inspection, answer) {
            (Inspection::TitleLength, WindowAnswer::TitleLength(title_length)) => {
                InspectionStep::Ask(Inspection::Style { title_length })
            },
            (Inspection::Style { title_length }, WindowAnswer::Style(style)) => {
                if !self.settings.include_tool_windows && (style & TOOL_WINDOW_STYLE)
                    == TOOL_WINDOW_STYLE {
                    return InspectionStep::Rejected;
                }
                InspectionStep::Ask(Inspection::Cloak { title_length })
            },
            (Inspection::Cloak { title_length }, WindowAnswer::Cloak(cloak)) => {
                if let Some(reason) = cloak {
                    if reason != 0 {
                        return InspectionStep::Rejected;
                    }
                }
                InspectionStep::Ask(Inspection::Frame { title_length })
            },
            (Inspection::Frame { title_length }, WindowAnswer::Frame(frame)) => {
                let bounds = match frame {
                    Some(bounds) => bounds,
                    None => {
                        return InspectionStep::Rejected;
                    },
                };
                if bounds.right <= bounds.left || bounds.bottom <= bounds.top {
                    return InspectionStep::Rejected;
                }
                if title_length > 0 {
                    let capacity: usize = title_length as usize + 1;
                    InspectionStep::Ask(Inspection::Title { bounds, capacity })
                } else {
                    let title = window_title_or_placeholder(String::new());
                    InspectionStep::Ask(Inspection::ClassName { bounds, title })
                }
            },
            (Inspection::Title { bounds, .. }, WindowAnswer::Title(title)) => {
                let title = window_title_or_placeholder(title);
                InspectionStep::Ask(Inspection::ClassName { bounds, title })
            },
            (Inspection::ClassName { bounds, title }, WindowAnswer::ClassName(class_name)) => {
                if self.settings.excluded_class_names.contains(&normalize_name(class_name.as_str())) {
                    return InspectionStep::Rejected;
                }
                InspectionStep::Ask(Inspection::ProcessId { bounds, title })
            },
            (Inspection::ProcessId { bounds, title }, WindowAnswer::ProcessId(process_id)) => {
                if process_id == 0 {
                    return self.judge_process(bounds, title, String::new());
                }
                InspectionStep::Ask(Inspection::ProcessName { bounds, title, process_id })
            },
            (
                Inspection::ProcessName { bounds, title, .. },
                WindowAnswer::ProcessName(process_name),
            ) => self.judge_process(bounds, title, process_name),
            _ => InspectionStep::Rejected,
        }
    }
}

/// Calls `std::path::Path::file_stem`: the last component of a path, unless it
/// has none or ends in the one for the directory above, up to the component's
/// last dot unless that is its first character. A stem is a part of the path,
/// and not an empty one. Whether backslashes separate components, as slashes do,
/// and whether a drive is told apart, is up to the platform. So it is claimed
/// that the stem is one of two: the one where they do, or the one where they do
/// not. Of a path that starts with two separators this is claimed only where it
/// names a file behind all that a platform may take for the path's prefix.
#[verifier::external_body]
fn file_stem(path: &str) -> (stem: Option<String>)
    ensures
        stem matches Some(stem) ==> part_of(stem@, path@),
        reaches_file(path@) ==> {
            ||| optional_text(stem) == stem_with_drives(path@)
            ||| optional_text(stem) == stem_with_slashes(path@)
        },
{
    match std::path::Path::new(path).file_stem() {
        Some(stem) => stem.to_str().map(|stem| stem.to_string()),
        None => None,
    }
}

/// A part of a text, and not an empty one.
pub open spec fn part_of(part: Seq<char>, text: Seq<char>) -> bool {
    exists|from: int, to: int|
        0 <= from < to <= text.len() && part == #[trigger] text.subrange(from, to)
}

/// A slash or, where they count, a backslash.
pub open spec fn is_separator(ch: char, backslashes: bool) -> bool {
    ch == '/' || (backslashes && ch == '\\')
}

/// What stands behind the last separator, or everything.
pub open spec fn behind_last(path: Seq<char>, backslashes: bool) -> Seq<char>
    decreases path.len(),
{
    if path.len() == 0 || is_separator(path.last(), backslashes) {
        Seq::empty()
    } else {
        behind_last(path.drop_last(), backslashes).push(path.last())
    }
}

/// The last component of a path, or nothing. Separators at the end do not count,
/// nor does a component that stands for the directory it is in.
pub open spec fn last_component(path: Seq<char>, backslashes: bool) -> Seq<char>
    decreases path.len(),
{
    let name = behind_last(path, backslashes);
    if name.len() > 0 && name != "."@ {
        name
    } else if name.len() >= path.len() {
        Seq::empty()
    } else {
        last_component(path.take(path.len() - name.len() - 1), backslashes)
    }
}

/// The stem of a component: none for nothing, or for the directory above.
pub open spec fn component_stem(name: Seq<char>) -> Option<Seq<char>> {
    if name.len() == 0 || name == ".."@ {
        None
    } else {
        Some(without_extension(name))
    }
}

/// The path starts with a drive.
pub open spec fn starts_with_drive(path: Seq<char>) -> bool {
    path.len() >= 2 && ('A' <= path[0] <= 'Z' || 'a' <= path[0] <= 'z') && path[1] == ':'
}

/// The stem of a path where there are drives and backslashes separate
/// components.
pub open spec fn stem_with_drives(path: Seq<char>) -> Option<Seq<char>> {
    let behind = if starts_with_drive(path) {
        path.skip(2)
    } else {
        path
    };
    component_stem(last_component(behind, true))
}

/// The stem of a path where slashes alone separate components.
pub open spec fn stem_with_slashes(path: Seq<char>) -> Option<Seq<char>> {
    component_stem(last_component(path, false))
}

/// What stands before the first slash or backslash, or everything.
pub open spec fn first_part(path: Seq<char>) -> Seq<char>
    decreases path.len(),
{
    if path.len() == 0 || is_separator(path[0], true) {
        Seq::empty()
    } else {
        seq![path[0]] + first_part(path.skip(1))
    }
}

/// A part that is not empty, with something behind it and a separator.
pub open spec fn leads_on(path: Seq<char>) -> bool {
    0 < first_part(path).len() && first_part(path).len() + 1 < path.len()
}

/// Two parts that are not empty, with something behind them.
pub open spec fn leads_on_twice(path: Seq<char>) -> bool {
    leads_on(path) && leads_on(path.skip(first_part(path).len() as int + 1))
}

/// The path starts with two separators.
pub open spec fn starts_with_separators(path: Seq<char>) -> bool {
    path.len() >= 2 && is_separator(path[0], true) && is_separator(path[1], true)
}

/// The path leads on from a share of a server, or from a device.
pub open spec fn on_share(path: Seq<char>) -> bool {
    starts_with_separators(path) && leads_on_twice(path.skip(2)) && first_part(path.skip(2))
        != "?"@
}

/// The path is one to be taken literally, and leads on from a share of a server
/// or from a volume.
pub open spec fn literal(path: Seq<char>) -> bool {
    &&& path.len() > 4
    &&& path.take(4) == "\\\\?\\"@
    &&& !path.contains('/')
    &&& if path.len() > 8 && path.subrange(4, 8) == "UNC\\"@ {
        leads_on_twice(path.skip(8))
    } else {
        leads_on(path.skip(4))
    }
}

/// The name of a file or a directory, not one of the two that stand for
/// directories relative to another.
pub open spec fn proper_name(name: Seq<char>) -> bool {
    name.len() > 0 && name != "."@ && name != ".."@
}

/// The path does not start with two separators, or names a file behind what may
/// be taken for its prefix then.
pub open spec fn reaches_file(path: Seq<char>) -> bool {
    starts_with_separators(path) ==> (on_share(path) || literal(path)) && proper_name(
        behind_last(path, true),
    )
}

/// The path has no backslashes, and starts with no drive or goes from the root of
/// one to a named file.
pub open spec fn slashes_suffice(path: Seq<char>) -> bool {
    &&& !path.contains('\\')
    &&& starts_with_drive(path) ==> path.len() > 2 && path[2] == '/' && proper_name(
        behind_last(path, false),
    )
}

/// Without backslashes in a path it does not matter whether they count.
proof fn lemma_no_backslash(path: Seq<char>)
    requires
        !path.contains('\\'),
    ensures
        behind_last(path, true) == behind_last(path, false),
        last_component(path, true) == last_component(path, false),
    decreases path.len(),
{
    if path.len() > 0 {
        assert forall|len: int| 0 <= len < path.len() implies !(#[trigger] path.take(len)).contains(
            '\\',
        ) by {
            if path.take(len).contains('\\') {
                let i = choose|i: int| 0 <= i < len && path.take(len)[i] == '\\';
                assert(path[i] == '\\');
            }
        }
        assert(path.contains(path.last()));
        assert(path.drop_last() == path.take(path.len() - 1));
        lemma_no_backslash(path.drop_last());
        let name = behind_last(path, true);
        if name.len() < path.len() {
            lemma_no_backslash(path.take(path.len() - name.len() - 1));
        }
    }
}

/// What stands before a separator does not matter to what stands behind the last
/// one.
proof fn lemma_behind_last_skip(path: Seq<char>, skipped: int, at: int, backslashes: bool)
    requires
        0 <= skipped <= at < path.len(),
        is_separator(path[at], backslashes),
    ensures
        behind_last(path.skip(skipped), backslashes) == behind_last(path, backslashes),
    decreases path.len(),
{
    assert(path.skip(skipped).last() == path.last());
    if at < path.len() - 1 {
        assert(path.skip(skipped).drop_last() == path.drop_last().skip(skipped));
        lemma_behind_last_skip(path.drop_last(), skipped, at, backslashes);
    }
}

/// Without backslashes there is no doubt about the stem of a path, if it starts
/// with no drive, or names a file from the root of one.
pub proof fn slashes_leave_no_doubt(path: Seq<char>)
    requires
        slashes_suffice(path),
    ensures
        stem_with_drives(path) == stem_with_slashes(path),
{
    lemma_no_backslash(path);
    if starts_with_drive(path) {
        lemma_behind_last_skip(path, 2, 2, true);
    }
}

/// The place of the last dot, or a negative number.
pub open spec fn last_dot(name: Seq<char>) -> int
    decreases name.len(),
{
    if name.len() == 0 {
        -1
    } else if name.last() == '.' {
        name.len() - 1
    } else {
        last_dot(name.drop_last())
    }
}

/// A file name up to its last dot, unless that is its first character.
pub open spec fn without_extension(name: Seq<char>) -> Seq<char> {
    if last_dot(name) <= 0 {
        name
    } else {
        name.take(last_dot(name))
    }
}

/// The name of a process by the stem of its image path: a process without one
/// has no name.
pub fn process_name_from_stem(stem: Option<String>) -> (name: String)
    ensures
        name@ == text_or_empty(optional_text(stem)),
{
    match stem {
        Some(stem) => stem,
        None => String::new(),
    }
}

/// The text, or an empty one.
pub open spec fn text_or_empty(text: Option<Seq<char>>) -> Seq<char> {
    match text {
        Some(text) => text,
        None => Seq::empty(),
    }
}

/// The name of a process by the path of its image, if that could be told: the
/// stem of the path. Whether backslashes separate the components of the path is
/// up to the platform, by way of `Path::file_stem`.
pub fn get_process_name(image: Option<Vec<u16>>) -> (name: String)
    ensures
        image is None || image->0@.len() == 0 ==> name@.len() == 0,
        name@.len() > 0 ==> image is Some && part_of(name@, decoded(image->0@)),
        image is Some && reaches_file(decoded(image->0@)) ==> {
            ||| name@ == text_or_empty(stem_with_drives(decoded(image->0@)))
            ||| name@ == text_or_empty(stem_with_slashes(decoded(image->0@)))
        },
        image is Some && reaches_file(decoded(image->0@)) && slashes_suffice(decoded(image->0@))
            ==> name@ == text_or_empty(stem_with_slashes(decoded(image->0@))),
{
    match image {
        None => String::new(),
        Some(units) => {
            if units.len() == 0 {
                assert(decoded(units@).len() == 0);
                return String::new();
            }
            let path = decode(units.as_slice());
            proof {
                if slashes_suffice(path@) {
                    slashes_leave_no_doubt(path@);
                }
            }
            process_name_from_stem(file_stem(path.as_str()))
        },
    }
}

/// All there is to know about a window.
pub struct WindowFacts {
    pub flags: WindowFlags,
    pub title_length: int,
    pub style: isize,
    pub cloak: Option<u32>,
    pub frame: Option<SimpleRect>,
    pub title: Seq<char>,
    pub class_name: Seq<char>,
    pub process_id: u32,
    pub process_name: Seq<char>,
}

impl WindowFacts {
    /// The answer that the facts give to a question.
    pub open spec fn answer(self, inspection: InspectionView) -> AnswerView {
        match inspection {
            InspectionView::TitleLength => AnswerView::TitleLength(self.title_length),
            InspectionView::Style { .. } => AnswerView::Style(self.style),
            InspectionView::Cloak { .. } => AnswerView::Cloak(self.cloak),
            InspectionView::Frame { .. } => AnswerView::Frame(self.frame),
            InspectionView::Title { .. } => AnswerView::Title(self.title),
            InspectionView::ClassName { .. } => AnswerView::ClassName(self.class_name),
            InspectionView::ProcessId { .. } => AnswerView::ProcessId(self.process_id),
            InspectionView::ProcessName { .. } => AnswerView::ProcessName(self.process_name),
        }
    }

    /// The title, or the placeholder for it.
    pub open spec fn caption(self) -> Seq<char> {
        shown_title(
            if self.title_length > 0 {
                self.title
            } else {
                Seq::empty()
            },
        )
    }

    /// The name of the process, which no process at all has not.
    pub open spec fn owner(self) -> Seq<char> {
        if self.process_id == 0 {
            Seq::empty()
        } else {
            self.process_name
        }
    }

    /// The window counts.
    pub open spec fn counts(self, settings: SettingsView) -> bool {
        &&& on_screen(self.flags)
        &&& style_counts(settings, self.style)
        &&& uncloaked(self.cloak)
        &&& self.frame matches Some(bounds)
        &&& !bounds.empty()
        &&& class_counts(settings, self.class_name)
        &&& process_counts(settings, self.owner())
    }
}

/// Where an inspection ends that is given the answers by the facts, after at
/// most `questions` more of them.
pub open spec fn concluded(
    settings: SettingsView,
    facts: WindowFacts,
    step: InspectionStepView,
    questions: nat,
) -> InspectionStepView
    decreases questions,
{
    match step {
        InspectionStepView::Ask(inspection) if questions > 0 => concluded(
            settings,
            facts,
            inspected(settings, inspection, facts.answer(inspection)),
            (questions - 1) as nat,
        ),
        _ => step,
    }
}

/// An inspection that is answered by the facts ends within eight questions. It
/// accepts exactly the windows that count, with the process, the title and the
/// bounds that the facts give.
pub proof fn inspection_finds_what_counts(settings: SettingsView, facts: WindowFacts)
    requires
        on_screen(facts.flags),
    ensures
        concluded(settings, facts, InspectionStepView::Ask(InspectionView::TitleLength), 8) == (
        if facts.counts(settings) {
            InspectionStepView::Accepted(
                WindowView {
                    process_name: facts.owner(),
                    title: facts.caption(),
                    bounds: facts.frame->0,
                },
            )
        } else {
            InspectionStepView::Rejected
        }),
{
    reveal_with_fuel(concluded, 10);
}

} // verus!
