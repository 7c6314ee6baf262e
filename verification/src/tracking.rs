//! Which of the windows that count keeps a display lit.

use vstd::prelude::*;

use crate::display::optional_text;
use crate::display::DisplayState;
use crate::geometry::SimpleRect;
use crate::settings::AppSettings;
use crate::settings::SettingsView;

verus! {

/// A window that counts.
#[derive(Debug)]
pub struct TrackedWindow {
    pub process_name: String,
    pub title: String,
    pub bounds: SimpleRect,
}

/// The contents of a `TrackedWindow`.
#[verifier::ext_equal]
pub struct WindowView {
    pub process_name: Seq<char>,
    pub title: Seq<char>,
    pub bounds: SimpleRect,
}

impl View for TrackedWindow {
    type V = WindowView;

    open spec fn view(&self) -> WindowView {
        WindowView {
            process_name: self.process_name@,
            title: self.title@,
            bounds: self.bounds,
        }
    }
}

/// The contents of a list of windows.
pub open spec fn window_views(windows: Seq<TrackedWindow>) -> Seq<WindowView> {
    windows.map_values(|window: TrackedWindow| window@)
}

impl WindowView {
    /// How a window is told in diagnostics.
    pub open spec fn caption(self) -> Seq<char> {
        self.process_name + ": "@ + self.title
    }

    /// Enough of the window shows within the bounds.
    pub open spec fn blocks(self, settings: SettingsView, bounds: SimpleRect) -> bool {
        let shown = bounds.overlap(self.bounds);
        &&& !shown.empty()
        &&& shown.span_x() * shown.span_y() >= settings.minimum_overlap_pixels
        &&& shown.span_x() >= settings.minimum_overlap_width
        &&& shown.span_y() >= settings.minimum_overlap_height
    }
}

/// The first window of which enough shows within the bounds.
pub open spec fn first_blocking(
    settings: SettingsView,
    bounds: SimpleRect,
    windows: Seq<WindowView>,
) -> Option<WindowView>
    decreases windows.len(),
{
    if windows.len() == 0 {
        None
    } else {
        match first_blocking(settings, bounds, windows.drop_last()) {
            Some(window) => Some(window),
            None => if windows.last().blocks(settings, bounds) {
                Some(windows.last())
            } else {
                None
            },
        }
    }
}

/// The caption of the first window of which enough shows within the bounds.
pub open spec fn blocking_caption(
    settings: SettingsView,
    bounds: SimpleRect,
    windows: Seq<WindowView>,
) -> Option<Seq<char>> {
    match first_blocking(settings, bounds, windows) {
        Some(window) => Some(window.caption()),
        None => None,
    }
}

/// Tests whether enough of a window shows within the bounds.
fn is_blocking(settings: &AppSettings, bounds: SimpleRect, window: &TrackedWindow) -> (result: bool)
    ensures
        result == window@.blocks(settings@, bounds),
{
    let shown = bounds.intersect(window.bounds);
    if shown.is_empty() {
        return false;
    }
    let width: i64 = shown.wide_width();
    let height: i64 = shown.wide_height();
    assert(0 <= width * height <= 0x1_0000_0000 * 0x1_0000_0000) by (nonlinear_arith)
        requires
            0 <= width <= 0x1_0000_0000,
            0 <= height <= 0x1_0000_0000,
    ;
    let area: i128 = width as i128 * height as i128;
    area >= settings.minimum_overlap_pixels as i128 && width
        >= settings.minimum_overlap_width as i64 && height >= settings.minimum_overlap_height as i64
}

/// Finds the first window that keeps a display lit, and tells its caption.
pub fn try_find_blocking_window(
    settings: &AppSettings,
    display: &DisplayState,
    windows: &[TrackedWindow],
) -> (found: (bool, Option<String>))
    ensures
        found.0 == first_blocking(settings@, display.bounds, window_views(windows@)) is Some,
        optional_text(found.1) == blocking_caption(
            settings@,
            display.bounds,
            window_views(windows@),
        ),
{
    let ghost views = window_views(windows@);
    let mut at: usize = 0;
    assert(views.take(0).len() == 0);
    while at < windows.len()
        invariant
            at <= windows@.len(),
            views == window_views(windows@),
            first_blocking(settings@, display.bounds, views.take(at as int)) is None,
        decreases windows@.len() - at,
    {
        let window = &windows[at];
        proof {
            assert(views.take(at + 1).drop_last() == views.take(at as int));
            assert(views.take(at + 1).last() == window@);
        }
        if is_blocking(settings, display.bounds, window) {
            let mut caption = window.process_name.clone();
            caption.append(": ");
            caption.append(window.title.as_str());
            proof {
                lemma_first_stays_first(settings@, display.bounds, views, at + 1);
            }
            return (true, Some(caption));
        }
        at = at + 1;
    }
    assert(views.take(windows@.len() as int) == views);
    (false, None)
}

/// Windows behind the first one that blocks do not matter.
proof fn lemma_first_stays_first(
    settings: SettingsView,
    bounds: SimpleRect,
    windows: Seq<WindowView>,
    len: int,
)
    requires
        0 <= len <= windows.len(),
        first_blocking(settings, bounds, windows.take(len)) is Some,
    ensures
        first_blocking(settings, bounds, windows) == first_blocking(
            settings,
            bounds,
            windows.take(len),
        ),
    decreases windows.len(),
{
    if len == windows.len() {
        assert(windows.take(len) == windows);
    } else {
        assert(windows.drop_last().take(len) == windows.take(len));
        lemma_first_stays_first(settings, bounds, windows.drop_last(), len);
    }
}

/// A display is kept lit exactly when enough of some window shows on it, and
/// the window told of is one of those, with none before it.
pub proof fn first_blocking_is_first(
    settings: SettingsView,
    bounds: SimpleRect,
    windows: Seq<WindowView>,
)
    ensures
        first_blocking(settings, bounds, windows) is Some <==> exists|i: int|
            0 <= i < windows.len() && (#[trigger] windows[i]).blocks(settings, bounds),
        first_blocking(settings, bounds, windows) matches Some(window) ==> exists|i: int|
            0 <= i < windows.len() && #[trigger] windows[i] == window && window.blocks(
                settings,
                bounds,
            ) && forall|j: int| 0 <= j < i ==> !(#[trigger] windows[j]).blocks(settings, bounds),
    decreases windows.len(),
{
    if windows.len() > 0 {
        let front = windows.drop_last();
        first_blocking_is_first(settings, bounds, front);
        assert forall|i: int| 0 <= i < front.len() implies #[trigger] windows[i] == front[i] by {}
        match first_blocking(settings, bounds, front) {
            Some(window) => {
                let i = choose|i: int|
                    0 <= i < front.len() && #[trigger] front[i] == window && window.blocks(
                        settings,
                        bounds,
                    ) && forall|j: int|
                        0 <= j < i ==> !(#[trigger] front[j]).blocks(settings, bounds);
                assert(windows[i] == window);
                assert forall|j: int| 0 <= j < i implies !(#[trigger] windows[j]).blocks(
                    settings,
                    bounds,
                ) by {
                    assert(windows[j] == front[j]);
                }
            },
            None => {
                assert forall|j: int| 0 <= j < front.len() implies !(#[trigger] windows[j]).blocks(
                    settings,
                    bounds,
                ) by {
                    assert(windows[j] == front[j]);
                }
                if windows.last().blocks(settings, bounds) {
                    assert(windows[windows.len() - 1] == windows.last());
                }
            },
        }
    }
}

} // verus!
