//! Dimming states, the operations that lead from one to the next, and the
//! scale on which a monitor's brightness is set.

use vstd::prelude::*;

verus! {

/// How a display has come to be as bright as it is.
#[derive(Debug, Clone, Copy, PartialEq, Eq, Structural)]
pub enum DisplayDimmingState {
    Lit,
    AutoDimmed,
    UserDimmed,
    UserRestoredWhileEmpty,
}

/// An operation that was asked for and has not succeeded yet.
#[derive(Debug, Clone, Copy, PartialEq, Eq, Structural)]
pub enum PendingBrightnessOperation {
    Dim { brightness: u32, next_state: DisplayDimmingState },
    Restore { next_state: DisplayDimmingState },
    SetLevel { brightness: u32, next_state: DisplayDimmingState },
}

impl DisplayDimmingState {
    /// The name of the state.
    pub open spec fn name(self) -> Seq<char> {
        match self {
            DisplayDimmingState::Lit => "Lit"@,
            DisplayDimmingState::AutoDimmed => "AutoDimmed"@,
            DisplayDimmingState::UserDimmed => "UserDimmed"@,
            DisplayDimmingState::UserRestoredWhileEmpty => "UserRestoredWhileEmpty"@,
        }
    }

    /// The name of the state, for diagnostics.
    pub fn label(self) -> (label: &'static str)
        ensures
            label@ == self.name(),
    {
        match self {
            DisplayDimmingState::Lit => "Lit",
            DisplayDimmingState::AutoDimmed => "AutoDimmed",
            DisplayDimmingState::UserDimmed => "UserDimmed",
            DisplayDimmingState::UserRestoredWhileEmpty => "UserRestoredWhileEmpty",
        }
    }
}

impl PendingBrightnessOperation {
    /// The state that a display is in once the operation has succeeded.
    pub open spec fn leads_to(self) -> DisplayDimmingState {
        match self {
            PendingBrightnessOperation::Dim { next_state, .. } => next_state,
            PendingBrightnessOperation::Restore { next_state } => next_state,
            PendingBrightnessOperation::SetLevel { next_state, .. } => next_state,
        }
    }

    /// The state that a display is in once the operation has succeeded.
    pub fn next_state(self) -> (state: DisplayDimmingState)
        ensures
            state == self.leads_to(),
    {
        match self {
            PendingBrightnessOperation::Dim { next_state, .. } => next_state,
            PendingBrightnessOperation::Restore { next_state } => next_state,
            PendingBrightnessOperation::SetLevel { next_state, .. } => next_state,
        }
    }

    /// The operation suits a display on which windows do, or do not, show.
    pub open spec fn suits(self, has_window: bool) -> bool {
        match self {
            PendingBrightnessOperation::Dim { next_state, .. } => !(has_window && next_state
                == DisplayDimmingState::AutoDimmed),
            PendingBrightnessOperation::Restore { next_state } => if has_window {
                next_state != DisplayDimmingState::UserRestoredWhileEmpty
            } else {
                next_state != DisplayDimmingState::Lit
            },
            PendingBrightnessOperation::SetLevel { next_state, .. } => next_state == occupied_as(
                has_window,
            ),
        }
    }

    /// The operation that takes this one's place on a display on which windows
    /// do, or do not, show. One that suits the display stays as it is.
    pub open spec fn reconciled(
        self,
        has_window: bool,
        empty_brightness: u32,
    ) -> PendingBrightnessOperation {
        if self.suits(has_window) {
            self
        } else {
            match self {
                PendingBrightnessOperation::Dim { .. } => PendingBrightnessOperation::Restore {
                    next_state: DisplayDimmingState::Lit,
                },
                PendingBrightnessOperation::Restore { .. } => if has_window {
                    PendingBrightnessOperation::Restore { next_state: DisplayDimmingState::Lit }
                } else {
                    PendingBrightnessOperation::Dim {
                        brightness: empty_brightness,
                        next_state: DisplayDimmingState::AutoDimmed,
                    }
                },
                PendingBrightnessOperation::SetLevel { brightness, .. } =>
                PendingBrightnessOperation::SetLevel { brightness, next_state: occupied_as(has_window) },
            }
        }
    }
}

/// The state of a display that the user has brightened.
pub open spec fn occupied_as(has_window: bool) -> DisplayDimmingState {
    if has_window {
        DisplayDimmingState::Lit
    } else {
        DisplayDimmingState::UserRestoredWhileEmpty
    }
}

/// The state of a display that the user has brightened.
pub fn occupancy_state(has_window: bool) -> (state: DisplayDimmingState)
    ensures
        state == occupied_as(has_window),
{
    if has_window {
        DisplayDimmingState::Lit
    } else {
        DisplayDimmingState::UserRestoredWhileEmpty
    }
}

/// The raw level that stands for a percentage of a monitor's range, rounded to
/// the nearest level. Anything above one hundred counts as one hundred, and a
/// range that is empty or upside down has only its lower end.
pub open spec fn raw_level(minimum: int, maximum: int, percent: int) -> int {
    if maximum <= minimum {
        minimum
    } else {
        let share = if percent < 100 {
            percent
        } else {
            100
        };
        minimum + ((maximum - minimum) * share + 50) / 100
    }
}

/// Scales a percentage to a monitor's range.
pub fn percent_to_raw(minimum: u32, maximum: u32, percent: u32) -> (level: u32)
    ensures
        level == raw_level(minimum as int, maximum as int, percent as int),
{
    if maximum <= minimum {
        return minimum;
    }
    let range: u64 = (maximum - minimum) as u64;
    let share: u64 = if percent < 100 {
        percent as u64
    } else {
        100
    };
    assert(0 <= range * share <= range * 100) by (nonlinear_arith)
        requires
            0 <= share <= 100,
            0 <= range,
    ;
    let scaled: u64 = (range * share + 50) / 100;
    assert(scaled <= range);
    minimum + scaled as u32
}

/// Brings an operation that is still pending in line with what the display
/// shows now.
pub fn reconcile_pending_operation(
    operation: PendingBrightnessOperation,
    has_window: bool,
    empty_brightness: u32,
) -> (result: PendingBrightnessOperation)
    ensures
        result == operation.reconciled(has_window, empty_brightness),
{
    match operation {
        PendingBrightnessOperation::Dim { next_state: DisplayDimmingState::AutoDimmed, .. } if has_window => {
            PendingBrightnessOperation::Restore { next_state: DisplayDimmingState::Lit }
        },
        PendingBrightnessOperation::Restore { next_state: DisplayDimmingState::Lit } if !has_window => {
            PendingBrightnessOperation::Dim {
                brightness: empty_brightness,
                next_state: DisplayDimmingState::AutoDimmed,
            }
        },
        PendingBrightnessOperation::Restore {
            next_state: DisplayDimmingState::UserRestoredWhileEmpty,
        } if has_window => {
            PendingBrightnessOperation::Restore { next_state: DisplayDimmingState::Lit }
        },
        PendingBrightnessOperation::SetLevel { brightness, .. } => {
            PendingBrightnessOperation::SetLevel { brightness, next_state: occupancy_state(has_window) }
        },
        other => other,
    }
}

/// Reconciling leaves an operation that suits the display, and reconciling
/// twice does no more than reconciling once.
pub proof fn reconciling_settles(
    operation: PendingBrightnessOperation,
    has_window: bool,
    empty_brightness: u32,
)
    ensures
        operation.reconciled(has_window, empty_brightness).suits(has_window),
        operation.reconciled(has_window, empty_brightness).reconciled(has_window, empty_brightness)
            == operation.reconciled(has_window, empty_brightness),
{
}

/// What the user asked for is never turned into something else: a dimming by
/// hand stays as it is, and a level that was picked stays the one to be set.
pub proof fn reconciling_keeps_user_intent(
    operation: PendingBrightnessOperation,
    has_window: bool,
    empty_brightness: u32,
)
    ensures
        operation.leads_to() == DisplayDimmingState::UserDimmed && !(operation is SetLevel)
            ==> operation.reconciled(has_window, empty_brightness) == operation,
        operation matches PendingBrightnessOperation::SetLevel { brightness, .. }
            ==> operation.reconciled(has_window, empty_brightness)
            == (PendingBrightnessOperation::SetLevel { brightness, next_state: occupied_as(has_window) }),
{
}

/// A scaled level lies in the monitor's range; nothing gives its lower end,
/// everything its upper end, and a larger percentage never a lower level.
pub proof fn levels_span_the_range(minimum: int, maximum: int, low: int, high: int)
    requires
        minimum <= maximum,
        0 <= low <= high,
    ensures
        minimum <= raw_level(minimum, maximum, low) <= raw_level(minimum, maximum, high) <= maximum,
        raw_level(minimum, maximum, 0) == minimum,
        high >= 100 ==> raw_level(minimum, maximum, high) == maximum,
{
    let range = maximum - minimum;
    let low_share = if low < 100 {
        low
    } else {
        100
    };
    let high_share = if high < 100 {
        high
    } else {
        100
    };
    assert(0 <= range * low_share <= range * high_share <= range * 100) by (nonlinear_arith)
        requires
            0 <= low_share <= high_share <= 100,
            0 <= range,
    ;
    assert(range * 0 == 0);
}

/// Rounding is off by no more than half a level, and halves are rounded up.
pub proof fn levels_are_rounded_to_nearest(minimum: int, maximum: int, percent: int)
    requires
        minimum < maximum,
        0 <= percent <= 100,
    ensures
        -50 < 100 * (raw_level(minimum, maximum, percent) - minimum) - (maximum - minimum)
            * percent <= 50,
{
}

} // verus!
