//! What is remembered of displays, and what comes back of it.

use vstd::prelude::*;

use crate::display::DisplayView;
use crate::manager::ManagerView;
use crate::snapshot::captured_displays;
use crate::snapshot::displays_recall_each_by_itself;
use crate::snapshot::distinct_keys;
use crate::snapshot::distinct_names;
use crate::snapshot::lemma_captured_display;
use crate::snapshot::lemma_captured_targets;
use crate::snapshot::recalled_displays;
use crate::snapshot::DisplaySnapshotView;
use crate::snapshot::TargetSnapshot;
use crate::target::TargetView;

verus! {

/// The snapshot is of a display that one of the monitors has shown, or that none
/// has.
pub open spec fn usable(snapshot: DisplaySnapshotView, display: DisplayView) -> bool {
    (forall|key| !(#[trigger] snapshot.targets.contains_key(key))) || exists|i: int|
        0 <= i < display.targets.len() && snapshot.targets.contains_key(
            (#[trigger] display.targets[i]).key,
        )
}

/// What comes back of a monitor: the level to return to, and whether it is dimmed,
/// unless the display was dimmed with nothing pending. It is dimmed again then.
pub open spec fn brought_back(snapshot: DisplaySnapshotView, target: TargetView) -> TargetView {
    if snapshot.targets.contains_key(target.key) {
        TargetView {
            restore_brightness: snapshot.targets[target.key].restore_brightness,
            is_dimmed: if snapshot.pending_operation is None && (
            snapshot.dimming_state is AutoDimmed || snapshot.dimming_state is UserDimmed) {
                false
            } else {
                snapshot.targets[target.key].is_dimmed
            },
            ..target
        }
    } else {
        target
    }
}

/// A display gets back its state, what was pending on it and what is remembered of
/// its monitors, if something is remembered under its name and one of its monitors
/// is among those remembered. Else it stays as it is. What is used is forgotten, and
/// nothing else is.
pub proof fn what_is_remembered_comes_back(
    displays: Seq<DisplayView>,
    snapshots: Map<Seq<char>, DisplaySnapshotView>,
    at: int,
    name: Seq<char>,
)
    requires
        distinct_names(displays),
        0 <= at < displays.len(),
    ensures
        ({
            let (recalled, left) = recalled_displays(displays, snapshots, 0);
            let display = displays[at];
            let snapshot = snapshots[display.device_name];
            let used = snapshots.contains_key(display.device_name) && usable(snapshot, display);
            &&& recalled.len() == displays.len()
            &&& used ==> recalled[at] == (DisplayView {
                dimming_state: snapshot.dimming_state,
                pending_operation: snapshot.pending_operation,
                targets: Seq::new(
                    display.targets.len(),
                    |i: int| brought_back(snapshot, display.targets[i]),
                ),
                ..display
            })
            &&& used ==> !left.contains_key(display.device_name)
            &&& !used ==> recalled[at] == display
            &&& !used && snapshots.contains_key(display.device_name) ==> left.contains_key(
                display.device_name,
            ) && left[display.device_name] == snapshot
            &&& (forall|i: int|
                0 <= i < displays.len() ==> (#[trigger] displays[i]).device_name != name) ==> (
            left.contains_key(name) == snapshots.contains_key(name) && (snapshots.contains_key(name)
                ==> left[name] == snapshots[name]))
        }),
{
    displays_recall_each_by_itself(displays, snapshots, 0);
    let (recalled, left) = recalled_displays(displays, snapshots, 0);
    let display = displays[at];
    let snapshot = snapshots[display.device_name];
    lemma_usable(snapshot, display);
    let claimed = crate::snapshot::claimed_names(displays, snapshots, 0);
    if claimed.contains(display.device_name) {
        let i = choose|i: int|
            0 <= i < displays.len() && (#[trigger] displays[i]).device_name == display.device_name
                && displays[i].is_remembered(snapshots);
        if i < at {
            assert(displays[i].device_name != displays[at].device_name);
        } else if at < i {
            assert(displays[at].device_name != displays[i].device_name);
        }
    }
    if display.is_remembered(snapshots) {
        assert(claimed.contains(displays[at].device_name));
        assert(display.recalled(snapshot).targets =~= Seq::new(
            display.targets.len(),
            |i: int| brought_back(snapshot, display.targets[i]),
        ));
    }
    if forall|i: int| 0 <= i < displays.len() ==> (#[trigger] displays[i]).device_name != name {
        if claimed.contains(name) {
            let i = choose|i: int|
                0 <= i < displays.len() && (#[trigger] displays[i]).device_name == name
                    && displays[i].is_remembered(snapshots);
        }
    }
}

/// A snapshot is used where one of its monitors is found.
proof fn lemma_usable(snapshot: DisplaySnapshotView, display: DisplayView)
    ensures
        snapshot.concerns(display.targets) == usable(snapshot, display),
{
    if forall|key| !(#[trigger] snapshot.targets.contains_key(key)) {
        assert(snapshot.targets =~= Map::empty());
    }
    if usable(snapshot, display) && !(forall|key| !(#[trigger] snapshot.targets.contains_key(
        key,
    ))) {
        let i = choose|i: int|
            0 <= i < display.targets.len() && snapshot.targets.contains_key(
                (#[trigger] display.targets[i]).key,
            );
        assert(snapshot.targets.contains_key(display.targets[i].key));
    }
    if snapshot.knows_one_of(display.targets) {
        let i = choose|i: int|
            0 <= i < display.targets.len() && snapshot.targets.contains_key(
                #[trigger] display.targets[i].key,
            );
        assert(snapshot.targets.contains_key(display.targets[i].key));
    }
}

/// What is remembered of displays: under the name of each its state and what is
/// pending on it, and under the key of each of its monitors the level to return to
/// and whether it is dimmed. Nothing else is remembered.
pub proof fn displays_are_remembered(
    displays: Seq<DisplayView>,
    at: int,
    target: int,
    name: Seq<char>,
)
    requires
        distinct_names(displays),
        0 <= at < displays.len(),
        distinct_keys(displays[at].targets),
        0 <= target < displays[at].targets.len(),
    ensures
        ({
            let captured = captured_displays(displays);
            let display = displays[at];
            let snapshot = captured[display.device_name];
            let key = display.targets[target].key;
            &&& captured.contains_key(name) ==> exists|i: int|
                0 <= i < displays.len() && #[trigger] displays[i].device_name == name
            &&& captured.contains_key(display.device_name)
            &&& snapshot.dimming_state == display.dimming_state
            &&& snapshot.pending_operation == display.pending_operation
            &&& snapshot.targets.contains_key(key)
            &&& snapshot.targets[key] == (TargetSnapshot {
                restore_brightness: display.targets[target].restore_brightness,
                is_dimmed: display.targets[target].is_dimmed,
            })
        }),
{
    lemma_captured_display(displays);
    let targets = displays[at].targets;
    let key = targets[target].key;
    lemma_captured_targets(targets, key);
    assert(targets[target].key == key);
    let i = choose|i: int| 0 <= i < targets.len() && #[trigger] targets[i].key == key;
    if i < target {
        assert(targets[i].key != targets[target].key);
    } else if target < i {
        assert(targets[target].key != targets[i].key);
    }
}

/// A display without monitors is remembered as one.
pub proof fn displays_without_monitors_are_remembered(displays: Seq<DisplayView>, at: int)
    requires
        distinct_names(displays),
        0 <= at < displays.len(),
        displays[at].targets.len() == 0,
    ensures
        ({
            let captured = captured_displays(displays);
            let snapshot = captured[displays[at].device_name];
            &&& captured.contains_key(displays[at].device_name)
            &&& snapshot.dimming_state == displays[at].dimming_state
            &&& snapshot.pending_operation == displays[at].pending_operation
            &&& forall|key| !(#[trigger] snapshot.targets.contains_key(key))
        }),
{
    lemma_captured_display(displays);
    assert(displays[at].captured().targets =~= Map::empty());
}

/// Letting go of the displays remembers each of them, in place of what was
/// remembered under its name, and keeps what was remembered under other names.
pub proof fn letting_go_remembers_the_displays(manager: ManagerView, name: Seq<char>)
    ensures
        ({
            let before = manager.detached_snapshots;
            let captured = captured_displays(manager.displays);
            let after = manager.detached();
            &&& after == (ManagerView {
                displays: Seq::empty(),
                detached_snapshots: after.detached_snapshots,
                ..manager
            })
            &&& captured.contains_key(name) ==> after.detached_snapshots.contains_key(name)
                && after.detached_snapshots[name] == captured[name]
            &&& !captured.contains_key(name) && before.contains_key(name)
                ==> after.detached_snapshots.contains_key(name) && after.detached_snapshots[name]
                == before[name]
            &&& !captured.contains_key(name) && !before.contains_key(name)
                ==> !after.detached_snapshots.contains_key(name)
        }),
{
}

/// Displays that are taken on get back what is remembered of them, and what they
/// use is forgotten; nothing else about the manager changes. Displays that are let
/// go of for good change nothing else.
pub proof fn displays_taken_on_get_back_what_is_remembered(
    manager: ManagerView,
    found: Seq<DisplayView>,
)
    ensures
        ({
            let (recalled, left) = recalled_displays(found, manager.detached_snapshots, 0);
            manager.attached(found) == (ManagerView {
                displays: recalled,
                detached_snapshots: left,
                ..manager
            })
        }),
        manager.without_displays() == (ManagerView { displays: Seq::empty(), ..manager }),
{
}

} // verus!
