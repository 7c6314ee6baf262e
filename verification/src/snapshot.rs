//! What is remembered of displays while they are enumerated anew.

use vstd::prelude::*;

use crate::brightness::DisplayDimmingState;
use crate::brightness::PendingBrightnessOperation;
use crate::display::DisplayState;
use crate::display::DisplayView;
use crate::ledger::Ledger;
use crate::ledger::LedgerKey;
use crate::target::PhysicalMonitorTarget;
use crate::target::TargetKey;
use crate::target::target_views;
use crate::target::TargetKeyView;
use crate::target::TargetView;

verus! {

/// What is remembered of a target.
#[derive(Debug, Clone, Copy, PartialEq, Eq, Structural)]
pub struct TargetSnapshot {
    pub restore_brightness: Option<u32>,
    pub is_dimmed: bool,
}

impl View for TargetSnapshot {
    type V = TargetSnapshot;

    open spec fn view(&self) -> TargetSnapshot {
        *self
    }
}

impl LedgerKey for TargetKey {
    fn same_as(&self, other: &Self) -> (result: bool) {
        self.display_device_name == other.display_device_name && self.description
            == other.description && self.physical_index == other.physical_index
    }
}

impl Clone for TargetKey {
    fn clone(&self) -> (key: Self)
        ensures
            key == *self,
    {
        TargetKey {
            display_device_name: self.display_device_name.clone(),
            description: self.description.clone(),
            physical_index: self.physical_index,
        }
    }
}

/// What is remembered of a display.
#[derive(Debug)]
pub struct DisplaySnapshot {
    pub dimming_state: DisplayDimmingState,
    pub pending_operation: Option<PendingBrightnessOperation>,
    pub targets: Ledger<TargetKey, TargetSnapshot>,
}

/// The contents of a `DisplaySnapshot`.
#[verifier::ext_equal]
pub struct DisplaySnapshotView {
    pub dimming_state: DisplayDimmingState,
    pub pending_operation: Option<PendingBrightnessOperation>,
    pub targets: Map<TargetKeyView, TargetSnapshot>,
}

impl View for DisplaySnapshot {
    type V = DisplaySnapshotView;

    open spec fn view(&self) -> DisplaySnapshotView {
        DisplaySnapshotView {
            dimming_state: self.dimming_state,
            pending_operation: self.pending_operation,
            targets: self.targets@,
        }
    }
}

/// The contents of a list of displays.
pub open spec fn display_views(displays: Seq<DisplayState>) -> Seq<DisplayView> {
    displays.map_values(|display: DisplayState| display@)
}

/// What is remembered of one target.
pub open spec fn target_snapshot(target: TargetView) -> TargetSnapshot {
    TargetSnapshot {
        restore_brightness: target.restore_brightness,
        is_dimmed: target.is_dimmed,
    }
}

/// What is remembered of the targets of a display, each under its key. Of
/// several targets under one key the last one counts.
pub open spec fn captured_targets(targets: Seq<TargetView>) -> Map<
    TargetKeyView,
    TargetSnapshot,
>
    decreases targets.len(),
{
    if targets.len() == 0 {
        Map::empty()
    } else {
        captured_targets(targets.drop_last()).insert(
            targets.last().key,
            target_snapshot(targets.last()),
        )
    }
}

impl DisplayView {
    /// What is remembered of a display.
    pub open spec fn captured(self) -> DisplaySnapshotView {
        DisplaySnapshotView {
            dimming_state: self.dimming_state,
            pending_operation: self.pending_operation,
            targets: captured_targets(self.targets),
        }
    }

    /// The display with what is remembered of it, where that is of the same
    /// monitors.
    pub open spec fn recalled(self, snapshot: DisplaySnapshotView) -> DisplayView {
        if snapshot.concerns(self.targets) {
            DisplayView {
                targets: snapshot.recalled_targets(self.targets),
                dimming_state: snapshot.dimming_state,
                pending_operation: snapshot.pending_operation,
                ..self
            }
        } else {
            self
        }
    }
}

impl DisplaySnapshotView {
    /// The display was dimmed with nothing pending: its monitors, which have
    /// been opened anew, are to be dimmed once more.
    pub open spec fn dims_again(self) -> bool {
        self.pending_operation is None && (self.dimming_state is AutoDimmed
            || self.dimming_state is UserDimmed)
    }

    /// A target with what is remembered of it, if anything is.
    pub open spec fn recalled_target(self, target: TargetView) -> TargetView {
        if self.targets.contains_key(target.key) {
            TargetView {
                restore_brightness: self.targets[target.key].restore_brightness,
                is_dimmed: self.targets[target.key].is_dimmed && !self.dims_again(),
                ..target
            }
        } else {
            target
        }
    }

    /// The targets with what is remembered of them.
    pub open spec fn recalled_targets(self, targets: Seq<TargetView>) -> Seq<TargetView> {
        targets.map_values(|target: TargetView| self.recalled_target(target))
    }

    /// Something is remembered of one of the targets.
    pub open spec fn knows_one_of(self, targets: Seq<TargetView>) -> bool {
        exists|i: int| 0 <= i < targets.len() && self.targets.contains_key(#[trigger] targets[i].key)
    }

    /// What is remembered is of a display with these targets, or of one that
    /// had none.
    pub open spec fn concerns(self, targets: Seq<TargetView>) -> bool {
        self.knows_one_of(targets) || self.targets == Map::<TargetKeyView, TargetSnapshot>::empty()
    }
}

/// What is remembered of displays, each under its device name. Of several
/// displays under one name the last one counts.
pub open spec fn captured_displays(displays: Seq<DisplayView>) -> Map<
    Seq<char>,
    DisplaySnapshotView,
>
    decreases displays.len(),
{
    if displays.len() == 0 {
        Map::empty()
    } else {
        captured_displays(displays.drop_last()).insert(
            displays.last().device_name,
            displays.last().captured(),
        )
    }
}

/// Gives the displays from the place `from` on, one after the other, what is
/// remembered of them. What a display can use is no longer kept.
pub open spec fn recalled_displays(
    displays: Seq<DisplayView>,
    snapshots: Map<Seq<char>, DisplaySnapshotView>,
    from: int,
) -> (Seq<DisplayView>, Map<Seq<char>, DisplaySnapshotView>)
    decreases displays.len() - from,
{
    if from < 0 || from >= displays.len() {
        (displays, snapshots)
    } else {
        let display = displays[from];
        let name = display.device_name;
        if snapshots.contains_key(name) && snapshots[name].concerns(display.targets) {
            recalled_displays(
                displays.update(from, display.recalled(snapshots[name])),
                snapshots.remove(name),
                from + 1,
            )
        } else {
            recalled_displays(displays, snapshots, from + 1)
        }
    }
}

/// Notes what is to be remembered of the targets of a display.
fn capture_targets(targets: &Vec<PhysicalMonitorTarget>) -> (snapshots: Ledger<
    TargetKey,
    TargetSnapshot,
>)
    ensures
        snapshots@ == captured_targets(target_views(targets@)),
{
    let mut snapshots: Ledger<TargetKey, TargetSnapshot> = Ledger::new();
    let mut at: usize = 0;
    while at < targets.len()
        invariant
            at <= targets@.len(),
            snapshots@ == captured_targets(target_views(targets@).take(at as int)),
        decreases targets@.len() - at,
    {
        let target = &targets[at];
        snapshots.insert(
            target.key.clone(),
            TargetSnapshot {
                restore_brightness: target.restore_brightness,
                is_dimmed: target.is_dimmed,
            },
        );
        assert(target_views(targets@).take(at + 1).drop_last() == target_views(targets@).take(at as int));
        assert(target_views(targets@).take(at + 1).last() == target@);
        at = at + 1;
    }
    assert(target_views(targets@).take(targets@.len() as int) == target_views(targets@));
    snapshots
}

/// Notes what is to be remembered of displays.
pub fn capture_display_snapshots(displays: &[DisplayState]) -> (snapshots: Ledger<
    String,
    DisplaySnapshot,
>)
    ensures
        snapshots@ == captured_displays(display_views(displays@)),
{
    let mut snapshots: Ledger<String, DisplaySnapshot> = Ledger::new();
    let mut at: usize = 0;
    let ghost views = display_views(displays@);
    while at < displays.len()
        invariant
            at <= displays@.len(),
            views == display_views(displays@),
            snapshots@ == captured_displays(views.take(at as int)),
        decreases displays@.len() - at,
    {
        let display = &displays[at];
        snapshots.insert(
            display.device_name.clone(),
            DisplaySnapshot {
                dimming_state: display.dimming_state,
                pending_operation: display.pending_operation,
                targets: capture_targets(&display.targets),
            },
        );
        assert(views.take(at + 1).drop_last() == views.take(at as int));
        assert(views.take(at + 1).last() == display@);
        at = at + 1;
    }
    assert(views.take(displays@.len() as int) == views);
    snapshots
}

/// Gives targets what is remembered of them, and tells whether anything was
/// remembered of any.
fn recall_targets(targets: &mut Vec<PhysicalMonitorTarget>, snapshot: &DisplaySnapshot) -> (known:
    bool)
    ensures
        target_views(final(targets)@) == snapshot@.recalled_targets(target_views(old(targets)@)),
        known == snapshot@.knows_one_of(target_views(old(targets)@)),
{
    let dims_again = snapshot.pending_operation.is_none() && match snapshot.dimming_state {
        DisplayDimmingState::AutoDimmed => true,
        DisplayDimmingState::UserDimmed => true,
        _ => false,
    };
    let mut known: bool = false;
    let mut at: usize = 0;
    while at < targets.len()
        invariant
            at <= targets@.len(),
            targets@.len() == old(targets)@.len(),
            dims_again == snapshot@.dims_again(),
            forall|i: int|
                0 <= i < at ==> (#[trigger] targets@[i])@ == snapshot@.recalled_target(
                    old(targets)@[i]@,
                ),
            forall|i: int| at <= i < targets@.len() ==> #[trigger] targets@[i] == old(targets)@[i],
            known <==> exists|i: int|
                0 <= i < at && snapshot@.targets.contains_key(#[trigger] old(targets)@[i].key@),
        decreases targets@.len() - at,
    {
        let found: Option<TargetSnapshot> = match snapshot.targets.get(&targets[at].key) {
            Some(found) => Some(*found),
            None => None,
        };
        if let Some(found) = found {
            known = true;
            let target = &mut targets[at];
            target.restore_brightness = found.restore_brightness;
            target.is_dimmed = if dims_again {
                false
            } else {
                found.is_dimmed
            };
            assert(snapshot@.targets.contains_key(old(targets)@[at as int].key@));
        }
        at = at + 1;
    }
    assert(target_views(targets@) == snapshot@.recalled_targets(target_views(old(targets)@)));
    assert forall|i: int| 0 <= i < targets@.len() implies #[trigger] old(targets)@[i].key@
        == target_views(old(targets)@)[i].key by {}
    known
}

/// Gives displays what is remembered of them. What a display can use is taken
/// out of the ledger; the rest stays there.
pub fn restore_display_snapshots(
    displays: &mut [DisplayState],
    snapshots: &mut Ledger<String, DisplaySnapshot>,
)
    ensures
        (display_views(final(displays)@), final(snapshots)@) == recalled_displays(
            display_views(old(displays)@),
            old(snapshots)@,
            0,
        ),
{
    let mut at: usize = 0;
    while at < displays.len()
        invariant
            at <= displays@.len(),
            recalled_displays(display_views(old(displays)@), old(snapshots)@, 0)
                == recalled_displays(display_views(displays@), snapshots@, at as int),
        decreases displays@.len() - at,
    {
        let ghost views = display_views(displays@);
        let ghost kept = snapshots@;
        let name = displays[at].device_name.clone();
        if let Some(snapshot) = snapshots.remove(&name) {
            let display = &mut displays[at];
            let known = recall_targets(&mut display.targets, &snapshot);
            if known || snapshot.targets.is_empty() {
                display.dimming_state = snapshot.dimming_state;
                display.pending_operation = snapshot.pending_operation;
                assert(display@ == views[at as int].recalled(snapshot@));
            } else {
                snapshots.insert(name, snapshot);
                assert(snapshots@ == kept);
                assert(display@.targets == views[at as int].targets);
            }
        } else {
            assert(snapshots@ == kept);
        }
        proof {
            let display = views[at as int];
            assert(display.device_name == name@);
            if kept.contains_key(name@) && kept[name@].concerns(display.targets) {
                assert(display_views(displays@) == views.update(
                    at as int,
                    display.recalled(kept[name@]),
                ));
            } else {
                assert(display_views(displays@) == views);
            }
        }
        at = at + 1;
    }
}

/// No two displays have the same name.
pub open spec fn distinct_names(displays: Seq<DisplayView>) -> bool {
    forall|i: int, j: int|
        0 <= i < j < displays.len() ==> #[trigger] displays[i].device_name
            != #[trigger] displays[j].device_name
}

/// No two targets have the same key.
pub open spec fn distinct_keys(targets: Seq<TargetView>) -> bool {
    forall|i: int, j: int|
        0 <= i < j < targets.len() ==> #[trigger] targets[i].key != #[trigger] targets[j].key
}

/// The target with the key, if there is one.
pub open spec fn target_with(targets: Seq<TargetView>, key: TargetKeyView) -> Option<TargetView> {
    if exists|i: int| 0 <= i < targets.len() && #[trigger] targets[i].key == key {
        Some(targets[choose|i: int| 0 <= i < targets.len() && #[trigger] targets[i].key == key])
    } else {
        None
    }
}

impl DisplayView {
    /// The display under the same name, shown by at least one of the same
    /// monitors unless it was shown by none, found anew.
    pub open spec fn found_again_as(self, found: DisplayView) -> bool {
        &&& self.device_name == found.device_name
        &&& distinct_keys(self.targets)
        &&& self.targets.len() == 0 || exists|i: int|
            0 <= i < found.targets.len() && target_with(
                self.targets,
                (#[trigger] found.targets[i]).key,
            ) is Some
    }

    /// The display found anew that takes over from an earlier one: the state,
    /// what is pending, and for each monitor that showed the earlier one, found
    /// by its key, the level to return to. Monitors that were dimmed with nothing
    /// pending count as not dimmed, so that they will be dimmed again. Other
    /// monitors stay as they were found.
    pub open spec fn taking_over(self, earlier: DisplayView) -> DisplayView {
        DisplayView {
            dimming_state: earlier.dimming_state,
            pending_operation: earlier.pending_operation,
            targets: self.targets.map_values(
                |target: TargetView|
                    match target_with(earlier.targets, target.key) {
                        Some(before) => TargetView {
                            restore_brightness: before.restore_brightness,
                            is_dimmed: before.is_dimmed && (earlier.pending_operation is Some || !(
                            earlier.dimming_state is AutoDimmed
                                || earlier.dimming_state is UserDimmed)),
                            ..target
                        },
                        None => target,
                    },
            ),
            ..self
        }
    }
}

/// What is remembered of a target is found under its key, and nothing else is
/// remembered.
pub(crate) proof fn lemma_captured_targets(targets: Seq<TargetView>, key: TargetKeyView)
    requires
        distinct_keys(targets),
    ensures
        match target_with(targets, key) {
            Some(target) => captured_targets(targets).contains_key(key) && captured_targets(
                targets,
            )[key] == target_snapshot(target),
            None => !captured_targets(targets).contains_key(key),
        },
    decreases targets.len(),
{
    if targets.len() > 0 {
        let front = targets.drop_last();
        assert(distinct_keys(front)) by {
            assert forall|i: int, j: int| 0 <= i < j < front.len() implies #[trigger] front[i].key
                != #[trigger] front[j].key by {
                assert(targets[i].key != targets[j].key);
            }
        }
        lemma_captured_targets(front, key);
        let last = targets.len() - 1;
        if targets[last].key == key {
            let i = choose|i: int| 0 <= i < targets.len() && #[trigger] targets[i].key == key;
            if i < last {
                assert(targets[i].key != targets[last].key);
            }
        } else if target_with(targets, key) is Some {
            let i = choose|i: int| 0 <= i < targets.len() && #[trigger] targets[i].key == key;
            assert(front[i].key == key);
            let j = choose|j: int| 0 <= j < front.len() && #[trigger] front[j].key == key;
            assert(targets[j].key == key);
            if i < j {
                assert(targets[i].key != targets[j].key);
            } else if j < i {
                assert(targets[j].key != targets[i].key);
            }
        } else if target_with(front, key) is Some {
            let j = choose|j: int| 0 <= j < front.len() && #[trigger] front[j].key == key;
            assert(targets[j].key == key);
        }
    }
}

/// What is remembered of a display is found under its name, and nothing else is
/// remembered.
pub(crate) proof fn lemma_captured_display(displays: Seq<DisplayView>)
    requires
        distinct_names(displays),
    ensures
        forall|i: int|
            0 <= i < displays.len() ==> captured_displays(displays).contains_key(
                (#[trigger] displays[i]).device_name,
            ) && captured_displays(displays)[displays[i].device_name] == displays[i].captured(),
        forall|name: Seq<char>| #[trigger]
            captured_displays(displays).contains_key(name) ==> exists|i: int|
                0 <= i < displays.len() && #[trigger] displays[i].device_name == name,
    decreases displays.len(),
{
    if displays.len() > 0 {
        let front = displays.drop_last();
        assert(distinct_names(front)) by {
            assert forall|i: int, j: int| 0 <= i < j < front.len() implies #[trigger] front[i].device_name
                != #[trigger] front[j].device_name by {
                assert(displays[i].device_name != displays[j].device_name);
            }
        }
        lemma_captured_display(front);
        assert forall|i: int| 0 <= i < displays.len() implies captured_displays(
            displays,
        ).contains_key((#[trigger] displays[i]).device_name) && captured_displays(
            displays,
        )[displays[i].device_name] == displays[i].captured() by {
            if i < front.len() {
                assert(front[i] == displays[i]);
                assert(displays[i].device_name != displays[displays.len() - 1].device_name);
            }
        }
        assert forall|name: Seq<char>| #[trigger]
            captured_displays(displays).contains_key(name) implies exists|i: int|
            0 <= i < displays.len() && #[trigger] displays[i].device_name == name by {
            if name == displays.last().device_name {
                assert(displays[displays.len() - 1].device_name == name);
            } else {
                assert(captured_displays(front).contains_key(name));
                let i = choose|i: int|
                    0 <= i < front.len() && #[trigger] front[i].device_name == name;
                assert(displays[i].device_name == name);
            }
        }
    }
}

/// A display found anew recalls all there was to the earlier one.
proof fn lemma_recalling_takes_over(earlier: DisplayView, found: DisplayView)
    requires
        earlier.found_again_as(found),
    ensures
        earlier.captured().concerns(found.targets),
        found.recalled(earlier.captured()) == found.taking_over(earlier),
{
    let snapshot = earlier.captured();
    assert forall|i: int| 0 <= i < found.targets.len() implies snapshot.recalled_target(
        #[trigger] found.targets[i],
    ) == found.taking_over(earlier).targets[i] by {
        lemma_captured_targets(earlier.targets, found.targets[i].key);
    }
    if earlier.targets.len() == 0 {
        assert(snapshot.targets == Map::<TargetKeyView, TargetSnapshot>::empty());
    } else {
        let i = choose|i: int|
            0 <= i < found.targets.len() && target_with(
                earlier.targets,
                (#[trigger] found.targets[i]).key,
            ) is Some;
        lemma_captured_targets(earlier.targets, found.targets[i].key);
        assert(snapshot.targets.contains_key(found.targets[i].key));
    }
    assert(found.recalled(snapshot).targets == found.taking_over(earlier).targets);
}

impl DisplayView {
    /// Something that the display can use is remembered of it.
    pub open spec fn is_remembered(self, snapshots: Map<Seq<char>, DisplaySnapshotView>) -> bool {
        snapshots.contains_key(self.device_name) && snapshots[self.device_name].concerns(
            self.targets,
        )
    }

    /// The display with what is remembered of it, if it can use that.
    pub open spec fn recalled_from(
        self,
        snapshots: Map<Seq<char>, DisplaySnapshotView>,
    ) -> DisplayView {
        if self.is_remembered(snapshots) {
            self.recalled(snapshots[self.device_name])
        } else {
            self
        }
    }
}

/// The names of the displays from the place `from` on that can use what is
/// remembered of them.
pub open spec fn claimed_names(
    displays: Seq<DisplayView>,
    snapshots: Map<Seq<char>, DisplaySnapshotView>,
    from: int,
) -> Set<Seq<char>> {
    Set::new(
        |name: Seq<char>|
            exists|i: int|
                from <= i < displays.len() && (#[trigger] displays[i]).device_name == name
                    && displays[i].is_remembered(snapshots),
    )
}

/// Each display is given what is remembered of it, whatever the others are given
/// and in whatever order. Only what a display can use is no longer remembered.
pub proof fn displays_recall_each_by_itself(
    displays: Seq<DisplayView>,
    snapshots: Map<Seq<char>, DisplaySnapshotView>,
    from: int,
)
    requires
        0 <= from <= displays.len(),
        distinct_names(displays),
    ensures
        ({
            let (recalled, left) = recalled_displays(displays, snapshots, from);
            &&& left == snapshots.remove_keys(claimed_names(displays, snapshots, from))
            &&& recalled.len() == displays.len()
            &&& forall|i: int| 0 <= i < from ==> #[trigger] recalled[i] == displays[i]
            &&& forall|i: int|
                from <= i < displays.len() ==> #[trigger] recalled[i] == displays[i].recalled_from(
                    snapshots,
                )
        }),
    decreases displays.len() - from,
{
    if from < displays.len() {
        let display = displays[from];
        let name = display.device_name;
        let (next, rest) = if display.is_remembered(snapshots) {
            (displays.update(from, display.recalled(snapshots[name])), snapshots.remove(name))
        } else {
            (displays, snapshots)
        };
        assert(recalled_displays(displays, snapshots, from) == recalled_displays(
            next,
            rest,
            from + 1,
        ));
        assert(distinct_names(next)) by {
            assert forall|i: int, j: int| 0 <= i < j < next.len() implies #[trigger] next[i].device_name
                != #[trigger] next[j].device_name by {
                assert(displays[i].device_name != displays[j].device_name);
            }
        }
        displays_recall_each_by_itself(next, rest, from + 1);
        assert forall|i: int| from < i < displays.len() implies #[trigger] next[i] == displays[i]
            && displays[i].is_remembered(rest) == displays[i].is_remembered(snapshots)
            && displays[i].recalled_from(rest) == displays[i].recalled_from(snapshots) by {
            assert(displays[from].device_name != displays[i].device_name);
        }
        let claimed = claimed_names(displays, snapshots, from);
        let later = claimed_names(next, rest, from + 1);
        assert forall|other: Seq<char>| #[trigger] claimed.contains(other) == (later.contains(other)
            || (other == name && display.is_remembered(snapshots))) by {
            if claimed.contains(other) {
                let i = choose|i: int|
                    from <= i < displays.len() && (#[trigger] displays[i]).device_name == other
                        && displays[i].is_remembered(snapshots);
                if i > from {
                    assert(next[i].device_name == other && next[i].is_remembered(rest));
                }
            }
            if later.contains(other) {
                let i = choose|i: int|
                    from + 1 <= i < next.len() && (#[trigger] next[i]).device_name == other
                        && next[i].is_remembered(rest);
                assert(displays[i].device_name == other && displays[i].is_remembered(snapshots));
            }
            if other == name && display.is_remembered(snapshots) {
                assert(displays[from].device_name == other);
            }
        }
        assert(snapshots.remove_keys(claimed) =~= rest.remove_keys(later));
        let (recalled, _) = recalled_displays(displays, snapshots, from);
        assert forall|i: int| 0 <= i < displays.len() implies #[trigger] recalled[i] == (if i < from {
            displays[i]
        } else {
            displays[i].recalled_from(snapshots)
        }) by {
            if i == from {
                assert(recalled[i] == next[i]);
            } else {
                assert(next[i] == displays[i]);
            }
        }
    } else {
        assert(claimed_names(displays, snapshots, from) =~= Set::<Seq<char>>::empty());
        assert(snapshots.remove_keys(claimed_names(displays, snapshots, from)) =~= snapshots);
    }
}

/// Displays that are found again after an enumeration, in whatever order, take
/// over from the earlier ones: their state, what is pending on them and the
/// levels to return to are preserved. What no display can use stays remembered:
/// of earlier displays that were not found again, and what was remembered before.
pub proof fn reenumeration_preserves_displays(
    earlier: Seq<DisplayView>,
    found: Seq<DisplayView>,
    remembered: Map<Seq<char>, DisplaySnapshotView>,
)
    requires
        distinct_names(earlier),
        distinct_names(found),
    ensures
        ({
            let snapshots = remembered.union_prefer_right(captured_displays(earlier));
            let (recalled, left) = recalled_displays(found, snapshots, 0);
            &&& left == snapshots.remove_keys(claimed_names(found, snapshots, 0))
            &&& recalled.len() == found.len()
            &&& forall|i: int, j: int|
                0 <= i < found.len() && 0 <= j < earlier.len() && (
                #[trigger] earlier[j].found_again_as(found[i])) ==> recalled[i]
                    == found[i].taking_over(earlier[j])
            &&& forall|i: int, j: int|
                0 <= i < found.len() && 0 <= j < earlier.len() && (
                #[trigger] earlier[j].found_again_as(found[i])) ==> !left.contains_key(
                    found[i].device_name,
                )
        }),
{
    lemma_captured_display(earlier);
    let snapshots = remembered.union_prefer_right(captured_displays(earlier));
    displays_recall_each_by_itself(found, snapshots, 0);
    let (recalled, left) = recalled_displays(found, snapshots, 0);
    assert forall|i: int, j: int|
        0 <= i < found.len() && 0 <= j < earlier.len() && #[trigger] earlier[j].found_again_as(
            found[i],
        ) implies recalled[i] == found[i].taking_over(earlier[j]) && !left.contains_key(
        found[i].device_name,
    ) by {
        assert(captured_displays(earlier).contains_key(earlier[j].device_name));
        lemma_recalling_takes_over(earlier[j], found[i]);
        assert(found[i].is_remembered(snapshots));
        assert(claimed_names(found, snapshots, 0).contains(found[i].device_name));
    }
}

/// What is remembered of a display stays remembered until a display claims it:
/// one under the same name, shown by one of the same monitors. Displays do not
/// add to what is remembered.
pub proof fn unclaimed_snapshots_are_kept(
    found: Seq<DisplayView>,
    snapshots: Map<Seq<char>, DisplaySnapshotView>,
    from: int,
    name: Seq<char>,
)
    requires
        0 <= from,
    ensures
        forall|other: Seq<char>| #[trigger]
            recalled_displays(found, snapshots, from).1.contains_key(other)
                ==> snapshots.contains_key(other) && recalled_displays(
                found,
                snapshots,
                from,
            ).1[other] == snapshots[other],
        snapshots.contains_key(name) && (forall|i: int|
            from <= i < found.len() && (#[trigger] found[i]).device_name == name
                ==> !snapshots[name].concerns(found[i].targets)) ==> recalled_displays(
            found,
            snapshots,
            from,
        ).1.contains_key(name),
    decreases found.len() - from,
{
    if from < found.len() {
        let display = found[from];
        let own = display.device_name;
        if snapshots.contains_key(own) && snapshots[own].concerns(display.targets) {
            let next = found.update(from, display.recalled(snapshots[own]));
            let rest = snapshots.remove(own);
            unclaimed_snapshots_are_kept(next, rest, from + 1, name);
            assert forall|i: int| from + 1 <= i < next.len() implies #[trigger] next[i] == found[i] by {}
            let left = recalled_displays(next, rest, from + 1).1;
            assert(recalled_displays(found, snapshots, from).1 == left);
            assert forall|other: Seq<char>| #[trigger] left.contains_key(other) implies snapshots.contains_key(other)
                && left[other] == snapshots[other] by {
                assert(rest.contains_key(other));
                assert(left[other] == rest[other]);
            }
        } else {
            unclaimed_snapshots_are_kept(found, snapshots, from + 1, name);
            assert(recalled_displays(found, snapshots, from) == recalled_displays(
                found,
                snapshots,
                from + 1,
            ));
        }
    }
}

impl TargetView {
    /// The target as it was, but for whether it is dimmed and the level to return
    /// to.
    pub open spec fn recalls_only(self, found: TargetView) -> bool {
        self == TargetView {
            restore_brightness: self.restore_brightness,
            is_dimmed: self.is_dimmed,
            ..found
        }
    }
}

/// A display of which nothing is remembered stays as it was found. Each display
/// keeps its name, its place, the note on what keeps it lit, and its monitors;
/// and each monitor what is known of whether it can be talked to.
pub proof fn recalling_keeps_the_displays(
    found: Seq<DisplayView>,
    snapshots: Map<Seq<char>, DisplaySnapshotView>,
    from: int,
)
    requires
        0 <= from,
    ensures
        ({
            let recalled = recalled_displays(found, snapshots, from).0;
            &&& recalled.len() == found.len()
            &&& forall|i: int|
                #![trigger recalled[i]]
                0 <= i < found.len() ==> {
                    &&& !snapshots.contains_key(found[i].device_name) ==> recalled[i] == found[i]
                    &&& recalled[i].device_name == found[i].device_name
                    &&& recalled[i].bounds == found[i].bounds
                    &&& recalled[i].last_blocking_window == found[i].last_blocking_window
                    &&& recalled[i].targets.len() == found[i].targets.len()
                    &&& forall|j: int|
                        0 <= j < found[i].targets.len() ==> (
                        #[trigger] recalled[i].targets[j]).recalls_only(found[i].targets[j])
                }
        }),
    decreases found.len() - from,
{
    if from < found.len() {
        let display = found[from];
        let own = display.device_name;
        if snapshots.contains_key(own) && snapshots[own].concerns(display.targets) {
            let next = found.update(from, display.recalled(snapshots[own]));
            recalling_keeps_the_displays(next, snapshots.remove(own), from + 1);
            let recalled = recalled_displays(found, snapshots, from).0;
            assert forall|i: int| #![trigger recalled[i]] 0 <= i < found.len() implies {
                &&& !snapshots.contains_key(found[i].device_name) ==> recalled[i] == found[i]
                &&& recalled[i].device_name == found[i].device_name
                &&& recalled[i].bounds == found[i].bounds
                &&& recalled[i].last_blocking_window == found[i].last_blocking_window
                &&& recalled[i].targets.len() == found[i].targets.len()
                &&& forall|j: int|
                    0 <= j < found[i].targets.len() ==> (
                    #[trigger] recalled[i].targets[j]).recalls_only(found[i].targets[j])
            } by {
                assert(i != from ==> next[i] == found[i]);
                assert forall|j: int| 0 <= j < found[i].targets.len() implies (
                #[trigger] recalled[i].targets[j]).recalls_only(found[i].targets[j]) by {
                    assert(recalled[i].targets[j].recalls_only(next[i].targets[j]));
                }
            }
        } else {
            recalling_keeps_the_displays(found, snapshots, from + 1);
        }
    }
}

} // verus!
