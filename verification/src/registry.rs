//! The registry: every live bar, in the order of creation.
//!
//! Bars are held in a vector sorted by id. Ids are handed out by the
//! registry itself, each one larger than all before it, so a new bar always
//! goes to the end and its row is the number of older bars still alive.

use vstd::prelude::*;
use crate::record::{
    lemma_advanced_monotone, lemma_configured_wf, views_of, Record, RecordView, Setting,
    SettingView,
};
use crate::style::ConfigError;

verus! {

struct Entry {
    id: usize,
    record: Record,
}

/// The collection of all live bars.
pub struct Registry {
    next_id: usize,
    entries: Vec<Entry>,
}

/// The mathematical content of a registry: the id that the next bar gets,
/// and the live bars as pairs of id and record, in display order.
pub struct RegistryView {
    pub next_id: usize,
    pub bars: Seq<(usize, RecordView)>,
}

impl RegistryView {
    /// A registry without bars that has handed out no id yet.
    pub open spec fn empty() -> RegistryView {
        RegistryView { next_id: 0, bars: Seq::empty() }
    }

    /// The ids of the live bars, in display order.
    pub open spec fn ids(self) -> Seq<usize> {
        Seq::new(self.bars.len(), |i: int| self.bars[i].0)
    }

    /// The records of the live bars, in display order.
    pub open spec fn records(self) -> Seq<RecordView> {
        Seq::new(self.bars.len(), |i: int| self.bars[i].1)
    }

    /// Ids grow strictly along the sequence, so no id occurs twice.
    pub open spec fn strictly_ordered(self) -> bool {
        forall|i: int, j: int|
            0 <= i < j < self.bars.len() ==> (#[trigger] self.bars[i]).0 < (
            #[trigger] self.bars[j]).0
    }

    /// Ids are unique and ascending, every id in use was handed out before,
    /// and every record is sound.
    pub open spec fn wf(self) -> bool {
        &&& self.strictly_ordered()
        &&& forall|i: int| 0 <= i < self.bars.len() ==> (#[trigger] self.bars[i]).0 < self.next_id
        &&& forall|i: int| 0 <= i < self.bars.len() ==> (#[trigger] self.bars[i]).1.wf()
    }

    /// Whether a bar with this id is alive.
    pub open spec fn contains(self, id: usize) -> bool {
        exists|i: int| 0 <= i < self.bars.len() && (#[trigger] self.bars[i]).0 == id
    }

    /// The row of the bar with this id, counted from the topmost bar.
    pub open spec fn row(self, id: usize) -> int
        recommends
            self.contains(id),
    {
        choose|i: int| 0 <= i < self.bars.len() && (#[trigger] self.bars[i]).0 == id
    }

    /// The record of the bar with this id.
    pub open spec fn record(self, id: usize) -> RecordView
        recommends
            self.contains(id),
    {
        self.bars[self.row(id)].1
    }

    /// Whether every id has been handed out, so that no further bar can be
    /// registered.
    pub open spec fn exhausted(self) -> bool {
        self.next_id >= usize::MAX
    }

    /// The registry after a new bar was registered under the next id; with
    /// the ids exhausted nothing changes.
    pub open spec fn inserted(self, record: RecordView) -> RegistryView {
        if self.exhausted() {
            self
        } else {
            RegistryView {
                next_id: (self.next_id + 1) as usize,
                bars: self.bars.push((self.next_id, record)),
            }
        }
    }

    /// The registry after `delta` items were reported for a bar; nothing
    /// changes if the bar is gone.
    pub open spec fn updated(self, id: usize, delta: usize, now: u64) -> RegistryView {
        if self.contains(id) {
            RegistryView {
                bars: self.bars.update(self.row(id), (id, self.record(id).advanced(delta, now))),
                ..self
            }
        } else {
            self
        }
    }

    /// The registry after a configuration request to a bar; nothing changes
    /// if the bar is gone or the request is turned down.
    pub open spec fn configured(self, id: usize, setting: SettingView) -> RegistryView {
        if self.contains(id) {
            RegistryView {
                bars: self.bars.update(self.row(id), (id, self.record(id).configured(setting))),
                ..self
            }
        } else {
            self
        }
    }

    /// The registry without the bar of this id; the bars below move up.
    pub open spec fn removed(self, id: usize) -> RegistryView {
        if self.contains(id) {
            RegistryView { bars: self.bars.remove(self.row(id)), ..self }
        } else {
            self
        }
    }
}

/// Where ids grow strictly, the row of a live bar is the one place where
/// its id stands.
pub proof fn lemma_row_is_position(registry: RegistryView, i: int)
    requires
        registry.strictly_ordered(),
        0 <= i < registry.bars.len(),
    ensures
        registry.contains(registry.bars[i].0),
        registry.row(registry.bars[i].0) == i,
        registry.record(registry.bars[i].0) == registry.bars[i].1,
{
    let id = registry.bars[i].0;
    let k = registry.row(id);
    assert(0 <= k < registry.bars.len() && registry.bars[k].0 == id);
    if k < i {
        assert(registry.bars[k].0 < registry.bars[i].0);
    } else if i < k {
        assert(registry.bars[i].0 < registry.bars[k].0);
    }
}

/// No two live bars share an id.
pub proof fn lemma_ids_unique(registry: RegistryView, i: int, j: int)
    requires
        registry.wf(),
        0 <= i < registry.bars.len(),
        0 <= j < registry.bars.len(),
        i != j,
    ensures
        registry.bars[i].0 != registry.bars[j].0,
{
    if i < j {
        assert(registry.bars[i].0 < registry.bars[j].0);
    } else {
        assert(registry.bars[j].0 < registry.bars[i].0);
    }
}

/// Registering a bar keeps the registry well-formed. The new bar gets an
/// id that no live bar has, and the row below all others.
pub proof fn lemma_inserted_wf(registry: RegistryView, record: RecordView)
    requires
        registry.wf(),
        record.wf(),
    ensures
        registry.inserted(record).wf(),
        !registry.contains(registry.next_id),
        !registry.exhausted() ==> {
            &&& registry.inserted(record).contains(registry.next_id)
            &&& registry.inserted(record).row(registry.next_id) == registry.bars.len()
            &&& registry.inserted(record).record(registry.next_id) == record
        },
{
    if registry.contains(registry.next_id) {
        let k = registry.row(registry.next_id);
        assert(registry.bars[k].0 < registry.next_id);
    }
    if !registry.exhausted() {
        let after = registry.inserted(record);
        assert(after.bars[registry.bars.len() as int].0 == registry.next_id);
        assert forall|i: int, j: int| 0 <= i < j < after.bars.len() implies (
        #[trigger] after.bars[i]).0 < (#[trigger] after.bars[j]).0 by {
            if j < registry.bars.len() {
                assert(registry.bars[i].0 < registry.bars[j].0);
            } else {
                assert(registry.bars[i].0 < registry.next_id);
            }
        }
        assert forall|i: int| 0 <= i < after.bars.len() implies (#[trigger] after.bars[i]).0
            < after.next_id by {
            if i < registry.bars.len() {
                assert(registry.bars[i].0 < registry.next_id);
            }
        }
        assert forall|i: int| 0 <= i < after.bars.len() implies (#[trigger] after.bars[i]).1.wf() by {
            if i < registry.bars.len() {
                assert(registry.bars[i].1.wf());
            }
        }
        lemma_row_is_position(after, registry.bars.len() as int);
    }
}

/// Reporting progress keeps the registry well-formed and its membership.
pub proof fn lemma_updated_wf(registry: RegistryView, id: usize, delta: usize, now: u64)
    requires
        registry.wf(),
    ensures
        registry.updated(id, delta, now).wf(),
        registry.updated(id, delta, now).ids() == registry.ids(),
{
    let after = registry.updated(id, delta, now);
    if registry.contains(id) {
        let k = registry.row(id);
        assert(registry.bars[k].1.wf());
        lemma_advanced_monotone(registry.record(id), delta, now);
        assert forall|i: int, j: int| 0 <= i < j < after.bars.len() implies (
        #[trigger] after.bars[i]).0 < (#[trigger] after.bars[j]).0 by {
            assert(registry.bars[i].0 < registry.bars[j].0);
        }
        assert forall|i: int| 0 <= i < after.bars.len() implies (#[trigger] after.bars[i]).0
            < after.next_id by {
            assert(registry.bars[i].0 < registry.next_id);
        }
        assert forall|i: int| 0 <= i < after.bars.len() implies (#[trigger] after.bars[i]).1.wf() by {
            assert(registry.bars[i].1.wf());
        }
    }
    assert(after.ids() =~= registry.ids());
}

/// Reporting progress changes no membership: the same bars are alive
/// before and after.
pub proof fn lemma_updated_contains(
    registry: RegistryView,
    id: usize,
    delta: usize,
    now: u64,
    other: usize,
)
    ensures
        registry.updated(id, delta, now).contains(other) == registry.contains(other),
{
    let after = registry.updated(id, delta, now);
    if registry.contains(id) {
        let k = registry.row(id);
        assert(registry.bars[k].0 == id);
        if registry.contains(other) {
            let i = registry.row(other);
            assert(after.bars[i].0 == other);
        }
        if after.contains(other) {
            let i = after.row(other);
            assert(registry.bars[i].0 == other);
        }
    }
}

/// A configuration request keeps the registry well-formed and its
/// membership; one that is turned down changes nothing at all.
pub proof fn lemma_configured_keeps_wf(registry: RegistryView, id: usize, setting: SettingView)
    requires
        registry.wf(),
    ensures
        registry.configured(id, setting).wf(),
        registry.configured(id, setting).ids() == registry.ids(),
        setting.refusal() is Some ==> registry.configured(id, setting) == registry,
{
    let after = registry.configured(id, setting);
    if registry.contains(id) {
        let k = registry.row(id);
        assert(registry.bars[k].0 == id);
        assert(registry.bars[k].1.wf());
        lemma_configured_wf(registry.record(id), setting);
        assert forall|i: int, j: int| 0 <= i < j < after.bars.len() implies (
        #[trigger] after.bars[i]).0 < (#[trigger] after.bars[j]).0 by {
            assert(registry.bars[i].0 < registry.bars[j].0);
        }
        assert forall|i: int| 0 <= i < after.bars.len() implies (#[trigger] after.bars[i]).0
            < after.next_id && after.bars[i].1.wf() by {
            assert(registry.bars[i].0 < registry.next_id);
            assert(registry.bars[i].1.wf());
        }
        if setting.refusal() is Some {
            assert(after.bars =~= registry.bars);
        }
    }
    assert(after.ids() =~= registry.ids());
}

/// Reporting progress reaches the one bar it is meant for: that bar's
/// record advances, and every other record stays as it is.
pub proof fn lemma_updated_record(
    registry: RegistryView,
    id: usize,
    delta: usize,
    now: u64,
    other: usize,
)
    requires
        registry.wf(),
        registry.contains(other),
    ensures
        registry.updated(id, delta, now).contains(other),
        registry.updated(id, delta, now).record(other) == if other == id {
            registry.record(other).advanced(delta, now)
        } else {
            registry.record(other)
        },
{
    lemma_updated_wf(registry, id, delta, now);
    let after = registry.updated(id, delta, now);
    let i = registry.row(other);
    assert(registry.bars[i].0 == other);
    if registry.contains(id) {
        let k = registry.row(id);
        assert(registry.bars[k].0 == id);
        if i != k {
            lemma_ids_unique(registry, i, k);
        }
    }
    assert(after.bars[i].0 == other);
    lemma_row_is_position(after, i);
}

/// A configuration request reaches the one bar it is meant for: that bar's
/// record is configured, and every other record stays as it is.
pub proof fn lemma_configured_record(
    registry: RegistryView,
    id: usize,
    setting: SettingView,
    other: usize,
)
    requires
        registry.wf(),
        registry.contains(other),
    ensures
        registry.configured(id, setting).contains(other),
        registry.configured(id, setting).record(other) == if other == id {
            registry.record(other).configured(setting)
        } else {
            registry.record(other)
        },
{
    lemma_configured_keeps_wf(registry, id, setting);
    let after = registry.configured(id, setting);
    let i = registry.row(other);
    assert(registry.bars[i].0 == other);
    if registry.contains(id) {
        let k = registry.row(id);
        assert(registry.bars[k].0 == id);
        if i != k {
            lemma_ids_unique(registry, i, k);
        }
    }
    assert(after.bars[i].0 == other);
    lemma_row_is_position(after, i);
}

/// Registering a bar leaves every bar that is alive as it is.
pub proof fn lemma_inserted_record(registry: RegistryView, record: RecordView, other: usize)
    requires
        registry.wf(),
        record.wf(),
        registry.contains(other),
    ensures
        registry.inserted(record).contains(other),
        registry.inserted(record).record(other) == registry.record(other),
        registry.inserted(record).row(other) == registry.row(other),
{
    lemma_inserted_wf(registry, record);
    let after = registry.inserted(record);
    let i = registry.row(other);
    assert(registry.bars[i].0 == other);
    assert(after.bars[i].0 == other);
    lemma_row_is_position(after, i);
}

/// Removing a bar leaves the record of every other bar as it is, and moves
/// up by one row exactly the bars that stood below.
pub proof fn lemma_removed_record(registry: RegistryView, id: usize, other: usize)
    requires
        registry.wf(),
        registry.contains(other),
        other != id,
    ensures
        registry.removed(id).contains(other),
        registry.removed(id).record(other) == registry.record(other),
        registry.removed(id).row(other) == if registry.contains(id) && registry.row(id)
            < registry.row(other) {
            registry.row(other) - 1
        } else {
            registry.row(other)
        },
{
    lemma_removed_wf(registry, id);
    let after = registry.removed(id);
    let i = registry.row(other);
    assert(registry.bars[i].0 == other);
    if registry.contains(id) {
        let k = registry.row(id);
        assert(registry.bars[k].0 == id);
        let j = if k < i {
            i - 1
        } else {
            i
        };
        assert(after.bars[j].0 == other);
        lemma_row_is_position(after, j);
    }
}

/// Removing a bar keeps the registry well-formed; the bar is gone, and
/// every other bar stays.
pub proof fn lemma_removed_wf(registry: RegistryView, id: usize)
    requires
        registry.wf(),
    ensures
        registry.removed(id).wf(),
        !registry.removed(id).contains(id),
        forall|other: usize|
            other != id ==> (registry.removed(id).contains(other) <==> registry.contains(other)),
{
    let after = registry.removed(id);
    if registry.contains(id) {
        let k = registry.row(id);
        assert forall|i: int, j: int| 0 <= i < j < after.bars.len() implies (
        #[trigger] after.bars[i]).0 < (#[trigger] after.bars[j]).0 by {
            let a = if i < k {
                i
            } else {
                i + 1
            };
            let b = if j < k {
                j
            } else {
                j + 1
            };
            assert(registry.bars[a].0 < registry.bars[b].0);
        }
        assert forall|i: int| 0 <= i < after.bars.len() implies (#[trigger] after.bars[i]).0
            < after.next_id && after.bars[i].1.wf() && after.bars[i].0 != id by {
            let a = if i < k {
                i
            } else {
                i + 1
            };
            assert(registry.bars[a].0 < registry.next_id);
            assert(registry.bars[a].1.wf());
            if a != k {
                lemma_ids_unique(registry, a, k);
            }
        }
        assert forall|other: usize| other != id implies (after.contains(other)
            <==> registry.contains(other)) by {
            if registry.contains(other) {
                let a = registry.row(other);
                let i = if a < k {
                    a
                } else {
                    a - 1
                };
                assert(after.bars[i].0 == other);
            }
            if after.contains(other) {
                let i = after.row(other);
                let a = if i < k {
                    i
                } else {
                    i + 1
                };
                assert(registry.bars[a].0 == other);
            }
        }
    }
}

/// Two well-formed registries with the same live ids show them in the same
/// order: the row of a bar depends on nothing but which bars are alive.
pub proof fn lemma_rows_follow_membership(a: RegistryView, b: RegistryView)
    requires
        a.strictly_ordered(),
        b.strictly_ordered(),
        forall|id: usize| a.contains(id) <==> b.contains(id),
    ensures
        a.ids() == b.ids(),
        forall|id: usize| a.contains(id) ==> a.row(id) == b.row(id),
    decreases a.bars.len(),
{
    if a.bars.len() == 0 {
        if b.bars.len() > 0 {
            assert(b.contains(b.bars[0].0));
            assert(a.contains(b.bars[0].0));
        }
        assert(a.ids() =~= b.ids());
    } else {
        let la = a.bars.len() - 1;
        assert(a.contains(a.bars[la].0));
        assert(b.contains(a.bars[la].0));
        let lb = b.bars.len() - 1;
        assert(b.contains(b.bars[lb].0));
        assert(a.contains(b.bars[lb].0));
        // the last id of each is the largest id of both
        let ia = b.row(a.bars[la].0);
        let ib = a.row(b.bars[lb].0);
        assert(a.bars[ib].0 == b.bars[lb].0);
        assert(b.bars[ia].0 == a.bars[la].0);
        if ib < la {
            assert(a.bars[ib].0 < a.bars[la].0);
        }
        if ia < lb {
            assert(b.bars[ia].0 < b.bars[lb].0);
        }
        assert(a.bars[la].0 == b.bars[lb].0);
        let a0 = RegistryView { bars: a.bars.drop_last(), ..a };
        let b0 = RegistryView { bars: b.bars.drop_last(), ..b };
        assert forall|id: usize| a0.contains(id) <==> b0.contains(id) by {
            if a0.contains(id) {
                let i = a0.row(id);
                assert(a.bars[i].0 == id);
                assert(a.bars[i].0 < a.bars[la].0);
                assert(a.contains(id));
                let j = b.row(id);
                assert(b.bars[j].0 == id);
                assert(j != lb);
                assert(b0.bars[j].0 == id);
            }
            if b0.contains(id) {
                let j = b0.row(id);
                assert(b.bars[j].0 == id);
                assert(b.bars[j].0 < b.bars[lb].0);
                assert(b.contains(id));
                let i = a.row(id);
                assert(a.bars[i].0 == id);
                assert(i != la);
                assert(a0.bars[i].0 == id);
            }
        }
        assert(a0.strictly_ordered()) by {
            assert forall|i: int, j: int| 0 <= i < j < a0.bars.len() implies (
            #[trigger] a0.bars[i]).0 < (#[trigger] a0.bars[j]).0 by {
                assert(a.bars[i].0 < a.bars[j].0);
            }
        }
        assert(b0.strictly_ordered()) by {
            assert forall|i: int, j: int| 0 <= i < j < b0.bars.len() implies (
            #[trigger] b0.bars[i]).0 < (#[trigger] b0.bars[j]).0 by {
                assert(b.bars[i].0 < b.bars[j].0);
            }
        }
        lemma_rows_follow_membership(a0, b0);
        assert(a0.ids().len() == b0.ids().len());
        assert(a.bars.len() == b.bars.len());
        assert forall|i: int| 0 <= i < a.bars.len() implies a.ids()[i] == b.ids()[i] by {
            if i < la {
                assert(a0.ids()[i] == b0.ids()[i]);
            }
        }
        assert(a.ids() =~= b.ids());
    }
    assert forall|id: usize| a.contains(id) implies a.row(id) == b.row(id) by {
        let i = a.row(id);
        assert(a.bars[i].0 == id);
        assert(a.ids()[i] == b.ids()[i]);
        assert(b.bars[i].0 == id);
        lemma_row_is_position(b, i);
    }
}

impl View for Registry {
    type V = RegistryView;

    closed spec fn view(&self) -> RegistryView {
        RegistryView {
            next_id: self.next_id,
            bars: Seq::new(
                self.entries@.len(),
                |i: int| (self.entries@[i].id, self.entries@[i].record@),
            ),
        }
    }
}

impl Registry {
    /// An empty registry.
    pub fn new() -> (registry: Registry)
        ensures
            registry@ == RegistryView::empty(),
            registry@.wf(),
    {
        let registry = Registry { next_id: 0, entries: Vec::new() };
        assert(registry@.bars =~= Seq::empty());
        registry
    }

    /// The number of live bars.
    pub fn len(&self) -> (count: usize)
        ensures
            count == self@.bars.len(),
    {
        self.entries.len()
    }

    /// Whether no bar is alive.
    pub fn is_empty(&self) -> (empty: bool)
        ensures
            empty == (self@.bars.len() == 0),
    {
        self.entries.len() == 0
    }

    /// The row of the bar with this id, if it is alive. The bars are sorted
    /// by id, so the search halves its range at every step.
    pub fn row_of(&self, id: usize) -> (row: Option<usize>)
        requires
            self@.wf(),
        ensures
            match row {
                Some(i) => self@.contains(id) && self@.row(id) == i,
                None => !self@.contains(id),
            },
    {
        let mut low: usize = 0;
        let mut high: usize = self.entries.len();
        while low < high
            invariant
                low <= high <= self.entries.len(),
                self@.wf(),
                forall|k: int| 0 <= k < low ==> (#[trigger] self@.bars[k]).0 < id,
                forall|k: int| high <= k < self@.bars.len() ==> (#[trigger] self@.bars[k]).0 > id,
            decreases high - low,
        {
            let middle: usize = low + (high - low) / 2;
            let found: usize = self.entries[middle].id;
            assert(self@.bars[middle as int].0 == found);
            if found == id {
                proof {
                    lemma_row_is_position(self@, middle as int);
                }
                return Some(middle);
            } else if found < id {
                assert forall|k: int| 0 <= k < middle + 1 implies (#[trigger] self@.bars[k]).0
                    < id by {
                    if k < middle {
                        assert(self@.bars[k].0 < self@.bars[middle as int].0);
                    }
                }
                low = middle + 1;
            } else {
                assert forall|k: int| middle <= k < self@.bars.len() implies (
                #[trigger] self@.bars[k]).0 > id by {
                    if k > middle {
                        assert(self@.bars[middle as int].0 < self@.bars[k].0);
                    }
                }
                high = middle;
            }
        }
        None
    }

    /// Whether a bar with this id is alive.
    pub fn contains(&self, id: usize) -> (found: bool)
        requires
            self@.wf(),
        ensures
            found == self@.contains(id),
    {
        self.row_of(id).is_some()
    }

    /// Registers a bar under the next id and returns that id. Once every id
    /// has been handed out nothing is registered and `None` comes back.
    pub fn insert(&mut self, record: Record) -> (id: Option<usize>)
        requires
            old(self)@.wf(),
            record@.wf(),
        ensures
            final(self)@ == old(self)@.inserted(record@),
            final(self)@.wf(),
            match id {
                Some(id) => {
                    &&& !old(self)@.exhausted()
                    &&& id == old(self)@.next_id
                    &&& final(self)@.contains(id)
                    &&& final(self)@.row(id) == old(self)@.bars.len()
                },
                None => old(self)@.exhausted(),
            },
    {
        proof {
            lemma_inserted_wf(self@, record@);
        }
        if self.next_id == usize::MAX {
            return None;
        }
        let id: usize = self.next_id;
        self.entries.push(Entry { id, record });
        self.next_id = id + 1;
        assert(self@.bars =~= old(self)@.bars.push((id, record@)));
        Some(id)
    }

    /// Adds `delta` completed items to a bar at time `now`. A bar that is no
    /// longer registered is left alone: nothing changes.
    pub fn update(&mut self, id: usize, delta: usize, now: u64)
        requires
            old(self)@.wf(),
        ensures
            final(self)@ == old(self)@.updated(id, delta, now),
            final(self)@.wf(),
    {
        proof {
            lemma_updated_wf(self@, id, delta, now);
        }
        if let Some(i) = self.row_of(id) {
            assert(self@.bars[i as int].1.wf());
            self.entries[i].record.update(delta, now);
            assert(self@.bars =~= old(self)@.bars.update(
                i as int,
                (id, old(self)@.record(id).advanced(delta, now)),
            ));
        }
    }

    /// Carries out a configuration request to a bar. The request is checked
    /// first: one that is turned down changes nothing and comes back with
    /// the reason. A request to a bar that is no longer registered is
    /// checked like any other, and changes nothing.
    pub fn configure(&mut self, id: usize, setting: Setting) -> (done: Result<(), ConfigError>)
        requires
            old(self)@.wf(),
        ensures
            final(self)@ == old(self)@.configured(id, setting@),
            final(self)@.wf(),
            match setting@.refusal() {
                Some(reason) => done == Err::<(), ConfigError>(reason) && final(self)@ == old(
                    self,
                )@,
                None => done is Ok,
            },
    {
        proof {
            lemma_configured_keeps_wf(self@, id, setting@);
        }
        if let Err(reason) = setting.check() {
            assert(self@.configured(id, setting@).bars =~= self@.bars);
            return Err(reason);
        }
        match self.row_of(id) {
            Some(i) => {
                let done = self.entries[i].record.configure(setting);
                assert(self@.bars =~= old(self)@.configured(id, setting@).bars);
                done
            },
            None => Ok(()),
        }
    }

    /// Takes a bar out of the registry and returns its final state; `None`
    /// if no such bar is registered.
    pub fn remove(&mut self, id: usize) -> (record: Option<Record>)
        requires
            old(self)@.wf(),
        ensures
            final(self)@ == old(self)@.removed(id),
            final(self)@.wf(),
            match record {
                Some(r) => old(self)@.contains(id) && r@ == old(self)@.record(id),
                None => !old(self)@.contains(id),
            },
    {
        proof {
            lemma_removed_wf(self@, id);
        }
        match self.row_of(id) {
            Some(i) => {
                let entry = self.entries.remove(i);
                assert(self@.bars =~= old(self)@.bars.remove(i as int));
                Some(entry.record)
            },
            None => None,
        }
    }

    /// A copy of every live record, in display order, taken at one instant.
    pub fn snapshot_ordered(&self) -> (records: Vec<Record>)
        ensures
            views_of(records@) == self@.records(),
    {
        let mut records: Vec<Record> = Vec::new();
        let mut i: usize = 0;
        while i < self.entries.len()
            invariant
                i <= self.entries.len(),
                records@.len() == i,
                forall|k: int| 0 <= k < i ==> (#[trigger] records@[k])@ == self@.bars[k].1,
            decreases self.entries.len() - i,
        {
            records.push(self.entries[i].record.clone());
            i += 1;
        }
        assert(views_of(records@) =~= self@.records());
        records
    }
}

} // verus!
