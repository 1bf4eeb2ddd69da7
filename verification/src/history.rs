//! Histories: what holds of a registry after any sequence of operations.
//!
//! Handles on different threads reach the registry one at a time, so
//! whatever they do amounts to some sequence of the events below, applied
//! to an empty registry. What is proved of every such sequence holds of
//! every interleaving.

use vstd::prelude::*;
use crate::record::{lemma_advanced_monotone, lemma_configured_wf, RecordView, SettingView};
use crate::registry::{
    lemma_configured_keeps_wf, lemma_configured_record, lemma_ids_unique, lemma_inserted_record,
    lemma_inserted_wf, lemma_removed_record, lemma_removed_wf, lemma_rows_follow_membership,
    lemma_updated_record, lemma_updated_wf, RegistryView,
};

verus! {

/// One operation on the registry.
pub enum Event {
    /// A bar is created at time `now`.
    Create { total: Option<usize>, now: u64 },
    /// The bar `id` is told of `delta` more items at time `now`.
    Advance { id: usize, delta: usize, now: u64 },
    /// The bar `id` is sent a configuration request.
    Configure { id: usize, setting: SettingView },
    /// The bar `id` is closed at time `now` with `pending` items not yet
    /// flushed.
    Close { id: usize, pending: usize, now: u64 },
}

/// The registry after one event.
pub open spec fn step(registry: RegistryView, event: Event) -> RegistryView {
    match event {
        Event::Create { total, now } => registry.inserted(RecordView::fresh(total, now)),
        Event::Advance { id, delta, now } => registry.updated(id, delta, now),
        Event::Configure { id, setting } => registry.configured(id, setting),
        Event::Close { id, pending, now } => (if pending > 0 {
            registry.updated(id, pending, now)
        } else {
            registry
        }).removed(id),
    }
}

/// The registry after a sequence of events, starting empty.
pub open spec fn replay(events: Seq<Event>) -> RegistryView
    decreases events.len(),
{
    if events.len() == 0 {
        RegistryView::empty()
    } else {
        step(replay(events.drop_last()), events.last())
    }
}

/// Every event keeps a well-formed registry well-formed.
pub proof fn lemma_step_wf(registry: RegistryView, event: Event)
    requires
        registry.wf(),
    ensures
        step(registry, event).wf(),
{
    match event {
        Event::Create { total, now } => {
            lemma_inserted_wf(registry, RecordView::fresh(total, now));
        },
        Event::Advance { id, delta, now } => {
            lemma_updated_wf(registry, id, delta, now);
        },
        Event::Configure { id, setting } => {
            lemma_configured_keeps_wf(registry, id, setting);
        },
        Event::Close { id, pending, now } => {
            lemma_updated_wf(registry, id, pending, now);
            lemma_removed_wf(registry.updated(id, pending, now), id);
            lemma_removed_wf(registry, id);
        },
    }
}

/// Whatever bars are created, advanced, configured and closed, in whatever
/// order: the registry stays well-formed, and no two of its bars share an
/// id.
pub proof fn lemma_history_keeps_ids_unique(events: Seq<Event>)
    ensures
        replay(events).wf(),
        forall|i: int, j: int|
            0 <= i < replay(events).bars.len() && 0 <= j < replay(events).bars.len() && i != j
                ==> (#[trigger] replay(events).bars[i]).0 != (#[trigger] replay(events).bars[j]).0,
    decreases events.len(),
{
    if events.len() > 0 {
        lemma_history_keeps_ids_unique(events.drop_last());
        lemma_step_wf(replay(events.drop_last()), events.last());
    }
    let registry = replay(events);
    assert forall|i: int, j: int|
        0 <= i < registry.bars.len() && 0 <= j < registry.bars.len() && i != j implies (
    #[trigger] registry.bars[i]).0 != (#[trigger] registry.bars[j]).0 by {
        lemma_ids_unique(registry, i, j);
    }
}

/// Two histories that leave the same bars alive show them in the same rows:
/// where a bar stands depends on which bars are alive, not on how the
/// registry got there.
pub proof fn lemma_rows_depend_on_membership_alone(first: Seq<Event>, second: Seq<Event>)
    requires
        forall|id: usize| replay(first).contains(id) <==> replay(second).contains(id),
    ensures
        replay(first).ids() == replay(second).ids(),
        forall|id: usize|
            replay(first).contains(id) ==> replay(first).row(id) == replay(second).row(id),
{
    lemma_history_keeps_ids_unique(first);
    lemma_history_keeps_ids_unique(second);
    lemma_rows_follow_membership(replay(first), replay(second));
}

/// An id is never handed out twice: after any history, the id that the next
/// bar gets is larger than every id in use, and no event makes it smaller.
pub proof fn lemma_ids_never_reused(events: Seq<Event>, event: Event)
    ensures
        !replay(events).contains(replay(events).next_id),
        forall|i: int|
            0 <= i < replay(events).bars.len() ==> (#[trigger] replay(events).bars[i]).0 < replay(
                events,
            ).next_id,
        step(replay(events), event).next_id >= replay(events).next_id,
{
    lemma_history_keeps_ids_unique(events);
    let registry = replay(events);
    if registry.contains(registry.next_id) {
        let k = registry.row(registry.next_id);
        assert(registry.bars[k].0 < registry.next_id);
    }
}

/// Whether an event closes the bar with this id.
pub open spec fn closes(event: Event, id: usize) -> bool {
    event matches Event::Close { id: closed, .. } && closed == id
}

/// A bar stays in the registry from its creation until it is closed: no
/// event takes it out but the closing of this very bar, and that one does.
pub proof fn lemma_bar_lives_until_closed(registry: RegistryView, id: usize, event: Event)
    requires
        registry.wf(),
        registry.contains(id),
    ensures
        step(registry, event).contains(id) <==> !closes(event, id),
{
    match event {
        Event::Create { total, now } => {
            lemma_inserted_record(registry, RecordView::fresh(total, now), id);
        },
        Event::Advance { id: target, delta, now } => {
            lemma_updated_record(registry, target, delta, now, id);
        },
        Event::Configure { id: target, setting } => {
            lemma_configured_record(registry, target, setting, id);
        },
        Event::Close { id: target, pending, now } => {
            lemma_updated_wf(registry, target, pending, now);
            lemma_updated_record(registry, target, pending, now, id);
            lemma_removed_wf(registry.updated(target, pending, now), target);
            lemma_removed_wf(registry, target);
        },
    }
}

/// The count of a bar never goes down, and nothing but its own progress
/// moves it: whatever event the registry takes, a bar that is alive before
/// and after has completed at least as much as before, and exactly as much
/// unless the event reports progress of this very bar.
pub proof fn lemma_progress_never_decreases(registry: RegistryView, id: usize, event: Event)
    requires
        registry.wf(),
        registry.contains(id),
        !closes(event, id),
    ensures
        step(registry, event).record(id).completed >= registry.record(id).completed,
        step(registry, event).record(id).total == registry.record(id).total,
        step(registry, event).record(id).created_at == registry.record(id).created_at,
        !(event matches Event::Advance { id: target, .. } && target == id) ==> step(
            registry,
            event,
        ).record(id).completed == registry.record(id).completed,
{
    let i = registry.row(id);
    assert(registry.bars[i].0 == id);
    assert(registry.bars[i].1.wf());
    match event {
        Event::Create { total, now } => {
            lemma_inserted_record(registry, RecordView::fresh(total, now), id);
        },
        Event::Advance { id: target, delta, now } => {
            lemma_updated_record(registry, target, delta, now, id);
            lemma_advanced_monotone(registry.record(id), delta, now);
        },
        Event::Configure { id: target, setting } => {
            lemma_configured_record(registry, target, setting, id);
            lemma_configured_wf(registry.record(id), setting);
        },
        Event::Close { id: target, pending, now } => {
            if pending > 0 {
                lemma_updated_wf(registry, target, pending, now);
                lemma_updated_record(registry, target, pending, now, id);
                lemma_removed_record(registry.updated(target, pending, now), target, id);
            } else {
                lemma_removed_record(registry, target, id);
            }
        },
    }
}

} // verus!
