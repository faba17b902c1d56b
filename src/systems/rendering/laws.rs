use vstd::prelude::*;
use crate::components::renderable::Renderable;
use crate::context::generational::Slot;
use crate::entities::Entity;
use super::{dirty_at, draw_bound, draw_end, renderable_in, upload_of, RangeState};

verus! {

/// The slot a pass leaves at position `i` is the step of `slots[i]` from the
/// regions the earlier slots left.
pub proof fn lemma_pass_slot(st: RangeState, slots: Seq<Slot<Entity>>, i: int)
    requires
        0 <= i < slots.len(),
    ensures
        st.pass(slots).1.len() == slots.len(),
        st.pass(slots).1[i] == st.pass(slots.take(i)).0.slot_step(slots[i]).1,
    decreases slots.len(),
{
    lemma_pass_len(st, slots);
    let last = slots.len() - 1;
    if i == last {
        assert(slots.drop_last() =~= slots.take(i));
    } else {
        lemma_pass_len(st, slots.drop_last());
        lemma_pass_slot(st, slots.drop_last(), i);
        assert(slots.drop_last().take(i) =~= slots.take(i));
    }
}

proof fn lemma_pass_len(st: RangeState, slots: Seq<Slot<Entity>>)
    ensures
        st.pass(slots).1.len() == slots.len(),
    decreases slots.len(),
{
    if slots.len() > 0 {
        lemma_pass_len(st, slots.drop_last());
    }
}

/// Once a renderable has its buffer regions, a pass keeps them, dirty or not:
/// re-uploads happen in place.
pub proof fn lemma_pass_keeps_regions(st: RangeState, slots: Seq<Slot<Entity>>, i: int)
    requires
        0 <= i < slots.len(),
        renderable_in(slots[i]) matches Some(r) && r.vertex_range is Some,
    ensures
        renderable_in(st.pass(slots).1[i]) matches Some(r2) && r2.vertex_range
            == renderable_in(slots[i]).unwrap().vertex_range && r2.index_range == renderable_in(
            slots[i],
        ).unwrap().index_range,
{
    lemma_pass_slot(st, slots, i);
}

/// After a pass, a renderable is still dirty only if it had no regions and
/// found no room: it is then as it was.
pub proof fn lemma_pass_cleans(st: RangeState, slots: Seq<Slot<Entity>>, i: int)
    requires
        0 <= i < slots.len(),
    ensures
        dirty_at(st.pass(slots).1, i) ==> renderable_in(st.pass(slots).1[i]) == renderable_in(
            slots[i],
        ) && renderable_in(slots[i]).unwrap().vertex_range is None,
{
    lemma_pass_slot(st, slots, i);
}

/// A pass over slots with nothing dirty changes nothing and uploads nothing.
pub proof fn lemma_pass_clean(st: RangeState, slots: Seq<Slot<Entity>>)
    requires
        forall|j: int| !dirty_at(slots, j),
    ensures
        st.pass(slots) == (st, slots, Seq::<super::Upload>::empty()),
    decreases slots.len(),
{
    if slots.len() > 0 {
        let rest = slots.drop_last();
        assert forall|j: int| !dirty_at(rest, j) by {
            if 0 <= j < rest.len() {
                assert(rest[j] == slots[j]);
                assert(!dirty_at(slots, j));
            }
        }
        lemma_pass_clean(st, rest);
        assert(!dirty_at(slots, slots.len() - 1));
        assert(rest.push(slots.last()) =~= slots);
    }
}

/// The slot `s` holding `r` in place of its renderable.
pub open spec fn with_renderable(s: Slot<Entity>, r: Renderable) -> Slot<Entity> {
    Slot { generation: s.generation, value: Some(s.value.unwrap().with_renderable(r)) }
}

proof fn lemma_pass_one_dirty(st: RangeState, slots: Seq<Slot<Entity>>, i: int)
    requires
        0 <= i < slots.len(),
        renderable_in(slots[i]) matches Some(r) && r.dirty && r.vertex_range is Some,
        forall|j: int| j != i ==> !dirty_at(slots, j),
    ensures
        ({
            let r = renderable_in(slots[i]).unwrap();
            let done = Renderable { dirty: false, ..r };
            st.pass(slots) == (st, slots.update(i, with_renderable(slots[i], done)), seq![upload_of(done)])
        }),
    decreases slots.len(),
{
    let rest = slots.drop_last();
    let r = renderable_in(slots[i]).unwrap();
    let done = Renderable { dirty: false, ..r };
    if i == slots.len() - 1 {
        assert forall|j: int| !dirty_at(rest, j) by {
            if 0 <= j < rest.len() {
                assert(rest[j] == slots[j]);
                assert(!dirty_at(slots, j));
            }
        }
        lemma_pass_clean(st, rest);
        assert(rest.push(with_renderable(slots[i], done)) =~= slots.update(i, with_renderable(slots[i], done)));
    } else {
        assert forall|j: int| j != i implies !dirty_at(rest, j) by {
            if 0 <= j < rest.len() {
                assert(rest[j] == slots[j]);
                assert(!dirty_at(slots, j));
            }
        }
        assert(rest[i] == slots[i]);
        lemma_pass_one_dirty(st, rest, i);
        assert(!dirty_at(slots, slots.len() - 1));
        assert(rest.update(i, with_renderable(slots[i], done)).push(slots.last()) =~= slots.update(
            i,
            with_renderable(slots[i], done),
        ));
    }
}

/// After a pass that left nothing dirty, changing one placed renderable's
/// position or size (which marks it dirty and keeps its regions) makes the next
/// pass re-upload that object alone, at its regions, and hand out no new region.
pub proof fn lemma_changed_object_reuploaded(
    st: RangeState,
    slots: Seq<Slot<Entity>>,
    i: int,
    changed: Renderable,
)
    requires
        forall|j: int| !dirty_at(slots, j),
        0 <= i < slots.len(),
        renderable_in(slots[i]) matches Some(r) && r.vertex_range is Some
            && changed.vertex_range == r.vertex_range && changed.index_range == r.index_range,
        changed.dirty,
    ensures
        ({
            let next = slots.update(i, with_renderable(slots[i], changed));
            let done = Renderable { dirty: false, ..changed };
            st.pass(next) == (st, slots.update(i, with_renderable(slots[i], done)), seq![upload_of(done)])
        }),
{
    let next = slots.update(i, with_renderable(slots[i], changed));
    let done = Renderable { dirty: false, ..changed };
    assert forall|j: int| j != i implies !dirty_at(next, j) by {
        if 0 <= j < next.len() {
            assert(next[j] == slots[j]);
            assert(!dirty_at(slots, j));
        }
    }
    lemma_pass_one_dirty(st, next, i);
    assert(next.update(i, with_renderable(next[i], done)) =~= slots.update(i, with_renderable(slots[i], done)));
}

/// The draw covers exactly the furthest index any renderable reaches: no
/// renderable reaches past it, and it is reached by one of them (or is zero).
pub proof fn lemma_draw_bound_is_max(slots: Seq<Slot<Entity>>)
    ensures
        forall|i: int| 0 <= i < slots.len() ==> draw_end(#[trigger] slots[i]) <= draw_bound(slots),
        draw_bound(slots) == 0 || exists|i: int| 0 <= i < slots.len() && draw_bound(slots) == draw_end(
            #[trigger] slots[i],
        ),
    decreases slots.len(),
{
    if slots.len() > 0 {
        let rest = slots.drop_last();
        lemma_draw_bound_is_max(rest);
        assert forall|i: int| 0 <= i < slots.len() implies draw_end(#[trigger] slots[i]) <= draw_bound(slots) by {
            if i < rest.len() {
                assert(rest[i] == slots[i]);
            }
        }
        if draw_bound(slots) != 0 {
            if draw_bound(slots) == draw_end(slots.last()) {
                assert(slots[slots.len() - 1] == slots.last());
            } else {
                let i = choose|i: int| 0 <= i < rest.len() && draw_bound(rest) == draw_end(#[trigger] rest[i]);
                assert(rest[i] == slots[i]);
            }
        }
    }
}

} // verus!
