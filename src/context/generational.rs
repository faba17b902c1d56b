use vstd::prelude::*;

verus! {

/// Handle to a value held by a [`GenerationalArray`]: the slot it lives in and
/// the generation stamped on that slot when the value was added.
#[derive(Clone, Copy, Debug, PartialEq, Eq, Structural)]
pub struct Key {
    pub index: usize,
    pub generation: u64,
}

/// One entry of the store: the generation stamped when it was last filled,
/// and the value, `None` while the slot is free.
pub struct Slot<T> {
    pub generation: u64,
    pub value: Option<T>,
}

/// Abstract state of a [`GenerationalArray`].
pub struct StoreModel<T> {
    pub slots: Seq<Slot<T>>,
    /// Indices of free slots that may be handed out again, most recent last.
    pub free: Seq<usize>,
    /// The store-wide counter, advanced on every removal.
    pub generation: u64,
}

impl<T> StoreModel<T> {
    /// The value that `key` designates, if it is live.
    pub open spec fn lookup(self, key: Key) -> Option<T> {
        if key.index < self.slots.len() && self.slots[key.index as int].generation
            == key.generation {
            self.slots[key.index as int].value
        } else {
            None
        }
    }

    /// The value at a position, whatever its generation.
    pub open spec fn at(self, index: int) -> Option<T> {
        if 0 <= index < self.slots.len() {
            self.slots[index].value
        } else {
            None
        }
    }

    /// The same state with the value in slot `index` replaced, when there is one.
    pub open spec fn with_value(self, index: int, v: T) -> StoreModel<T> {
        StoreModel {
            slots: self.slots.update(
                index,
                Slot { generation: self.slots[index].generation, value: Some(v) },
            ),
            free: self.free,
            generation: self.generation,
        }
    }

    pub open spec fn wf(self) -> bool {
        &&& self.slots.len() <= usize::MAX
        &&& self.free.no_duplicates()
        &&& forall|i: int|
            #![trigger self.free[i]]
            0 <= i < self.free.len() ==> {
                &&& self.free[i] < self.slots.len()
                &&& self.slots[self.free[i] as int].value is None
                &&& self.slots[self.free[i] as int].generation < self.generation
            }
        &&& forall|i: int|
            #![trigger self.slots[i]]
            0 <= i < self.slots.len() ==> self.slots[i].generation <= self.generation
    }

    /// State and key after adding `v`: the most recently freed slot is reused,
    /// else a slot is appended; either way it is stamped with the current generation.
    pub open spec fn added(self, v: T) -> (StoreModel<T>, Key) {
        let filled = Slot { generation: self.generation, value: Some(v) };
        if self.free.len() > 0 {
            let index = self.free.last();
            (
                StoreModel {
                    slots: self.slots.update(index as int, filled),
                    free: self.free.drop_last(),
                    generation: self.generation,
                },
                Key { index, generation: self.generation },
            )
        } else {
            (
                StoreModel {
                    slots: self.slots.push(filled),
                    free: self.free,
                    generation: self.generation,
                },
                Key { index: self.slots.len() as usize, generation: self.generation },
            )
        }
    }

    /// State after removing `key`: nothing changes unless the key is live.
    /// Otherwise the slot is emptied and, while the counter can still advance,
    /// the slot is freed for reuse and the counter advances; once it cannot,
    /// the slot is retired and never handed out again.
    pub open spec fn removed(self, key: Key) -> StoreModel<T> {
        if self.lookup(key) is Some {
            let i = key.index as int;
            let slots = self.slots.update(
                i,
                Slot { generation: self.slots[i].generation, value: None },
            );
            if self.generation < u64::MAX {
                StoreModel {
                    slots,
                    free: self.free.push(key.index),
                    generation: (self.generation + 1) as u64,
                }
            } else {
                StoreModel { slots, free: self.free, generation: self.generation }
            }
        } else {
            self
        }
    }
}

/// One call on a store, for stating what holds across sequences of calls.
pub enum StoreOp<T> {
    Add(T),
    Remove(Key),
}

impl<T> StoreModel<T> {
    pub open spec fn apply(self, op: StoreOp<T>) -> StoreModel<T> {
        match op {
            StoreOp::Add(v) => self.added(v).0,
            StoreOp::Remove(k) => self.removed(k),
        }
    }

    /// State after the calls `ops`, in order.
    pub open spec fn run(self, ops: Seq<StoreOp<T>>) -> StoreModel<T>
        decreases ops.len(),
    {
        if ops.len() == 0 {
            self
        } else {
            self.apply(ops[0]).run(ops.drop_first())
        }
    }

    /// `key` points into a slot that has been emptied or refilled since the key
    /// was issued.
    pub open spec fn retired(self, key: Key) -> bool {
        &&& key.index < self.slots.len()
        &&& {
            ||| self.slots[key.index as int].generation > key.generation
            ||| (self.slots[key.index as int].generation == key.generation
                && self.slots[key.index as int].value is None)
        }
    }
}

proof fn lemma_apply_wf<T>(s: StoreModel<T>, op: StoreOp<T>)
    requires
        s.wf(),
        op is Add ==> s.slots.len() < usize::MAX,
    ensures
        s.apply(op).wf(),
        s.apply(op).slots.len() <= s.slots.len() + 1,
{
    match op {
        StoreOp::Add(v) => {
            let s1 = s.added(v).0;
            if s.free.len() > 0 {
                let last = s.free.len() - 1;
                assert(s.free[last] == s.free.last());
                assert forall|i: int| 0 <= i < s1.free.len() implies s1.free[i] == s.free[i]
                    && s1.free[i] != s.free.last() by {
                    assert(s.free[i] != s.free[last]);
                }
                assert forall|i: int, j: int|
                    0 <= i < s1.free.len() && 0 <= j < s1.free.len() && i != j
                    implies s1.free[i] != s1.free[j] by {
                    assert(s.free[i] != s.free[j]);
                }
            }
        },
        StoreOp::Remove(k) => {
            let s1 = s.removed(k);
            if s.lookup(k) is Some && s.generation < u64::MAX {
                assert forall|i: int| 0 <= i < s.free.len() implies s.free[i] != k.index by {
                    assert(s.slots[s.free[i] as int].value is None);
                }
                assert forall|i: int, j: int|
                    0 <= i < s1.free.len() && 0 <= j < s1.free.len() && i != j
                    implies s1.free[i] != s1.free[j] by {
                    if i < s.free.len() && j < s.free.len() {
                        assert(s.free[i] != s.free[j]);
                    } else if i < s.free.len() {
                        assert(s.free[i] != k.index);
                    } else {
                        assert(s.free[j] != k.index);
                    }
                }
            }
        },
    }
}

proof fn lemma_apply_keeps_live<T>(s: StoreModel<T>, op: StoreOp<T>, k: Key)
    requires
        s.wf(),
        s.lookup(k) is Some,
        op != StoreOp::<T>::Remove(k),
    ensures
        s.apply(op).lookup(k) == s.lookup(k),
{
    match op {
        StoreOp::Add(v) => {
            if s.free.len() > 0 {
                assert(s.free[s.free.len() - 1] == s.free.last());
            }
        },
        StoreOp::Remove(k2) => {
            assert(k2 != k);
        },
    }
}

proof fn lemma_apply_keeps_retired<T>(s: StoreModel<T>, op: StoreOp<T>, k: Key)
    requires
        s.wf(),
        s.retired(k),
    ensures
        s.apply(op).retired(k),
{
    match op {
        StoreOp::Add(v) => {
            if s.free.len() > 0 {
                assert(s.free[s.free.len() - 1] == s.free.last());
            }
        },
        StoreOp::Remove(k2) => {},
    }
}

/// A key handed out by `add` keeps designating its value through any sequence of
/// calls that does not remove that key.
pub proof fn lemma_key_live_until_removed<T>(s: StoreModel<T>, v: T, ops: Seq<StoreOp<T>>)
    requires
        s.wf(),
        s.slots.len() + ops.len() < usize::MAX,
        forall|i: int| 0 <= i < ops.len() ==> ops[i] != StoreOp::<T>::Remove(s.added(v).1),
    ensures
        s.added(v).0.run(ops).lookup(s.added(v).1) == Some(v),
{
    let k = s.added(v).1;
    lemma_apply_wf(s, StoreOp::Add(v));
    lemma_live_run(s.added(v).0, ops, k);
}

proof fn lemma_live_run<T>(s: StoreModel<T>, ops: Seq<StoreOp<T>>, k: Key)
    requires
        s.wf(),
        s.slots.len() + ops.len() <= usize::MAX,
        s.lookup(k) is Some,
        forall|i: int| 0 <= i < ops.len() ==> ops[i] != StoreOp::<T>::Remove(k),
    ensures
        s.run(ops).lookup(k) == s.lookup(k),
    decreases ops.len(),
{
    if ops.len() > 0 {
        lemma_apply_keeps_live(s, ops[0], k);
        lemma_apply_wf(s, ops[0]);
        assert forall|i: int| 0 <= i < ops.drop_first().len() implies ops.drop_first()[i]
            != StoreOp::<T>::Remove(k) by {
            assert(ops.drop_first()[i] == ops[i + 1]);
        }
        lemma_live_run(s.apply(ops[0]), ops.drop_first(), k);
    }
}

proof fn lemma_retired_run<T>(s: StoreModel<T>, ops: Seq<StoreOp<T>>, k: Key)
    requires
        s.wf(),
        s.slots.len() + ops.len() <= usize::MAX,
        s.retired(k),
    ensures
        s.run(ops).retired(k),
    decreases ops.len(),
{
    if ops.len() > 0 {
        lemma_apply_keeps_retired(s, ops[0], k);
        lemma_apply_wf(s, ops[0]);
        lemma_retired_run(s.apply(ops[0]), ops.drop_first(), k);
    }
}

/// Once a live key is removed it designates nothing, whatever calls follow,
/// even after its slot is handed out again.
pub proof fn lemma_removed_key_stays_dead<T>(s: StoreModel<T>, k: Key, ops: Seq<StoreOp<T>>)
    requires
        s.wf(),
        s.slots.len() + ops.len() <= usize::MAX,
        s.lookup(k) is Some,
    ensures
        s.removed(k).run(ops).lookup(k) is None,
{
    lemma_apply_wf(s, StoreOp::Remove(k));
    assert(s.removed(k).retired(k));
    lemma_retired_run(s.removed(k), ops, k);
}

/// Removing a live key and then adding a value reuses the removed key's slot;
/// the old key then designates nothing and the new one the new value. This holds
/// while the store-wide counter can still advance.
pub proof fn lemma_slot_reuse<T>(s: StoreModel<T>, k: Key, v: T)
    requires
        s.wf(),
        s.slots.len() < usize::MAX,
        s.lookup(k) is Some,
        s.generation < u64::MAX,
    ensures
        s.removed(k).added(v).1.index == k.index,
        s.removed(k).added(v).0.lookup(k) is None,
        s.removed(k).added(v).0.lookup(s.removed(k).added(v).1) == Some(v),
{
    let s1 = s.removed(k);
    assert(s1.free.last() == k.index);
}

/// A slot store: values behind generation-checked keys, with freed slots reused.
pub struct GenerationalArray<T> {
    entities: Vec<Slot<T>>,
    free_list: Vec<usize>,
    generation: u64,
}

impl<T> View for GenerationalArray<T> {
    type V = StoreModel<T>;

    closed spec fn view(&self) -> StoreModel<T> {
        StoreModel { slots: self.entities@, free: self.free_list@, generation: self.generation }
    }
}

impl<T> GenerationalArray<T> {
    pub open spec fn wf(&self) -> bool {
        self@.wf()
    }

    pub fn new() -> (r: GenerationalArray<T>)
        ensures
            r.wf(),
            r@.slots.len() == 0,
            r@.free.len() == 0,
            r@.generation == 0,
    {
        GenerationalArray { entities: Vec::new(), free_list: Vec::new(), generation: 0 }
    }

    pub fn add(&mut self, element: Box<T>) -> (key: Key)
        requires
            old(self).wf(),
        ensures
            final(self).wf(),
            (final(self)@, key) == old(self)@.added(*element),
    {
        let value = *element;
        let free_index = self.free_list.pop();
        match free_index {
            Some(index) => {
                let generation = self.generation;
                let container = &mut self.entities[index];
                container.generation = generation;
                container.value = Some(value);
                Key { index, generation }
            },
            None => {
                self.entities.push(Slot { generation: self.generation, value: Some(value) });
                Key { index: self.entities.len() - 1, generation: self.generation }
            },
        }
    }

    /// The value that `key` designates, or `None` if it was removed since or
    /// never came from this store.
    pub fn get(&mut self, key: &Key) -> (r: Option<&mut T>)
        requires
            old(self).wf(),
        ensures
            r is Some <==> old(self)@.lookup(*key) is Some,
            r is Some ==> {
                &&& Some(*r.unwrap()) == old(self)@.lookup(*key)
                &&& final(self)@ == old(self)@.with_value(key.index as int, *final(r.unwrap()))
            },
            r is None ==> final(self)@ == old(self)@,
    {
        if key.index >= self.entities.len() {
            return None;
        }
        if self.entities[key.index].generation != key.generation
            || self.entities[key.index].value.is_none() {
            return None;
        }
        let container = &mut self.entities[key.index];
        container.value.as_mut()
    }

    /// The value at a position, whatever its generation: used to walk the
    /// whole store without holding keys.
    pub fn get_raw(&mut self, index: usize) -> (r: Option<&mut T>)
        requires
            old(self).wf(),
        ensures
            r is Some <==> old(self)@.at(index as int) is Some,
            r is Some ==> {
                &&& Some(*r.unwrap()) == old(self)@.at(index as int)
                &&& final(self)@ == old(self)@.with_value(index as int, *final(r.unwrap()))
            },
            r is None ==> final(self)@ == old(self)@,
    {
        if index >= self.entities.len() {
            return None;
        }
        if self.entities[index].value.is_none() {
            return None;
        }
        let container = &mut self.entities[index];
        container.value.as_mut()
    }

    /// Number of slots, free ones included.
    pub fn raw_len(&self) -> (r: usize)
        ensures
            r == self@.slots.len(),
    {
        self.entities.len()
    }

    /// Removes the value that `key` designates; does nothing if the key is not live.
    pub fn remove(&mut self, key: &Key)
        requires
            old(self).wf(),
        ensures
            final(self).wf(),
            final(self)@ == old(self)@.removed(*key),
    {
        if key.index >= self.entities.len() {
            return;
        }
        if self.entities[key.index].generation != key.generation
            || self.entities[key.index].value.is_none() {
            return;
        }
        let generation = self.generation;
        let container = &mut self.entities[key.index];
        container.value = None;
        if generation < u64::MAX {
            self.free_list.push(key.index);
            self.generation = generation + 1;
        }
    }
}

} // verus!
