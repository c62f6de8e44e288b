use vstd::prelude::*;
use crate::keys::{element_key, len_key, element_key_spec, len_key_spec};

verus! {

/// A sequence of `u64` elements named by a byte prefix.
///
/// Slots are allocated lazily: a slot at or beyond the end of `slots`, or one
/// holding `None`, is absent and reads as the default `0`.
pub struct StorageVec {
    prefix: Vec<u8>,
    stored_count: u32,
    slots: Vec<Option<u64>>,
}

/// `after` is `before` with `value` written at `index` if `index` is below
/// the length, and unchanged otherwise.
pub open spec fn item_set(before: StorageVec, index: u32, value: u64, after: StorageVec) -> bool {
    &&& after.wf()
    &&& after.prefix_spec() == before.prefix_spec()
    &&& after.count_spec() == before.count_spec()
    &&& forall|i: int|
        #[trigger] after.item_spec(i) == if i == index && index < before.count_spec() {
            value
        } else {
            before.item_spec(i)
        }
}

/// `after` is `before` with the slot at `index` cleared if `index` is below
/// the length, and unchanged otherwise.
pub open spec fn item_cleared(before: StorageVec, index: u32, after: StorageVec) -> bool {
    item_set(before, index, 0u64, after)
}

/// `after` is `before` with `value` appended.
pub open spec fn pushed(before: StorageVec, value: u64, after: StorageVec) -> bool {
    &&& after.wf()
    &&& after.prefix_spec() == before.prefix_spec()
    &&& after.count_spec() == before.count_spec() + 1
    &&& forall|i: int|
        #[trigger] after.item_spec(i) == if i == before.count_spec() {
            value
        } else {
            before.item_spec(i)
        }
}

/// `after` is `before` with its length set to `count` and every slot at or
/// beyond `count` cleared.
pub open spec fn count_set(before: StorageVec, count: u32, after: StorageVec) -> bool {
    &&& after.wf()
    &&& after.prefix_spec() == before.prefix_spec()
    &&& after.count_spec() == count
    &&& forall|i: int|
        #[trigger] after.item_spec(i) == if i >= count {
            0u64
        } else {
            before.item_spec(i)
        }
}

impl StorageVec {
    /// No slot exists at or beyond the length.
    pub closed spec fn wf(&self) -> bool {
        self.slots@.len() <= self.stored_count
    }

    /// The prefix that names this collection.
    pub closed spec fn prefix_spec(&self) -> Seq<u8> {
        self.prefix@
    }

    /// The stored length.
    pub closed spec fn count_spec(&self) -> nat {
        self.stored_count as nat
    }

    /// What a read of slot `i` returns: its value if present, else `0`.
    pub closed spec fn item_spec(&self, i: int) -> u64 {
        if 0 <= i < self.slots@.len() {
            match self.slots@[i] {
                Some(v) => v,
                None => 0u64,
            }
        } else {
            0u64
        }
    }

    /// The elements from index 0 up to the length.
    pub open spec fn view(&self) -> Seq<u64> {
        Seq::new(self.count_spec(), |i: int| self.item_spec(i))
    }

    /// An empty collection under `prefix`.
    pub fn new(prefix: Vec<u8>) -> (r: StorageVec)
        ensures
            r.wf(),
            r.prefix_spec() == prefix@,
            r.count_spec() == 0,
            forall|i: int| #[trigger] r.item_spec(i) == 0,
    {
        StorageVec { prefix, stored_count: 0, slots: Vec::new() }
    }

    /// The key under which slot `index` is stored.
    pub fn slot_key(&self, index: u32) -> (r: Vec<u8>)
        requires
            self.prefix_spec().len() + 4 <= usize::MAX,
        ensures
            r@ == element_key_spec(self.prefix_spec(), index),
    {
        element_key(&self.prefix, index)
    }

    /// The key under which the length is stored.
    pub fn count_key(&self) -> (r: Vec<u8>)
        requires
            self.prefix_spec().len() + 3 <= usize::MAX,
        ensures
            r@ == len_key_spec(self.prefix_spec()),
    {
        len_key(&self.prefix)
    }

    /// The number of elements.
    pub fn count(&self) -> (r: u32)
        ensures
            r == self.count_spec(),
    {
        self.stored_count
    }

    /// The element at `index`, or `0` where the slot is absent.
    pub fn item(&self, index: u32) -> (r: u64)
        ensures
            r == self.item_spec(index as int),
    {
        if (index as usize) < self.slots.len() {
            match self.slots[index as usize] {
                Some(v) => v,
                None => 0,
            }
        } else {
            0
        }
    }

    /// Writes `value` at `index` when `index < count()`; otherwise does nothing.
    pub fn set_item(&mut self, index: u32, value: u64)
        requires
            old(self).wf(),
        ensures
            item_set(*old(self), index, value, *final(self)),
    {
        if index < self.stored_count {
            self.write_slot(index, Some(value));
        }
    }

    /// Removes the element at `index` when `index < count()`; otherwise does
    /// nothing. The length is kept.
    pub fn clear_item(&mut self, index: u32)
        requires
            old(self).wf(),
        ensures
            item_cleared(*old(self), index, *final(self)),
    {
        if index < self.stored_count && (index as usize) < self.slots.len() {
            self.slots.set(index as usize, None);
        }
    }

    /// Stores `entry` in the slot at `index`, which lies below the length.
    fn write_slot(&mut self, index: u32, entry: Option<u64>)
        requires
            old(self).wf(),
            index < old(self).count_spec(),
        ensures
            final(self).wf(),
            final(self).prefix == old(self).prefix,
            final(self).stored_count == old(self).stored_count,
            forall|i: int|
                #![trigger final(self).slots@[i]]
                0 <= i < final(self).slots@.len() ==> (if i == index {
                    final(self).slots@[i] == entry
                } else if i < old(self).slots@.len() {
                    final(self).slots@[i] == old(self).slots@[i]
                } else {
                    final(self).slots@[i] == None::<u64>
                }),
            final(self).slots@.len() >= old(self).slots@.len(),
            final(self).slots@.len() > index,
    {
        if (index as usize) < self.slots.len() {
            self.slots.set(index as usize, entry);
        } else {
            while self.slots.len() < index as usize
                invariant
                    self.slots@.len() <= index,
                    self.slots@.len() >= old(self).slots@.len(),
                    self.prefix == old(self).prefix,
                    self.stored_count == old(self).stored_count,
                    index < self.stored_count,
                    forall|i: int|
                        #![trigger self.slots@[i]]
                        0 <= i < self.slots@.len() ==> (if i < old(self).slots@.len() {
                            self.slots@[i] == old(self).slots@[i]
                        } else {
                            self.slots@[i] == None::<u64>
                        }),
                decreases index - self.slots@.len(),
            {
                self.slots.push(None);
            }
            self.slots.push(entry);
        }
    }

    /// Appends `value` at index `count()` and grows the length by one.
    pub fn push(&mut self, value: u64)
        requires
            old(self).wf(),
            old(self).count_spec() < u32::MAX,
        ensures
            pushed(*old(self), value, *final(self)),
            final(self)@ == old(self)@.push(value),
    {
        let len = self.stored_count;
        self.stored_count = len + 1;
        self.write_slot(len, Some(value));
        assert(final(self)@ =~= old(self)@.push(value));
    }

    /// Sets the length to `count`, clearing every slot in `[count, count())`.
    pub fn set_count(&mut self, count: u32)
        requires
            old(self).wf(),
        ensures
            count_set(*old(self), count, *final(self)),
    {
        if (count as usize) < self.slots.len() {
            self.slots.truncate(count as usize);
        }
        self.stored_count = count;
    }

    /// The elements from index 0 up to `count()`.
    pub fn items(&self) -> (r: Vec<u64>)
        ensures
            r@ == self@,
    {
        let mut r: Vec<u64> = Vec::new();
        let mut i: u32 = 0;
        while i < self.stored_count
            invariant
                i <= self.stored_count,
                r@ =~= self@.subrange(0, i as int),
            decreases self.stored_count - i,
        {
            let v = self.item(i);
            r.push(v);
            i = i + 1;
        }
        r
    }

    /// Replaces the whole collection by `items`, in order.
    pub fn set_items(&mut self, items: &Vec<u64>)
        requires
            old(self).wf(),
            items@.len() <= u32::MAX,
        ensures
            final(self).wf(),
            final(self).prefix_spec() == old(self).prefix_spec(),
            final(self).count_spec() == items@.len(),
            final(self)@ == items@,
            forall|i: int| i >= items@.len() ==> #[trigger] final(self).item_spec(i) == 0,
    {
        let mut slots: Vec<Option<u64>> = Vec::new();
        let mut i: usize = 0;
        while i < items.len()
            invariant
                i <= items@.len(),
                slots@.len() == i,
                forall|j: int| 0 <= j < i ==> #[trigger] slots@[j] == Some(items@[j]),
            decreases items@.len() - i,
        {
            slots.push(Some(items[i]));
            i = i + 1;
        }
        self.slots = slots;
        self.stored_count = items.len() as u32;
        assert(final(self)@ =~= items@);
    }
}

/// Every slot at or beyond the length reads as the default.
pub proof fn lemma_default_beyond_count(v: StorageVec, i: int)
    requires
        v.wf(),
        i >= v.count_spec(),
    ensures
        v.item_spec(i) == 0,
{
}

/// A value pushed at index `count()` reads back at that index.
pub proof fn lemma_push_round_trip(before: StorageVec, value: u64, after: StorageVec)
    requires
        pushed(before, value, after),
    ensures
        after.item_spec(before.count_spec() as int) == value,
{
}

/// After shrinking to `n`, every slot in `[n, old count)` reads as the
/// default, and still does after the length is set again, to any value,
/// without writing those slots.
pub proof fn lemma_shrink_clears(
    a: StorageVec,
    n: u32,
    b: StorageVec,
    m: u32,
    c: StorageVec,
    i: int,
)
    requires
        count_set(a, n, b),
        count_set(b, m, c),
        n <= i < a.count_spec(),
    ensures
        b.item_spec(i) == 0,
        c.item_spec(i) == 0,
{
    assert(b.item_spec(i) == 0);
    lemma_default_beyond_count(b, i);
}

/// A write at index `count()` is rejected: that slot still reads as the
/// default afterwards.
pub proof fn lemma_set_item_at_count_is_no_op(a: StorageVec, value: u64, b: StorageVec)
    requires
        a.wf(),
        item_set(a, a.count_spec() as u32, value, b),
    ensures
        b.item_spec(a.count_spec() as int) == 0,
        b@ == a@,
{
    lemma_default_beyond_count(a, a.count_spec() as int);
    assert(b@ =~= a@);
}

/// Clearing the same index twice in a row leaves what clearing it once left.
pub proof fn lemma_clear_idempotent(a: StorageVec, index: u32, b: StorageVec, c: StorageVec)
    requires
        item_cleared(a, index, b),
        item_cleared(b, index, c),
    ensures
        c.count_spec() == b.count_spec(),
        forall|i: int| #[trigger] c.item_spec(i) == b.item_spec(i),
        c@ == b@,
{
    assert forall|i: int| #[trigger] c.item_spec(i) == b.item_spec(i) by {
        assert(c.item_spec(i) == b.item_spec(i));
    }
    assert(c@ =~= b@);
}

/// `states[k + 1]` is `states[k]` with `values[k]` pushed, for every `k`.
pub open spec fn push_chain(states: Seq<StorageVec>, values: Seq<u64>) -> bool {
    &&& states.len() == values.len() + 1
    &&& forall|k: int| 0 <= k < values.len() ==> pushed(#[trigger] states[k], values[k], states[k + 1])
}

/// After `n` pushes starting from length `C` the length is `C + n`, and the
/// `k`-th pushed value reads back at index `C + k`.
pub proof fn lemma_pushes(states: Seq<StorageVec>, values: Seq<u64>)
    requires
        push_chain(states, values),
    ensures
        states.last().count_spec() == states[0].count_spec() + values.len(),
        forall|k: int|
            0 <= k < values.len() ==> #[trigger] states.last().item_spec(
                states[0].count_spec() + k,
            ) == values[k],
        forall|i: int| i < states[0].count_spec() ==> #[trigger] states.last().item_spec(i) == states[0].item_spec(i),
    decreases values.len(),
{
    if values.len() > 0 {
        let n = values.len() - 1;
        let pre = states.subrange(0, n + 1);
        let vs = values.subrange(0, n);
        assert forall|k: int| 0 <= k < vs.len() implies pushed(#[trigger] pre[k], vs[k], pre[k + 1]) by {
            assert(pushed(states[k], values[k], states[k + 1]));
        }
        lemma_pushes(pre, vs);
        assert(pushed(states[n], values[n], states[n + 1]));
        assert(pre.last() == states[n]);
        assert forall|k: int|
            0 <= k < values.len() implies #[trigger] states.last().item_spec(
                states[0].count_spec() + k,
            ) == values[k] by {
            if k < n {
                assert(pre.last().item_spec(states[0].count_spec() + k) == vs[k]);
            }
        }
        assert forall|i: int| i < states[0].count_spec() implies #[trigger] states.last().item_spec(i) == states[0].item_spec(i) by {
            assert(pre.last().item_spec(i) == pre[0].item_spec(i));
        }
    }
}

/// Replacing the contents by `items` gives the same elements as pushing
/// `items` one by one onto an empty collection.
pub proof fn lemma_set_items_as_pushes(
    replaced: StorageVec,
    items: Seq<u64>,
    states: Seq<StorageVec>,
)
    requires
        replaced@ == items,
        states[0].count_spec() == 0,
        push_chain(states, items),
    ensures
        states.last()@ == replaced@,
{
    lemma_pushes(states, items);
    let last = states.last();
    assert(last.count_spec() == items.len());
    assert forall|k: int| 0 <= k < items.len() implies last@[k] == items[k] by {
        assert(last.item_spec(states[0].count_spec() + k) == items[k]);
    }
    assert(last@ =~= items);
}

} // verus!
