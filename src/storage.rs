use vstd::prelude::*;
use arrayvec::ArrayVec;

use crate::unit::Unit;
use crate::resources::{
    ResourceKind, ResourceKinds, ResourceStock, StockItem, distinct_kinds, lemma_count_at, lemma_count_bounded,
    lemma_count_update,
};

verus! {

/// Most slots a storage building can have.
pub const MAX_STORAGE_SLOTS: usize = 8;

#[verifier::external_type_specification]
#[verifier::external_body]
#[verifier::reject_recursive_types(T)]
pub struct ExArrayVec<T, const CAP: usize>(ArrayVec<T, CAP>);

/// The slots held by an `ArrayVec`, in order.
pub uninterp spec fn slot_array_items(v: ArrayVec<StorageSlot, MAX_STORAGE_SLOTS>) -> Seq<
    StorageSlot,
>;

/// Relies on `ArrayVec::new`: a new array holds nothing.
#[verifier::external_body]
fn slot_array_new() -> (r: ArrayVec<StorageSlot, MAX_STORAGE_SLOTS>)
    ensures
        slot_array_items(r).len() == 0,
{
    ArrayVec::new()
}

/// Relies on `ArrayVec::push`: appends at the end; it panics only when full.
#[verifier::external_body]
fn slot_array_push(v: &mut ArrayVec<StorageSlot, MAX_STORAGE_SLOTS>, slot: StorageSlot)
    requires
        slot_array_items(*old(v)).len() < MAX_STORAGE_SLOTS,
    ensures
        slot_array_items(*final(v)) == slot_array_items(*old(v)).push(slot),
{
    v.push(slot)
}

/// Relies on `ArrayVec::len`: the number of elements held.
#[verifier::external_body]
fn slot_array_len(v: &ArrayVec<StorageSlot, MAX_STORAGE_SLOTS>) -> (r: usize)
    ensures
        r == slot_array_items(*v).len(),
{
    v.len()
}

/// Relies on indexing an `ArrayVec` through its slice: the element at `i`.
#[verifier::external_body]
fn slot_array_get(v: &ArrayVec<StorageSlot, MAX_STORAGE_SLOTS>, i: usize) -> (r: &StorageSlot)
    requires
        i < slot_array_items(*v).len(),
    ensures
        *r == slot_array_items(*v)[i as int],
{
    &v[i]
}

/// Relies on mutable indexing of an `ArrayVec` through its slice: the element
/// at `i`, written back in place.
#[verifier::external_body]
fn slot_array_get_mut(v: &mut ArrayVec<StorageSlot, MAX_STORAGE_SLOTS>, i: usize) -> (r:
    &mut StorageSlot)
    requires
        i < slot_array_items(*old(v)).len(),
    ensures
        *r == slot_array_items(*old(v))[i as int],
        slot_array_items(*final(v)) == slot_array_items(*old(v)).update(i as int, *final(r)),
{
    &mut v[i]
}

/// One fixed-capacity bucket of a storage building: free, or allocated to
/// exactly one resource kind.
#[derive(Debug)]
pub struct StorageSlot {
    pub stock: ResourceStock,
    pub allocated_resource_kind: Option<ResourceKind>,
}

impl StorageSlot {
    /// How many units the slot holds: the count of its allocated kind.
    pub open spec fn count(&self) -> nat {
        match self.allocated_resource_kind {
            Some(k) => self.stock.count_of(k),
            None => 0,
        }
    }

    /// The slot's shape: a free slot holds nothing; an allocated one holds at
    /// least one unit of its kind and nothing else.
    pub open spec fn shape_ok(&self) -> bool {
        &&& self.stock.wf()
        &&& match self.allocated_resource_kind {
            None => forall|j: int| 0 <= j < self.stock@.len() ==> self.stock@[j].count == 0,
            Some(k) => {
                &&& self.stock.accepts(k)
                &&& 0 < self.stock.count_of(k)
                &&& forall|j: int|
                    0 <= j < self.stock@.len() && self.stock@[j].kind != k
                        ==> self.stock@[j].count == 0
            },
        }
    }

    /// The slot's invariant for slots of capacity `cap`.
    pub open spec fn wf(&self, cap: u32) -> bool {
        self.shape_ok() && self.count() <= cap
    }

    pub fn is_free(&self) -> (r: bool)
        ensures
            r == self.allocated_resource_kind.is_none(),
    {
        self.allocated_resource_kind.is_none()
    }

    pub fn is_full(&self, slot_capacity: u32) -> (r: bool)
        requires
            self.stock.wf(),
        ensures
            r == (self.allocated_resource_kind.is_some() && self.count() >= slot_capacity),
    {
        match self.allocated_resource_kind {
            Some(kind) => self.stock.count(kind) >= slot_capacity,
            None => false,
        }
    }

    pub fn remaining_capacity(&self, slot_capacity: u32) -> (r: u32)
        requires
            self.wf(slot_capacity),
        ensures
            r == slot_capacity - self.count(),
    {
        match self.allocated_resource_kind {
            Some(kind) => slot_capacity - self.stock.count(kind),
            None => slot_capacity,
        }
    }

    /// Position and count of `kind` in the slot's stock.
    pub fn resource_index_and_count(&self, kind: ResourceKind) -> (r: (usize, u32))
        requires
            self.stock.wf(),
            self.stock.accepts(kind),
        ensures
            r.0 < self.stock@.len(),
            self.stock@[r.0 as int].kind == kind,
            r.1 == self.stock.count_of(kind),
    {
        match self.stock.find(kind) {
            Some((index, item)) => {
                proof {
                    lemma_count_at(self.stock@, index as int);
                }
                (index, item.count)
            },
            None => {
                proof {
                    assert(false);
                }
                (0, 0)
            },
        }
    }

    /// Adds up to `add_amount` units of `kind`, clamped to `slot_capacity`,
    /// and returns the new count. A free slot is allocated to `kind` only when
    /// something is added.
    pub fn increment_resource_count(&mut self, kind: ResourceKind, add_amount: u32, slot_capacity: u32) -> (r: u32)
        requires
            old(self).wf(slot_capacity),
            old(self).stock.accepts(kind),
            old(self).allocated_resource_kind.is_none() || old(self).allocated_resource_kind
                == Some(kind),
        ensures
            final(self).wf(slot_capacity),
            r == final(self).count(),
            r == if old(self).count() + add_amount > slot_capacity {
                slot_capacity as int
            } else {
                old(self).count() + add_amount
            },
            final(self).allocated_resource_kind == if r > 0 {
                Some(kind)
            } else {
                None
            },
            final(self).stock@.len() == old(self).stock@.len(),
            forall|j: int|
                0 <= j < old(self).stock@.len() ==> final(self).stock@[j].kind == old(
                    self,
                ).stock@[j].kind,
    {
        let (index, prev_count) = self.resource_index_and_count(kind);
        let ghost s0 = self.stock@;
        proof {
            lemma_count_at(s0, index as int);
        }
        let count: u32 = if add_amount >= slot_capacity - prev_count {
            slot_capacity
        } else {
            prev_count + add_amount
        };
        if count != prev_count {
            self.stock.set(index, StockItem { kind, count });
            self.allocated_resource_kind = Some(kind);
            proof {
                lemma_count_update(s0, index as int, count, kind);
                assert forall|j: int|
                    0 <= j < self.stock@.len() && self.stock@[j].kind != kind implies self.stock@[j].count
                    == 0 by {
                    assert(self.stock@[j] == s0[j]);
                }
                assert(self.stock.accepts(kind)) by {
                    assert(self.stock@[index as int].kind == kind);
                }
                assert(self.stock.wf()) by {
                    assert forall|i: int, j: int|
                        0 <= i < self.stock@.len() && 0 <= j < self.stock@.len() && i != j
                        implies self.stock@[i].kind != self.stock@[j].kind by {
                        assert(self.stock@[i].kind == s0[i].kind);
                        assert(self.stock@[j].kind == s0[j].kind);
                    }
                }
            }
        }
        count
    }

    /// Removes up to `sub_amount` units of `kind`, stopping at zero, and
    /// returns the new count. A slot that reaches zero is released.
    pub fn decrement_resource_count(&mut self, kind: ResourceKind, sub_amount: u32) -> (r: u32)
        requires
            old(self).shape_ok(),
            old(self).stock.accepts(kind),
        ensures
            final(self).shape_ok(),
            r == final(self).stock.count_of(kind),
            old(self).allocated_resource_kind == Some(kind) ==> {
                &&& r == if old(self).count() > sub_amount {
                    old(self).count() - sub_amount
                } else {
                    0
                }
                &&& r == final(self).count()
                &&& final(self).allocated_resource_kind == if r > 0 {
                    Some(kind)
                } else {
                    None
                }
            },
            old(self).allocated_resource_kind != Some(kind) ==> r == 0 && *final(self) == *old(
                self,
            ),
            final(self).stock@.len() == old(self).stock@.len(),
            forall|j: int|
                0 <= j < old(self).stock@.len() ==> final(self).stock@[j].kind == old(
                    self,
                ).stock@[j].kind,
    {
        let (index, prev_count) = self.resource_index_and_count(kind);
        let ghost s0 = self.stock@;
        proof {
            lemma_count_at(s0, index as int);
        }
        if prev_count != 0 {
            let count = prev_count.saturating_sub(sub_amount);
            proof {
                // Only the allocated kind can hold a nonzero count.
                assert(self.allocated_resource_kind == Some(kind));
                lemma_count_update(s0, index as int, count, kind);
            }
            self.stock.set(index, StockItem { kind, count });
            if count == 0 {
                self.allocated_resource_kind = None;
            }
            proof {
                assert forall|j: int|
                    0 <= j < self.stock@.len() && (self.stock@[j].kind != kind || count == 0)
                        implies self.stock@[j].count == 0 by {
                    if j != index {
                        assert(self.stock@[j] == s0[j]);
                    }
                }
                assert(self.stock.wf()) by {
                    assert forall|i: int, j: int|
                        0 <= i < self.stock@.len() && 0 <= j < self.stock@.len() && i != j
                        implies self.stock@[i].kind != self.stock@[j].kind by {
                        assert(self.stock@[i].kind == s0[i].kind);
                        assert(self.stock@[j].kind == s0[j].kind);
                    }
                }
                if count > 0 {
                    assert(self.stock.accepts(kind)) by {
                        assert(self.stock@[index as int].kind == kind);
                    }
                }
            }
            count
        } else {
            proof {
                if self.allocated_resource_kind == Some(kind) {
                    assert(false);
                }
            }
            0
        }
    }
}


/// What a slot can still take of kind `k`: everything when free, the room
/// left when allocated to `k`, nothing otherwise.
pub open spec fn slot_fit(slot: StorageSlot, cap: u32, k: ResourceKind) -> nat {
    match slot.allocated_resource_kind {
        None => cap as nat,
        Some(a) => if a == k && slot.count() <= cap {
            (cap - slot.count()) as nat
        } else {
            0
        },
    }
}

/// What the slots of `s` can take of kind `k` together.
pub open spec fn fit_in(s: Seq<StorageSlot>, cap: u32, k: ResourceKind) -> nat
    decreases s.len(),
{
    if s.len() == 0 {
        0
    } else {
        fit_in(s.drop_last(), cap, k) + slot_fit(s.last(), cap, k)
    }
}

/// The kinds of the entries of a stock, in order.
pub open spec fn stock_kinds(s: Seq<StockItem>) -> Seq<ResourceKind> {
    s.map_values(|it: StockItem| it.kind)
}

/// A fixed array of storage slots sharing one capacity.
#[derive(Debug)]
pub struct StorageSlots {
    pub slots: ArrayVec<StorageSlot, MAX_STORAGE_SLOTS>,
    pub slot_capacity: u32,
}

impl StorageSlots {
    pub open spec fn view_slots(&self) -> Seq<StorageSlot> {
        slot_array_items(self.slots)
    }

    pub open spec fn len(&self) -> nat {
        self.view_slots().len()
    }

    /// Kind the slot at `i` is allocated to, if any.
    pub open spec fn kind_at(&self, i: int) -> Option<ResourceKind> {
        self.view_slots()[i].allocated_resource_kind
    }

    /// Units held by the slot at `i`.
    pub open spec fn count_at(&self, i: int) -> nat {
        self.view_slots()[i].count()
    }

    /// True when every slot's stock has an entry for `k`.
    pub open spec fn accepts(&self, k: ResourceKind) -> bool {
        forall|i: int| 0 <= i < self.len() ==> #[trigger] self.view_slots()[i].stock.accepts(k)
    }

    /// Invariant: between one and the maximum number of slots, a nonzero
    /// capacity whose total fits a `u32`, and every slot well formed.
    pub open spec fn wf(&self) -> bool {
        &&& 0 < self.len() <= MAX_STORAGE_SLOTS
        &&& 0 < self.slot_capacity
        &&& self.len() * self.slot_capacity <= u32::MAX
        &&& forall|i: int| 0 <= i < self.len() ==> #[trigger] self.view_slots()[i].wf(self.slot_capacity)
        &&& forall|i: int| 0 <= i < self.len() ==> stock_kinds(#[trigger] self.view_slots()[i].stock@) == stock_kinds(self.view_slots()[0].stock@)
    }

    /// The slot at `i` is allocated to `k` and not full.
    pub open spec fn has_room_for(&self, i: int, k: ResourceKind) -> bool {
        self.kind_at(i) == Some(k) && self.count_at(i) < self.slot_capacity
    }

    /// `i` is the slot that receiving `k` goes to: the first slot allocated to
    /// `k` that is not full, or else the first free slot.
    pub open spec fn is_alloc_choice(&self, i: int, k: ResourceKind) -> bool {
        &&& 0 <= i < self.len()
        &&& {
            ||| (self.has_room_for(i, k) && forall|j: int| 0 <= j < i ==> !self.has_room_for(j, k))
            ||| ((forall|j: int| 0 <= j < self.len() ==> !self.has_room_for(j, k))
                && self.kind_at(i).is_none() && forall|j: int|
                0 <= j < i ==> self.kind_at(j).is_some())
        }
    }

    /// No slot can receive `k`.
    pub open spec fn no_alloc_choice(&self, k: ResourceKind) -> bool {
        forall|j: int| 0 <= j < self.len() ==> !self.has_room_for(j, k) && self.kind_at(j).is_some()
    }

    /// `i` is the first slot allocated to `k`.
    pub open spec fn is_first_slot_of(&self, i: int, k: ResourceKind) -> bool {
        &&& 0 <= i < self.len()
        &&& self.kind_at(i) == Some(k)
        &&& forall|j: int| 0 <= j < i ==> self.kind_at(j) != Some(k)
    }

    /// Some slot is allocated to `k`.
    pub open spec fn has_slot_for(&self, k: ResourceKind) -> bool {
        exists|i: int| 0 <= i < self.len() && self.kind_at(i) == Some(k)
    }

    /// `num_slots` free slots of capacity `slot_capacity`, each accepting the
    /// kinds of `resources_accepted`.
    pub fn new(resources_accepted: &ResourceKinds, num_slots: u32, slot_capacity: u32) -> (r: StorageSlots)
        requires
            resources_accepted@.len() > 0,
            distinct_kinds(resources_accepted@),
            0 < num_slots <= MAX_STORAGE_SLOTS,
            0 < slot_capacity,
            num_slots * slot_capacity <= u32::MAX,
        ensures
            r.wf(),
            r.len() == num_slots,
            r.slot_capacity == slot_capacity,
            forall|i: int| 0 <= i < r.len() ==> r.kind_at(i).is_none(),
            forall|k: ResourceKind| r.accepts(k) <==> resources_accepted@.contains(k),
    {
        let mut slots = slot_array_new();
        let mut n: u32 = 0;
        while n < num_slots
            invariant
                n <= num_slots <= MAX_STORAGE_SLOTS,
                slot_array_items(slots).len() == n,
                distinct_kinds(resources_accepted@),
                forall|i: int| 0 <= i < n ==> {
                    let sl = #[trigger] slot_array_items(slots)[i];
                    &&& sl.wf(slot_capacity)
                    &&& sl.allocated_resource_kind.is_none()
                    &&& forall|k: ResourceKind| sl.stock.accepts(k) <==> resources_accepted@.contains(k)
                    &&& stock_kinds(sl.stock@) == resources_accepted@
                },
            decreases num_slots - n,
        {
            let stock = ResourceStock::with_accepted_list(resources_accepted);
            proof {
                assert forall|k: ResourceKind| stock.accepts(k) <==> resources_accepted@.contains(k) by {
                    if stock.accepts(k) {
                        let j = choose|j: int| 0 <= j < stock@.len() && stock@[j].kind == k;
                        assert(resources_accepted@[j] == k);
                    }
                    if resources_accepted@.contains(k) {
                        let j = choose|j: int| 0 <= j < resources_accepted@.len() && resources_accepted@[j] == k;
                        assert(stock@[j].kind == k);
                    }
                }
            }
            assert(stock_kinds(stock@) =~= resources_accepted@);
            slot_array_push(&mut slots, StorageSlot { stock, allocated_resource_kind: None });
            n = n + 1;
        }
        let r = StorageSlots { slots, slot_capacity };
        proof {
            assert forall|k: ResourceKind| r.accepts(k) <==> resources_accepted@.contains(k) by {
                if resources_accepted@.contains(k) {
                    assert forall|i: int| 0 <= i < r.len() implies #[trigger] r.view_slots()[i].stock.accepts(k) by {
                        let sl = slot_array_items(slots)[i];
                    }
                } else {
                    let sl = slot_array_items(slots)[0];
                }
            }
        }
        r
    }

    pub fn num_slots(&self) -> (r: usize)
        ensures
            r == self.len(),
    {
        slot_array_len(&self.slots)
    }

    pub fn is_slot_free(&self, slot_index: usize) -> (r: bool)
        requires
            slot_index < self.len(),
        ensures
            r == self.kind_at(slot_index as int).is_none(),
    {
        slot_array_get(&self.slots, slot_index).is_free()
    }

    pub fn is_slot_full(&self, slot_index: usize) -> (r: bool)
        requires
            self.wf(),
            slot_index < self.len(),
        ensures
            r == (self.kind_at(slot_index as int).is_some() && self.count_at(slot_index as int)
                >= self.slot_capacity),
    {
        let slot = slot_array_get(&self.slots, slot_index);
        assert(slot.wf(self.slot_capacity));
        slot.is_full(self.slot_capacity)
    }

    /// Units of `kind` held by the slot at `slot_index`.
    pub fn slot_resource_count(&self, slot_index: usize, kind: ResourceKind) -> (r: u32)
        requires
            self.wf(),
            slot_index < self.len(),
            self.accepts(kind),
        ensures
            r == if self.kind_at(slot_index as int) == Some(kind) {
                self.count_at(slot_index as int)
            } else {
                0
            },
    {
        let slot = slot_array_get(&self.slots, slot_index);
        assert(slot.wf(self.slot_capacity));
        assert(slot.stock.accepts(kind));
        let (index, count) = slot.resource_index_and_count(kind);
        proof {
            lemma_count_at(slot.stock@, index as int);
        }
        count
    }

    /// Adds up to `add_amount` units of `kind` to the slot at `slot_index`;
    /// returns its new count.
    pub fn increment_slot_resource_count(&mut self, slot_index: usize, kind: ResourceKind, add_amount: u32) -> (r: u32)
        requires
            old(self).wf(),
            slot_index < old(self).len(),
            old(self).accepts(kind),
            old(self).kind_at(slot_index as int).is_none() || old(self).kind_at(slot_index as int) == Some(kind),
        ensures
            final(self).wf(),
            final(self).slot_capacity == old(self).slot_capacity,
            final(self).len() == old(self).len(),
            r == final(self).count_at(slot_index as int),
            r == if old(self).count_at(slot_index as int) + add_amount > old(self).slot_capacity {
                old(self).slot_capacity as int
            } else {
                old(self).count_at(slot_index as int) + add_amount
            },
            final(self).kind_at(slot_index as int) == if r > 0 { Some(kind) } else { None },
            forall|j: int| 0 <= j < old(self).len() && j != slot_index ==> final(self).view_slots()[j] == old(self).view_slots()[j],
            forall|k: ResourceKind| old(self).accepts(k) ==> final(self).accepts(k),
    {
        let cap = self.slot_capacity;
        let ghost s0 = self.view_slots();
        assert(s0[slot_index as int].wf(cap));
        assert(s0[slot_index as int].stock.accepts(kind));
        let slot = slot_array_get_mut(&mut self.slots, slot_index);
        let r = slot.increment_resource_count(kind, add_amount, cap);
        proof {
            let s1 = self.view_slots();
            assert forall|k: ResourceKind| old(self).accepts(k) implies self.accepts(k) by {
                assert forall|i: int| 0 <= i < self.len() implies #[trigger] self.view_slots()[i].stock.accepts(k) by {
                    assert(s0[i].stock.accepts(k));
                    if i == slot_index {
                        let j = choose|j: int| 0 <= j < s0[i].stock@.len() && s0[i].stock@[j].kind == k;
                        assert(s1[i].stock@[j].kind == k);
                    }
                }
            }
            assert forall|i: int| 0 <= i < self.len() implies #[trigger] self.view_slots()[i].wf(cap) by {
                assert(s0[i].wf(cap));
            }
            assert(stock_kinds(s1[slot_index as int].stock@) =~= stock_kinds(s0[slot_index as int].stock@));
            assert forall|i: int| 0 <= i < self.len() implies stock_kinds(#[trigger] self.view_slots()[i].stock@) == stock_kinds(self.view_slots()[0].stock@) by {
                assert(stock_kinds(s0[i].stock@) == stock_kinds(s0[0].stock@));
            }
        }
        r
    }

    /// Removes up to `sub_amount` units of `kind` from the slot at
    /// `slot_index`, stopping at zero; returns its new count. A slot that
    /// reaches zero is released.
    pub fn decrement_slot_resource_count(&mut self, slot_index: usize, kind: ResourceKind, sub_amount: u32) -> (r: u32)
        requires
            old(self).wf(),
            slot_index < old(self).len(),
            old(self).accepts(kind),
        ensures
            final(self).wf(),
            final(self).slot_capacity == old(self).slot_capacity,
            final(self).len() == old(self).len(),
            old(self).kind_at(slot_index as int) == Some(kind) ==> {
                &&& r == if old(self).count_at(slot_index as int) > sub_amount {
                    old(self).count_at(slot_index as int) - sub_amount
                } else {
                    0
                }
                &&& r == final(self).count_at(slot_index as int)
                &&& final(self).kind_at(slot_index as int) == if r > 0 { Some(kind) } else { None }
            },
            old(self).kind_at(slot_index as int) != Some(kind) ==> r == 0 && final(self).view_slots() == old(self).view_slots(),
            forall|j: int| 0 <= j < old(self).len() && j != slot_index ==> final(self).view_slots()[j] == old(self).view_slots()[j],
            forall|k: ResourceKind| old(self).accepts(k) ==> final(self).accepts(k),
    {
        let cap = self.slot_capacity;
        let ghost s0 = self.view_slots();
        assert(s0[slot_index as int].wf(cap));
        assert(s0[slot_index as int].stock.accepts(kind));
        let slot = slot_array_get_mut(&mut self.slots, slot_index);
        let r = slot.decrement_resource_count(kind, sub_amount);
        proof {
            let s1 = self.view_slots();
            if s0[slot_index as int].allocated_resource_kind != Some(kind) {
                assert(s1 =~= s0);
            }
            assert forall|k: ResourceKind| old(self).accepts(k) implies self.accepts(k) by {
                assert forall|i: int| 0 <= i < self.len() implies #[trigger] self.view_slots()[i].stock.accepts(k) by {
                    assert(s0[i].stock.accepts(k));
                    if i == slot_index {
                        let j = choose|j: int| 0 <= j < s0[i].stock@.len() && s0[i].stock@[j].kind == k;
                        assert(s1[i].stock@[j].kind == k);
                    }
                }
            }
            assert forall|i: int| 0 <= i < self.len() implies #[trigger] self.view_slots()[i].wf(cap) by {
                assert(s0[i].wf(cap));
            }
            assert(stock_kinds(s1[slot_index as int].stock@) =~= stock_kinds(s0[slot_index as int].stock@));
            assert forall|i: int| 0 <= i < self.len() implies stock_kinds(#[trigger] self.view_slots()[i].stock@) == stock_kinds(self.view_slots()[0].stock@) by {
                assert(stock_kinds(s0[i].stock@) == stock_kinds(s0[0].stock@));
            }
        }
        r
    }
}


impl StorageSlots {
    pub fn are_all_slots_full(&self) -> (r: bool)
        requires
            self.wf(),
        ensures
            r == forall|i: int| 0 <= i < self.len() ==> self.kind_at(i).is_some() && self.count_at(i) >= self.slot_capacity,
    {
        let n = slot_array_len(&self.slots);
        let mut i: usize = 0;
        while i < n
            invariant
                self.wf(),
                n == self.len(),
                i <= n,
                forall|j: int| 0 <= j < i ==> self.kind_at(j).is_some() && self.count_at(j) >= self.slot_capacity,
            decreases n - i,
        {
            if !self.is_slot_full(i) {
                return false;
            }
            i = i + 1;
        }
        true
    }

    /// The first free slot, if any.
    pub fn find_free_slot(&self) -> (r: Option<usize>)
        ensures
            match r {
                Some(i) => i < self.len() && self.kind_at(i as int).is_none() && forall|j: int| 0 <= j < i ==> self.kind_at(j).is_some(),
                None => forall|j: int| 0 <= j < self.len() ==> self.kind_at(j).is_some(),
            },
    {
        let n = slot_array_len(&self.slots);
        let mut i: usize = 0;
        while i < n
            invariant
                n == self.len(),
                i <= n,
                forall|j: int| 0 <= j < i ==> self.kind_at(j).is_some(),
            decreases n - i,
        {
            if self.is_slot_free(i) {
                return Some(i);
            }
            i = i + 1;
        }
        None
    }

    /// The first slot allocated to `kind`, if any. Only equal kinds match.
    pub fn find_resource_slot(&self, kind: ResourceKind) -> (r: Option<usize>)
        ensures
            match r {
                Some(i) => self.is_first_slot_of(i as int, kind),
                None => !self.has_slot_for(kind),
            },
    {
        let n = slot_array_len(&self.slots);
        let mut i: usize = 0;
        while i < n
            invariant
                n == self.len(),
                i <= n,
                forall|j: int| 0 <= j < i ==> self.kind_at(j) != Some(kind),
            decreases n - i,
        {
            let slot = slot_array_get(&self.slots, i);
            match slot.allocated_resource_kind {
                Some(allocated_kind) => {
                    if allocated_kind == kind {
                        return Some(i);
                    }
                },
                None => {},
            }
            i = i + 1;
        }
        None
    }

    /// The slot that receiving `kind` goes to: the first one allocated to
    /// `kind` that is not full, or else the first free one.
    pub fn alloc_resource_slot(&self, kind: ResourceKind) -> (r: Option<usize>)
        requires
            self.wf(),
        ensures
            match r {
                Some(i) => self.is_alloc_choice(i as int, kind),
                None => self.no_alloc_choice(kind),
            },
    {
        let n = slot_array_len(&self.slots);
        let mut i: usize = 0;
        while i < n
            invariant
                self.wf(),
                n == self.len(),
                i <= n,
                forall|j: int| 0 <= j < i ==> !self.has_room_for(j, kind),
            decreases n - i,
        {
            let slot = slot_array_get(&self.slots, i);
            match slot.allocated_resource_kind {
                Some(allocated_kind) => {
                    if allocated_kind == kind && !self.is_slot_full(i) {
                        return Some(i);
                    }
                },
                None => {},
            }
            i = i + 1;
        }
        self.find_free_slot()
    }

    /// How many units of `kind` the slots can still take: the capacity of each
    /// free slot plus the room left in each slot allocated to `kind`.
    pub fn how_many_can_fit(&self, kind: ResourceKind) -> (r: u32)
        requires
            self.wf(),
        ensures
            r == fit_in(self.view_slots(), self.slot_capacity, kind),
    {
        let n = slot_array_len(&self.slots);
        let cap = self.slot_capacity;
        let ghost s = self.view_slots();
        let mut count: u32 = 0;
        let mut i: usize = 0;
        while i < n
            invariant
                self.wf(),
                s == self.view_slots(),
                cap == self.slot_capacity,
                n == s.len(),
                i <= n,
                count == fit_in(s.subrange(0, i as int), cap, kind),
                count <= i * cap,
            decreases n - i,
        {
            let slot = slot_array_get(&self.slots, i);
            assert(s[i as int].wf(cap));
            proof {
                assert(s.subrange(0, i + 1).drop_last() =~= s.subrange(0, i as int));
                assert(s.subrange(0, i + 1).last() == s[i as int]);
                assert((i + 1) * cap == i * cap + cap) by (nonlinear_arith);
                assert((i + 1) * cap <= n * cap) by (nonlinear_arith)
                    requires i + 1 <= n;
            }
            if slot.is_free() {
                count = count + cap;
            } else {
                match slot.allocated_resource_kind {
                    Some(allocated_kind) => {
                        if allocated_kind == kind {
                            count = count + slot.remaining_capacity(cap);
                        }
                    },
                    None => {},
                }
            }
            i = i + 1;
        }
        assert(s.subrange(0, n as int) =~= s);
        count
    }

    /// Puts up to `count` units of `kind` into the slot that
    /// `alloc_resource_slot` picks, clamped to its capacity; returns how many
    /// were taken (zero when no slot can take any).
    pub fn receive_resources(&mut self, kind: ResourceKind, count: u32) -> (r: u32)
        requires
            old(self).wf(),
            old(self).accepts(kind),
        ensures
            final(self).wf(),
            final(self).slot_capacity == old(self).slot_capacity,
            final(self).len() == old(self).len(),
            forall|k: ResourceKind| old(self).accepts(k) ==> final(self).accepts(k),
            received(*old(self), *final(self), kind, count, r),
    {
        let slot_index = match self.alloc_resource_slot(kind) {
            Some(slot_index) => slot_index,
            None => return 0,
        };
        proof {
            lemma_alloc_choice_unique(*self, slot_index as int, kind);
        }
        let prev_count = self.slot_resource_count(slot_index, kind);
        let new_count = self.increment_slot_resource_count(slot_index, kind, count);
        new_count - prev_count
    }
}

/// Receiving `count` units of `k` took `r` of them from `s0` to `s1`: the
/// slot that `alloc_resource_slot` picks took as many as fit, or nothing
/// changed when no slot can take `k`.
pub open spec fn received(s0: StorageSlots, s1: StorageSlots, k: ResourceKind, count: u32, r: u32) -> bool {
    &&& s0.no_alloc_choice(k) ==> r == 0 && s1.view_slots() == s0.view_slots()
    &&& forall|i: int| #[trigger] s0.is_alloc_choice(i, k) ==> {
        &&& r == if count > s0.slot_capacity - s0.count_at(i) {
            s0.slot_capacity - s0.count_at(i)
        } else {
            count as int
        }
        &&& s1.count_at(i) == s0.count_at(i) + r
        &&& s1.kind_at(i) == if s1.count_at(i) > 0 { Some(k) } else { None }
        &&& forall|j: int| 0 <= j < s0.len() && j != i ==> s1.view_slots()[j] == s0.view_slots()[j]
    }
}

/// At most one slot is the allocation choice for a kind.
pub proof fn lemma_alloc_choice_unique(s: StorageSlots, i: int, k: ResourceKind)
    requires
        s.is_alloc_choice(i, k),
    ensures
        forall|j: int| #[trigger] s.is_alloc_choice(j, k) ==> j == i,
        !s.no_alloc_choice(k),
{
    assert forall|j: int| #[trigger] s.is_alloc_choice(j, k) implies j == i by {
        if j < i {
            if s.has_room_for(i, k) {
                if !s.has_room_for(j, k) {
                    assert(!(forall|m: int| 0 <= m < s.len() ==> !s.has_room_for(m, k)));
                }
            } else {
                if s.has_room_for(j, k) {
                } else {
                    assert(s.kind_at(j).is_none());
                }
            }
        } else if j > i {
            if s.has_room_for(j, k) {
                if !s.has_room_for(i, k) {
                    assert(!(forall|m: int| 0 <= m < s.len() ==> !s.has_room_for(m, k)));
                }
            } else {
                assert(s.kind_at(i).is_none());
            }
        }
    }
}

/// Slot capacity law: in well-formed slots, which every operation keeps, no
/// slot holds more than the slot capacity, and a slot is free exactly when it
/// holds nothing.
pub proof fn lemma_slot_capacity(s: StorageSlots)
    requires
        s.wf(),
    ensures
        forall|i: int| 0 <= i < s.len() ==> s.count_at(i) <= s.slot_capacity,
        forall|i: int| 0 <= i < s.len() ==> (s.kind_at(i).is_none() <==> s.count_at(i) == 0),
{
    assert forall|i: int| 0 <= i < s.len() implies (s.kind_at(i).is_none() <==> s.count_at(i) == 0) && s.count_at(i) <= s.slot_capacity by {
        assert(s.view_slots()[i].wf(s.slot_capacity));
    }
}


/// In well-formed slots, a kind that one slot accepts every slot accepts.
pub proof fn lemma_accepts_uniform(s: StorageSlots, i: int, k: ResourceKind)
    requires
        s.wf(),
        0 <= i < s.len(),
        s.view_slots()[i].stock.accepts(k),
    ensures
        s.accepts(k),
{
    let si = s.view_slots()[i].stock@;
    let m = choose|m: int| 0 <= m < si.len() && si[m].kind == k;
    assert(stock_kinds(si)[m] == k);
    assert forall|j: int| 0 <= j < s.len() implies #[trigger] s.view_slots()[j].stock.accepts(k) by {
        let sj = s.view_slots()[j].stock@;
        assert(stock_kinds(sj) == stock_kinds(s.view_slots()[0].stock@));
        assert(stock_kinds(sj)[m] == k);
        assert(sj[m].kind == k);
    }
}

/// Configuration of a storage building.
#[derive(Clone, Debug)]
pub struct StorageConfig {
    pub name: String,
    pub tile_def_name: String,
    pub min_workers: u32,
    pub max_workers: u32,
    /// Resources the building can store.
    pub resources_accepted: ResourceKinds,
    /// Number of storage slots and the capacity of each.
    pub num_slots: u32,
    pub slot_capacity: u32,
}

impl StorageConfig {
    /// A configuration a storage building can be built from.
    pub open spec fn valid(&self) -> bool {
        &&& self.resources_accepted@.len() > 0
        &&& distinct_kinds(self.resources_accepted@)
        &&& 0 < self.num_slots <= MAX_STORAGE_SLOTS
        &&& 0 < self.slot_capacity
        &&& self.num_slots * self.slot_capacity <= u32::MAX
    }
}

/// The state of one slot: the kind it is allocated to and how many units it holds.
pub type SlotState = (Option<ResourceKind>, nat);

/// `i` is the first slot of `v` allocated to `k`.
pub open spec fn is_first_of(v: Seq<SlotState>, k: ResourceKind, i: int) -> bool {
    &&& 0 <= i < v.len()
    &&& v[i].0 == Some(k)
    &&& forall|j: int| 0 <= j < i ==> v[j].0 != Some(k)
}

/// The first slot of `v` allocated to `k`, or the length of `v` when none is.
pub open spec fn first_of(v: Seq<SlotState>, k: ResourceKind) -> int {
    if exists|i: int| is_first_of(v, k, i) {
        choose|i: int| is_first_of(v, k, i)
    } else {
        v.len() as int
    }
}

/// Taking one unit of `k`: the first slot allocated to `k` loses one unit and
/// is released when it reaches zero; nothing changes when no slot holds `k`.
pub open spec fn take_one(v: Seq<SlotState>, k: ResourceKind) -> Seq<SlotState> {
    let i = first_of(v, k);
    if i < v.len() {
        v.update(i, if v[i].1 > 1 {
            (Some(k), (v[i].1 - 1) as nat)
        } else {
            (None, 0nat)
        })
    } else {
        v
    }
}

/// The slots after taking one unit for each entry of `list`, in order.
pub open spec fn take_all(v: Seq<SlotState>, list: Seq<ResourceKind>) -> Seq<SlotState>
    decreases list.len(),
{
    if list.len() == 0 {
        v
    } else {
        take_one(take_all(v, list.drop_last()), list.last())
    }
}

/// Taking for the last entry of `list` found a slot.
pub open spec fn last_taken(v: Seq<SlotState>, list: Seq<ResourceKind>) -> bool {
    list.len() > 0 && first_of(take_all(v, list.drop_last()), list.last()) < v.len()
}

/// How many units of `k` taking for each entry of `list` gets.
pub open spec fn taken_count(v: Seq<SlotState>, list: Seq<ResourceKind>, k: ResourceKind) -> nat
    decreases list.len(),
{
    if list.len() == 0 {
        0
    } else {
        taken_count(v, list.drop_last(), k) + if list.last() == k && last_taken(v, list) {
            1nat
        } else {
            0nat
        }
    }
}

/// The bits of the kinds that taking for each entry of `list` gets.
pub open spec fn taken_bits(v: Seq<SlotState>, list: Seq<ResourceKind>) -> u32
    decreases list.len(),
{
    if list.len() == 0 {
        0
    } else {
        taken_bits(v, list.drop_last()) | if last_taken(v, list) {
            list.last().bits
        } else {
            0
        }
    }
}

/// Some kind of `list` has no slot in `s`.
pub open spec fn missing_any(s: StorageSlots, list: Seq<ResourceKind>) -> bool {
    exists|j: int| 0 <= j < list.len() && !s.has_slot_for(list[j])
}

/// A count after `t` more units are added, saturating at the `u32` maximum.
pub open spec fn add_units(c: nat, t: nat) -> nat {
    if c + t < u32::MAX {
        c + t
    } else {
        u32::MAX as nat
    }
}

/// The first slot of `v` allocated to `k` is `i`.
proof fn lemma_first_of(v: Seq<SlotState>, k: ResourceKind, i: int)
    requires
        is_first_of(v, k, i),
    ensures
        first_of(v, k) == i,
{
    let c = choose|c: int| is_first_of(v, k, c);
    if c < i {
        assert(v[c].0 == Some(k));
    } else if i < c {
        assert(v[i].0 == Some(k));
    }
}

/// No slot of `v` is allocated to `k`.
proof fn lemma_first_of_none(v: Seq<SlotState>, k: ResourceKind)
    requires
        forall|j: int| 0 <= j < v.len() ==> v[j].0 != Some(k),
    ensures
        first_of(v, k) == v.len(),
{
    if exists|i: int| is_first_of(v, k, i) {
        let c = choose|c: int| is_first_of(v, k, c);
        assert(v[c].0 == Some(k));
    }
}


/// A building that stores resources in fixed-capacity slots.
#[derive(Debug)]
pub struct StorageBuilding {
    pub config: StorageConfig,
    pub storage_slots: StorageSlots,
}

impl StorageBuilding {
    pub open spec fn wf(&self) -> bool {
        &&& self.storage_slots.wf()
        &&& forall|k: ResourceKind| self.config.resources_accepted@.contains(k) ==> self.storage_slots.accepts(k)
    }

    pub fn new(config: StorageConfig) -> (r: StorageBuilding)
        requires
            config.valid(),
        ensures
            r.wf(),
            r.config == config,
            r.storage_slots.len() == config.num_slots,
            r.storage_slots.slot_capacity == config.slot_capacity,
            forall|i: int| 0 <= i < r.storage_slots.len() ==> r.storage_slots.kind_at(i).is_none(),
    {
        let storage_slots = StorageSlots::new(&config.resources_accepted, config.num_slots, config.slot_capacity);
        StorageBuilding { config, storage_slots }
    }

    pub fn name(&self) -> (r: &String)
        ensures
            r == &self.config.name,
    {
        &self.config.name
    }

    /// True when every slot is full.
    pub fn is_full(&self) -> (r: bool)
        requires
            self.wf(),
        ensures
            r == forall|i: int| 0 <= i < self.storage_slots.len() ==> self.storage_slots.kind_at(i).is_some() && self.storage_slots.count_at(i) >= self.storage_slots.slot_capacity,
    {
        self.storage_slots.are_all_slots_full()
    }

    /// How many units of `kind` the building can still take.
    pub fn how_many_can_fit(&self, kind: ResourceKind) -> (r: u32)
        requires
            self.wf(),
        ensures
            r == fit_in(self.storage_slots.view_slots(), self.storage_slots.slot_capacity, kind),
    {
        self.storage_slots.how_many_can_fit(kind)
    }

    /// True when the building stores `kind`.
    pub fn accepts(&self, kind: ResourceKind) -> (r: bool)
        ensures
            r == self.config.resources_accepted@.contains(kind),
    {
        let mut i: usize = 0;
        while i < self.config.resources_accepted.len()
            invariant
                i <= self.config.resources_accepted@.len(),
                forall|j: int| 0 <= j < i ==> self.config.resources_accepted@[j] != kind,
            decreases self.config.resources_accepted@.len() - i,
        {
            if self.config.resources_accepted.get(i) == kind {
                return true;
            }
            i = i + 1;
        }
        false
    }

    /// Stores up to `count` units of `kind`; returns how many were taken.
    pub fn receive_resources(&mut self, kind: ResourceKind, count: u32) -> (r: u32)
        requires
            old(self).wf(),
            old(self).config.resources_accepted@.contains(kind),
        ensures
            final(self).wf(),
            final(self).config == old(self).config,
            final(self).storage_slots.slot_capacity == old(self).storage_slots.slot_capacity,
            final(self).storage_slots.len() == old(self).storage_slots.len(),
            received(old(self).storage_slots, final(self).storage_slots, kind, count, r),
    {
        self.storage_slots.receive_resources(kind, count)
    }
}


impl StorageSlots {
    /// Kind and count of every slot.
    pub open spec fn slot_states(&self) -> Seq<SlotState> {
        Seq::new(self.len(), |i: int| (self.kind_at(i), self.count_at(i)))
    }
}

impl StorageBuilding {
    /// One shopping trip: for each entry of `shopping_list`, in order, takes
    /// one unit from the first slot of that kind (which is released when it
    /// reaches zero) into `shopping_basket`, and returns the kinds taken. With
    /// `all_or_nothing`, a list with a kind that has no slot takes nothing and
    /// returns no kind.
    pub fn shop(&mut self, shopping_basket: &mut ResourceStock, shopping_list: &ResourceKinds, all_or_nothing: bool) -> (r: ResourceKind)
        requires
            old(self).wf(),
            old(shopping_basket).wf(),
        ensures
            final(self).wf(),
            final(shopping_basket).wf(),
            final(self).config == old(self).config,
            final(self).storage_slots.len() == old(self).storage_slots.len(),
            final(self).storage_slots.slot_capacity == old(self).storage_slots.slot_capacity,
            all_or_nothing && missing_any(old(self).storage_slots, shopping_list@) ==> {
                &&& r.bits == 0
                &&& final(self).storage_slots.view_slots() == old(self).storage_slots.view_slots()
                &&& final(shopping_basket)@ == old(shopping_basket)@
            },
            !(all_or_nothing && missing_any(old(self).storage_slots, shopping_list@)) ==> {
                &&& final(self).storage_slots.slot_states() == take_all(old(self).storage_slots.slot_states(), shopping_list@)
                &&& r.bits == taken_bits(old(self).storage_slots.slot_states(), shopping_list@)
                &&& forall|k: ResourceKind| #[trigger] final(shopping_basket).count_of(k) == add_units(
                    old(shopping_basket).count_of(k),
                    taken_count(old(self).storage_slots.slot_states(), shopping_list@, k),
                )
            },
    {
        let ghost b0 = *shopping_basket;
        let ghost list = shopping_list@;
        if all_or_nothing {
            let mut n: usize = 0;
            while n < shopping_list.len()
                invariant
                    all_or_nothing,
                    *self == *old(self),
                    self.wf(),
                    *shopping_basket == b0,
                    b0 == *old(shopping_basket),
                    shopping_basket.wf(),
                    list == shopping_list@,
                    n <= list.len(),
                    forall|j: int| 0 <= j < n ==> self.storage_slots.has_slot_for(list[j]),
                decreases list.len() - n,
            {
                match self.storage_slots.find_resource_slot(shopping_list.get(n)) {
                    Some(_) => {},
                    None => {
                        assert(!self.storage_slots.has_slot_for(list[n as int]));
                        assert(missing_any(old(self).storage_slots, shopping_list@));
                        return ResourceKind::empty();
                    },
                }
                n = n + 1;
            }
        }
        let ghost v0 = self.storage_slots.slot_states();
        proof {
            assert forall|k: ResourceKind| #[trigger] shopping_basket.count_of(k) == add_units(b0.count_of(k), 0) by {
                lemma_count_bounded(b0@, k);
            }
        }
        let mut kinds_added_to_basket = ResourceKind::empty();
        let mut n: usize = 0;
        assert(list.subrange(0, 0) =~= Seq::<ResourceKind>::empty());
        while n < shopping_list.len()
            invariant
                self.wf(),
                self.config == old(self).config,
                shopping_basket.wf(),
                b0 == *old(shopping_basket),
                v0 == old(self).storage_slots.slot_states(),
                list == shopping_list@,
                n <= list.len(),
                self.storage_slots.len() == old(self).storage_slots.len(),
                self.storage_slots.slot_capacity == old(self).storage_slots.slot_capacity,
                self.storage_slots.slot_states() == take_all(v0, list.subrange(0, n as int)),
                kinds_added_to_basket.bits == taken_bits(v0, list.subrange(0, n as int)),
                forall|k: ResourceKind| #[trigger] shopping_basket.count_of(k) == add_units(
                    b0.count_of(k),
                    taken_count(v0, list.subrange(0, n as int), k),
                ),
            decreases list.len() - n,
        {
            let wanted = shopping_list.get(n);
            let ghost prefix = list.subrange(0, n as int);
            let ghost next = list.subrange(0, n + 1);
            let ghost cur = self.storage_slots.slot_states();
            let ghost b1 = *shopping_basket;
            proof {
                assert(next.drop_last() =~= prefix);
                assert(next.last() == wanted);
                assert(cur.len() == v0.len());
            }
            match self.storage_slots.find_resource_slot(wanted) {
                Some(slot_index) => {
                    proof {
                        assert(is_first_of(cur, wanted, slot_index as int)) by {
                            assert forall|j: int| 0 <= j < slot_index implies cur[j].0 != Some(wanted) by {
                                assert(self.storage_slots.kind_at(j) != Some(wanted));
                            }
                        }
                        lemma_first_of(cur, wanted, slot_index as int);
                        let sl = self.storage_slots.view_slots()[slot_index as int];
                        assert(sl.wf(self.storage_slots.slot_capacity));
                        lemma_accepts_uniform(self.storage_slots, slot_index as int, wanted);
                    }
                    let ghost mid = self.storage_slots;
                    let prev_count = self.storage_slots.slot_resource_count(slot_index, wanted);
                    let new_count = self.storage_slots.decrement_slot_resource_count(slot_index, wanted, 1);
                    proof {
                        assert forall|k: ResourceKind| self.config.resources_accepted@.contains(k) implies self.storage_slots.accepts(k) by {
                            assert(mid.accepts(k));
                        }
                        let expected = take_one(cur, wanted);
                        assert forall|j: int| 0 <= j < cur.len() implies self.storage_slots.slot_states()[j] == expected[j] by {
                            if j != slot_index {
                                assert(self.storage_slots.view_slots()[j] == mid.view_slots()[j]);
                            }
                        }
                        assert(self.storage_slots.slot_states() =~= expected);
                        assert(last_taken(v0, next));
                    }
                    if new_count < prev_count {
                        shopping_basket.add(wanted);
                        kinds_added_to_basket.insert(wanted);
                        proof {
                            assert forall|k: ResourceKind| #[trigger] shopping_basket.count_of(k) == add_units(
                                b0.count_of(k),
                                taken_count(v0, next, k),
                            ) by {
                                assert(b1.count_of(k) == add_units(b0.count_of(k), taken_count(v0, prefix, k)));
                            }
                        }
                    } else {
                        assert(false);
                    }
                },
                None => {
                    proof {
                        assert forall|j: int| 0 <= j < cur.len() implies cur[j].0 != Some(wanted) by {
                            assert(self.storage_slots.kind_at(j) != Some(wanted));
                        }
                        lemma_first_of_none(cur, wanted);
                        assert(take_one(cur, wanted) == cur);
                        assert(!last_taken(v0, next));
                        let b = kinds_added_to_basket.bits;
                        assert(b | 0 == b) by (bit_vector);
                        assert forall|k: ResourceKind| #[trigger] shopping_basket.count_of(k) == add_units(
                            b0.count_of(k),
                            taken_count(v0, next, k),
                        ) by {
                            assert(b1.count_of(k) == add_units(b0.count_of(k), taken_count(v0, prefix, k)));
                        }
                    }
                },
            }
            n = n + 1;
        }
        proof {
            assert(list.subrange(0, list.len() as int) =~= list);
        }
        kinds_added_to_basket
    }
}


/// `item` is the first entry of `inv` that holds something.
pub open spec fn first_cargo(inv: Seq<StockItem>, item: StockItem) -> bool {
    exists|j: int| 0 <= j < inv.len() && inv[j] == item && item.count > 0 && forall|m: int| 0 <= m < j ==> inv[m].count == 0
}

impl StorageBuilding {
    /// A unit visits to unload: its first cargo entry, when the building
    /// stores that kind, goes in as `receive_resources` takes it, and the unit
    /// hands over what was taken. Returns whether the unit is now empty and
    /// should be despawned; a unit that still carries something stays and
    /// looks for another storage on a later tick.
    pub fn visited_by(&mut self, unit: &mut Unit) -> (r: bool)
        requires
            old(self).wf(),
            old(unit).inventory.wf(),
        ensures
            final(self).wf(),
            final(self).config == old(self).config,
            final(unit).inventory.wf(),
            final(unit).name == old(unit).name,
            final(unit).cell == old(unit).cell,
            final(unit).spawned == old(unit).spawned,
            final(unit).spawn_pool_index == old(unit).spawn_pool_index,
            r == ((exists|j: int| 0 <= j < old(unit).inventory@.len() && old(unit).inventory@[j].count > 0)
                && forall|j: int| 0 <= j < final(unit).inventory@.len() ==> final(unit).inventory@[j].count == 0),
            (forall|j: int| 0 <= j < old(unit).inventory@.len() ==> old(unit).inventory@[j].count == 0)
                ==> final(self).storage_slots == old(self).storage_slots && final(unit).inventory == old(unit).inventory,
            forall|item: StockItem| #[trigger] first_cargo(old(unit).inventory@, item) ==> {
                &&& !old(self).config.resources_accepted@.contains(item.kind) ==> final(self).storage_slots == old(self).storage_slots
                    && final(unit).inventory == old(unit).inventory
                &&& old(self).config.resources_accepted@.contains(item.kind) ==> exists|taken: u32| {
                    &&& #[trigger] received(old(self).storage_slots, final(self).storage_slots, item.kind, item.count, taken)
                    &&& final(unit).inventory.count_of(item.kind) == item.count - taken
                    &&& final(unit).inventory@.len() == old(unit).inventory@.len()
                    &&& forall|j: int| 0 <= j < old(unit).inventory@.len() && old(unit).inventory@[j].kind != item.kind
                        ==> final(unit).inventory@[j] == old(unit).inventory@[j]
                }
            },
    {
        match unit.peek_inventory() {
            Some(item) => {
                proof {
                    let j = choose|j: int| 0 <= j < old(unit).inventory@.len() && old(unit).inventory@[j] == item && item.count > 0
                        && forall|m: int| 0 <= m < j ==> old(unit).inventory@[m].count == 0;
                    lemma_count_at(old(unit).inventory@, j);
                    assert forall|it: StockItem| #[trigger] first_cargo(old(unit).inventory@, it) implies it == item by {
                        let j2 = choose|j2: int| 0 <= j2 < old(unit).inventory@.len() && old(unit).inventory@[j2] == it && it.count > 0
                            && forall|m: int| 0 <= m < j2 ==> old(unit).inventory@[m].count == 0;
                        if j2 < j {
                        } else if j < j2 {
                        }
                    }
                }
                if self.accepts(item.kind) {
                    let received_count = self.receive_resources(item.kind, item.count);
                    proof {
                        lemma_alloc_choice_exists(old(self).storage_slots, item.kind);
                        lemma_received_at_most(old(self).storage_slots, self.storage_slots, item.kind, item.count, received_count);
                    }
                    if received_count != 0 {
                        unit.give_resources(item.kind, received_count);
                    }
                    proof {
                        assert(received(old(self).storage_slots, self.storage_slots, item.kind, item.count, received_count));
                    }
                }
                unit.is_inventory_empty()
            },
            None => false,
        }
    }
}

/// Searching from `i` for the first slot with room for `k`.
proof fn lemma_first_room(s: StorageSlots, k: ResourceKind, i: int)
    requires
        0 <= i <= s.len(),
        forall|j: int| 0 <= j < i ==> !s.has_room_for(j, k),
        exists|j: int| i <= j < s.len() && s.has_room_for(j, k),
    ensures
        exists|c: int| s.is_alloc_choice(c, k),
    decreases s.len() - i,
{
    if s.has_room_for(i, k) {
        assert(s.is_alloc_choice(i, k));
    } else {
        lemma_first_room(s, k, i + 1);
    }
}

/// Searching from `i` for the first free slot, when no slot has room for `k`.
proof fn lemma_first_free(s: StorageSlots, k: ResourceKind, i: int)
    requires
        0 <= i <= s.len(),
        forall|j: int| 0 <= j < s.len() ==> !s.has_room_for(j, k),
        forall|j: int| 0 <= j < i ==> s.kind_at(j).is_some(),
        exists|j: int| i <= j < s.len() && s.kind_at(j).is_none(),
    ensures
        exists|c: int| s.is_alloc_choice(c, k),
    decreases s.len() - i,
{
    if s.kind_at(i).is_none() {
        assert(s.is_alloc_choice(i, k));
    } else {
        lemma_first_free(s, k, i + 1);
    }
}

/// Either no slot can receive `k`, or some slot is the one receiving goes to.
pub proof fn lemma_alloc_choice_exists(s: StorageSlots, k: ResourceKind)
    ensures
        s.no_alloc_choice(k) || exists|c: int| s.is_alloc_choice(c, k),
{
    if !s.no_alloc_choice(k) {
        if exists|j: int| 0 <= j < s.len() && s.has_room_for(j, k) {
            lemma_first_room(s, k, 0);
        } else {
            lemma_first_free(s, k, 0);
        }
    }
}

/// What receiving takes never exceeds what was offered.
pub proof fn lemma_received_at_most(s0: StorageSlots, s1: StorageSlots, k: ResourceKind, count: u32, r: u32)
    requires
        s0.wf(),
        received(s0, s1, k, count, r),
        s0.no_alloc_choice(k) || exists|i: int| s0.is_alloc_choice(i, k),
    ensures
        r <= count,
{
    if !s0.no_alloc_choice(k) {
        let i = choose|i: int| s0.is_alloc_choice(i, k);
        assert(s0.view_slots()[i].wf(s0.slot_capacity));
    }
}

} // verus!
