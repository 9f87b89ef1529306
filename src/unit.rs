use vstd::prelude::*;
use bitvec::vec::BitVec;

use crate::resources::{ResourceKind, ResourceStock, StockItem};
use crate::tiles::Cell;

verus! {

/// The live bits of the unit pool, held in a `BitVec`.
#[verifier::external_body]
pub struct SpawnFlags {
    bits: BitVec,
}

/// The bits the pool's `BitVec` holds, in order.
pub uninterp spec fn bit_flags(v: SpawnFlags) -> Seq<bool>;

/// Longest bit vector the pool may grow to.
pub const MAX_POOL_LEN: usize = usize::MAX / 8;

/// Relies on `BitVec::repeat`: `len` copies of `false`.
#[verifier::external_body]
fn bits_all_false(len: usize) -> (r: SpawnFlags)
    requires
        len <= MAX_POOL_LEN,
    ensures
        bit_flags(r) == Seq::new(len as nat, |i: int| false),
{
    SpawnFlags { bits: BitVec::repeat(false, len) }
}

/// Relies on `BitVec::len`: the number of bits.
#[verifier::external_body]
fn bits_len(v: &SpawnFlags) -> (r: usize)
    ensures
        r == bit_flags(*v).len(),
{
    v.bits.len()
}

/// Relies on indexing a bit slice: the bit at `i`.
#[verifier::external_body]
fn bits_get(v: &SpawnFlags, i: usize) -> (r: bool)
    requires
        i < bit_flags(*v).len(),
    ensures
        r == bit_flags(*v)[i as int],
{
    v.bits[i]
}

/// Relies on `BitSlice::set`: writes the bit at `i`; it panics only out of bounds.
#[verifier::external_body]
fn bits_set(v: &mut SpawnFlags, i: usize, b: bool)
    requires
        i < bit_flags(*old(v)).len(),
    ensures
        bit_flags(*final(v)) == bit_flags(*old(v)).update(i as int, b),
{
    v.bits.set(i, b)
}

/// Relies on `BitVec::push`: appends a bit; it panics only past the maximum length.
#[verifier::external_body]
fn bits_push(v: &mut SpawnFlags, b: bool)
    requires
        bit_flags(*old(v)).len() < MAX_POOL_LEN,
    ensures
        bit_flags(*final(v)) == bit_flags(*old(v)).push(b),
{
    v.bits.push(b)
}

/// Relies on `BitSlice::fill`: every bit becomes `b`.
#[verifier::external_body]
fn bits_fill(v: &mut SpawnFlags, b: bool)
    ensures
        bit_flags(*final(v)) == Seq::new(bit_flags(*old(v)).len(), |i: int| b),
{
    v.bits.fill(b)
}

/// Relies on `BitSlice::first_zero`: the index of the first bit that is clear.
#[verifier::external_body]
fn bits_first_zero(v: &SpawnFlags) -> (r: Option<usize>)
    ensures
        match r {
            Some(i) => i < bit_flags(*v).len() && !bit_flags(*v)[i as int] && forall|j: int|
                0 <= j < i ==> bit_flags(*v)[j],
            None => forall|j: int| 0 <= j < bit_flags(*v).len() ==> bit_flags(*v)[j],
        },
{
    v.bits.first_zero()
}

/// Settings of a kind of unit.
#[derive(Clone, Debug)]
pub struct UnitConfig {
    pub name: String,
    pub tile_def_name: String,
}

/// The unit configurations, looked up by tile name.
#[derive(Debug)]
pub struct UnitConfigs {
    pub configs: Vec<UnitConfig>,
}

impl UnitConfigs {
    pub fn new(configs: Vec<UnitConfig>) -> (r: UnitConfigs)
        ensures
            r.configs@ == configs@,
    {
        UnitConfigs { configs }
    }

    /// `i` is the first configuration named `name`.
    pub open spec fn is_first_named(&self, name: Seq<char>, i: int) -> bool {
        &&& 0 <= i < self.configs@.len()
        &&& self.configs@[i].name@ == name
        &&& forall|j: int| 0 <= j < i ==> self.configs@[j].name@ != name
    }

    /// The first configuration named `name`.
    pub fn find_config_by_name(&self, name: &String) -> (r: Option<&UnitConfig>)
        ensures
            match r {
                Some(c) => exists|i: int| #[trigger] self.is_first_named(name@, i) && self.configs@[i] == *c,
                None => forall|i: int| 0 <= i < self.configs@.len() ==> self.configs@[i].name@ != name@,
            },
    {
        let mut i: usize = 0;
        while i < self.configs.len()
            invariant
                i <= self.configs@.len(),
                forall|j: int| 0 <= j < i ==> self.configs@[j].name@ != name@,
            decreases self.configs@.len() - i,
        {
            if self.configs[i].name == *name {
                assert(self.is_first_named(name@, i as int));
                return Some(&self.configs[i]);
            }
            i = i + 1;
        }
        None
    }

    /// The first configuration whose tile is named `tile_def_name`.
    pub fn find_config_by_tile_name(&self, tile_def_name: &String) -> (r: Option<&UnitConfig>)
        ensures
            match r {
                Some(c) => exists|i: int| 0 <= i < self.configs@.len() && self.configs@[i] == *c
                    && c.tile_def_name@ == tile_def_name@,
                None => forall|i: int| 0 <= i < self.configs@.len() ==> self.configs@[i].tile_def_name@ != tile_def_name@,
            },
    {
        let mut i: usize = 0;
        while i < self.configs.len()
            invariant
                i <= self.configs@.len(),
                forall|j: int| 0 <= j < i ==> self.configs@[j].tile_def_name@ != tile_def_name@,
            decreases self.configs@.len() - i,
        {
            if self.configs[i].tile_def_name == *tile_def_name {
                return Some(&self.configs[i]);
            }
            i = i + 1;
        }
        None
    }
}

/// A mobile agent: where it stands, what it carries and which pool slot is its.
#[derive(Debug)]
pub struct Unit {
    pub name: String,
    pub cell: Cell,
    pub inventory: ResourceStock,
    pub spawn_pool_index: usize,
    pub spawned: bool,
}

impl Unit {
    /// An inert unit, as a despawned pool slot holds.
    pub open spec fn is_inert(&self) -> bool {
        !self.spawned && self.inventory@.len() == 0 && self.name@.len() == 0
    }

    /// A unit just spawned at `cell` from `config` into slot `index`.
    pub open spec fn is_fresh(&self, cell: Cell, config: UnitConfig, index: usize) -> bool {
        &&& self.spawned
        &&& self.cell == cell
        &&& self.name@ == config.name@
        &&& self.spawn_pool_index == index
        &&& self.inventory@.len() == 0
    }

    pub fn inert() -> (r: Unit)
        ensures
            r.is_inert(),
            r.inventory.wf(),
    {
        Unit {
            name: String::new(),
            cell: Cell { x: -1, y: -1 },
            inventory: ResourceStock::new(),
            spawn_pool_index: 0,
            spawned: false,
        }
    }

    pub fn new(cell: Cell, config: &UnitConfig, index: usize) -> (r: Unit)
        ensures
            r.is_fresh(cell, *config, index),
            r.inventory.wf(),
    {
        Unit {
            name: config.name.clone(),
            cell,
            inventory: ResourceStock::new(),
            spawn_pool_index: index,
            spawned: true,
        }
    }

    pub fn is_spawned(&self) -> (r: bool)
        ensures
            r == self.spawned,
    {
        self.spawned
    }

    pub fn name(&self) -> (r: &String)
        ensures
            r == &self.name,
    {
        &self.name
    }

    pub fn cell(&self) -> (r: Cell)
        ensures
            r == self.cell,
    {
        self.cell
    }

    pub fn spawn_pool_index(&self) -> (r: usize)
        ensures
            r == self.spawn_pool_index,
    {
        self.spawn_pool_index
    }

    /// Loads one kind of cargo.
    pub fn load_cargo(&mut self, kind: ResourceKind, count: u32)
        requires
            old(self).inventory.wf(),
        ensures
            final(self).inventory.wf(),
            final(self).inventory@ == seq![StockItem { kind, count }],
            final(self).name == old(self).name,
            final(self).cell == old(self).cell,
            final(self).spawned == old(self).spawned,
            final(self).spawn_pool_index == old(self).spawn_pool_index,
    {
        let mut inventory = ResourceStock::new();
        inventory.items.push(StockItem { kind, count });
        assert(inventory@ =~= seq![StockItem { kind, count }]);
        self.inventory = inventory;
    }

    /// The first cargo entry that holds something, if any.
    pub fn peek_inventory(&self) -> (r: Option<StockItem>)
        ensures
            match r {
                Some(item) => exists|j: int| 0 <= j < self.inventory@.len() && self.inventory@[j] == item && item.count > 0
                    && forall|m: int| 0 <= m < j ==> self.inventory@[m].count == 0,
                None => forall|j: int| 0 <= j < self.inventory@.len() ==> self.inventory@[j].count == 0,
            },
    {
        self.inventory.peek()
    }

    /// Hands over up to `count` units of `kind`; returns how many it gave.
    pub fn give_resources(&mut self, kind: ResourceKind, count: u32) -> (r: u32)
        requires
            old(self).inventory.wf(),
        ensures
            final(self).inventory.wf(),
            r == if count < old(self).inventory.count_of(kind) {
                count as nat
            } else {
                old(self).inventory.count_of(kind)
            },
            final(self).inventory.count_of(kind) == old(self).inventory.count_of(kind) - r,
            forall|j: int| 0 <= j < old(self).inventory@.len() && old(self).inventory@[j].kind != kind ==> final(self).inventory@[j] == old(self).inventory@[j],
            final(self).inventory@.len() == old(self).inventory@.len(),
            final(self).name == old(self).name,
            final(self).cell == old(self).cell,
            final(self).spawned == old(self).spawned,
            final(self).spawn_pool_index == old(self).spawn_pool_index,
    {
        self.inventory.remove(kind, count)
    }

    pub fn is_inventory_empty(&self) -> (r: bool)
        ensures
            r == (forall|j: int| 0 <= j < self.inventory@.len() ==> self.inventory@[j].count == 0),
    {
        self.inventory.is_empty()
    }

    /// Reinitializes the unit in place as spawned at `cell` from `config`.
    pub fn spawned(&mut self, cell: Cell, config: &UnitConfig, index: usize)
        ensures
            final(self).is_fresh(cell, *config, index),
            final(self).inventory.wf(),
    {
        *self = Unit::new(cell, config, index);
    }

    /// Resets the unit to the inert state.
    pub fn despawned(&mut self)
        ensures
            final(self).is_inert(),
            final(self).inventory.wf(),
    {
        *self = Unit::inert();
    }
}

/// A pool of reusable unit records with one live bit per record.
pub struct UnitSpawnPool {
    pub pool: Vec<Unit>,
    pub is_spawned_flags: SpawnFlags,
}

impl UnitSpawnPool {
    pub open spec fn flags(&self) -> Seq<bool> {
        bit_flags(self.is_spawned_flags)
    }

    pub open spec fn len(&self) -> nat {
        self.pool@.len()
    }

    /// Slot `i` holds a spawned unit.
    pub open spec fn is_live(&self, i: int) -> bool {
        0 <= i < self.len() && self.flags()[i]
    }

    /// Equal lengths; a live bit is set exactly for spawned units, each of
    /// which knows its own slot; dead slots hold inert units.
    pub open spec fn wf(&self) -> bool {
        &&& self.flags().len() == self.pool@.len()
        &&& self.pool@.len() <= MAX_POOL_LEN
        &&& forall|i: int| 0 <= i < self.pool@.len() ==> {
            &&& (#[trigger] self.flags()[i] == self.pool@[i].spawned)
            &&& self.pool@[i].inventory.wf()
            &&& self.flags()[i] ==> self.pool@[i].spawn_pool_index == i
            &&& !self.flags()[i] ==> self.pool@[i].is_inert()
        }
    }

    /// A pool of `capacity` dead slots.
    pub fn new(capacity: usize) -> (r: UnitSpawnPool)
        requires
            capacity <= MAX_POOL_LEN,
        ensures
            r.wf(),
            r.len() == capacity,
            forall|i: int| 0 <= i < capacity ==> !r.is_live(i),
    {
        let mut pool: Vec<Unit> = Vec::new();
        let mut i: usize = 0;
        while i < capacity
            invariant
                i <= capacity,
                pool@.len() == i,
                forall|j: int| 0 <= j < i ==> (#[trigger] pool@[j]).is_inert() && pool@[j].inventory.wf(),
            decreases capacity - i,
        {
            pool.push(Unit::inert());
            i = i + 1;
        }
        UnitSpawnPool { pool, is_spawned_flags: bits_all_false(capacity) }
    }

    pub fn is_valid(&self) -> (r: bool)
        ensures
            r == (self.pool@.len() == self.flags().len()),
    {
        self.pool.len() == bits_len(&self.is_spawned_flags)
    }

    pub fn num_slots(&self) -> (r: usize)
        ensures
            r == self.len(),
    {
        self.pool.len()
    }

    /// The unit in slot `index`, when it is spawned.
    pub fn try_get(&self, index: usize) -> (r: Option<&Unit>)
        requires
            self.wf(),
        ensures
            self.is_live(index as int) ==> r == Some(&self.pool@[index as int]),
            !self.is_live(index as int) ==> r.is_none(),
    {
        if index >= self.pool.len() || !bits_get(&self.is_spawned_flags, index) {
            return None;
        }
        Some(&self.pool[index])
    }

    /// The unit in slot `index`, to change in place, when it is spawned.
    pub fn try_get_mut(&mut self, index: usize) -> (r: Option<&mut Unit>)
        requires
            old(self).wf(),
        ensures
            r.is_some() == old(self).is_live(index as int),
            r matches Some(u) ==> *u == old(self).pool@[index as int] && final(self).pool@ == old(self).pool@.update(index as int, *final(u))
                && final(self).flags() == old(self).flags(),
            r.is_none() ==> *final(self) == *old(self),
    {
        if index >= self.pool.len() || !bits_get(&self.is_spawned_flags, index) {
            return None;
        }
        Some(&mut self.pool[index])
    }

    /// Spawns a unit at `cell` from `config` into the first dead slot, or into
    /// a new slot at the end when none is dead; returns the slot.
    pub fn spawn(&mut self, cell: Cell, config: &UnitConfig) -> (r: usize)
        requires
            old(self).wf(),
            old(self).len() < MAX_POOL_LEN,
        ensures
            final(self).wf(),
            r < final(self).len(),
            final(self).is_live(r as int),
            final(self).pool@[r as int].is_fresh(cell, *config, r),
            !old(self).is_live(r as int),
            forall|j: int| 0 <= j < r ==> old(self).is_live(j),
            r < old(self).len() ==> final(self).len() == old(self).len(),
            r == old(self).len() ==> final(self).len() == old(self).len() + 1,
            forall|j: int| 0 <= j < old(self).len() && j != r ==> #[trigger] final(self).pool@[j] == old(self).pool@[j] && final(self).flags()[j] == old(self).flags()[j],
    {
        match bits_first_zero(&self.is_spawned_flags) {
            Some(recycled_pool_index) => {
                self.pool.set(recycled_pool_index, Unit::new(cell, config, recycled_pool_index));
                bits_set(&mut self.is_spawned_flags, recycled_pool_index, true);
                recycled_pool_index
            },
            None => {
                let new_pool_index = self.pool.len();
                self.pool.push(Unit::new(cell, config, new_pool_index));
                bits_push(&mut self.is_spawned_flags, true);
                new_pool_index
            },
        }
    }

    /// Despawns the unit in slot `pool_index`: its bit is cleared and its
    /// record reset; the slot stays, for reuse.
    pub fn despawn_index(&mut self, pool_index: usize)
        requires
            old(self).wf(),
            pool_index < old(self).len(),
        ensures
            final(self).wf(),
            final(self).len() == old(self).len(),
            !final(self).is_live(pool_index as int),
            forall|j: int| 0 <= j < old(self).len() && j != pool_index ==> #[trigger] final(self).pool@[j] == old(self).pool@[j] && final(self).flags()[j] == old(self).flags()[j],
    {
        self.pool.set(pool_index, Unit::inert());
        bits_set(&mut self.is_spawned_flags, pool_index, false);
    }

    /// Despawns the unit with the slot that `unit` names.
    pub fn despawn(&mut self, unit: &Unit)
        requires
            old(self).wf(),
            unit.spawn_pool_index < old(self).len(),
        ensures
            final(self).wf(),
            final(self).len() == old(self).len(),
            !final(self).is_live(unit.spawn_pool_index as int),
            forall|j: int| 0 <= j < old(self).len() && j != unit.spawn_pool_index ==> #[trigger] final(self).pool@[j] == old(self).pool@[j] && final(self).flags()[j] == old(self).flags()[j],
    {
        let idx = unit.spawn_pool_index;
        let ghost before = *self;
        self.despawn_index(idx);
    }

    /// Despawns every unit; the slots stay.
    pub fn clear(&mut self)
        requires
            old(self).wf(),
        ensures
            final(self).wf(),
            final(self).len() == old(self).len(),
            forall|j: int| 0 <= j < old(self).len() ==> !final(self).is_live(j),
    {
        let n = self.pool.len();
        assert forall|j: int| 0 <= j < n implies (#[trigger] self.pool@[j]).inventory.wf() by {
            assert(self.flags()[j] == self.pool@[j].spawned);
        }
        let mut i: usize = 0;
        while i < n
            invariant
                n == self.pool@.len(),
                n == self.flags().len(),
                n <= MAX_POOL_LEN,
                i <= n,
                forall|j: int| 0 <= j < i ==> (#[trigger] self.pool@[j]).is_inert() && self.pool@[j].inventory.wf(),
                forall|j: int| i <= j < n ==> (#[trigger] self.pool@[j]).inventory.wf(),
            decreases n - i,
        {
            self.pool.set(i, Unit::inert());
            i = i + 1;
        }
        bits_fill(&mut self.is_spawned_flags, false);
    }

    /// The slots of the spawned units, ascending: the order they are visited.
    pub fn live_indices(&self) -> (r: Vec<usize>)
        requires
            self.wf(),
        ensures
            forall|i: int, j: int| 0 <= i < j < r@.len() ==> r@[i] < r@[j],
            forall|k: int| 0 <= k < r@.len() ==> self.is_live(r@[k] as int),
            forall|i: usize| self.is_live(i as int) ==> r@.contains(i),
    {
        let n = self.pool.len();
        let mut out: Vec<usize> = Vec::new();
        let mut i: usize = 0;
        while i < n
            invariant
                self.wf(),
                n == self.len(),
                i <= n,
                forall|a: int, b: int| 0 <= a < b < out@.len() ==> out@[a] < out@[b],
                forall|k: int| 0 <= k < out@.len() ==> out@[k] < i && self.is_live(out@[k] as int),
                forall|m: usize| m < i && self.is_live(m as int) ==> out@.contains(m),
            decreases n - i,
        {
            if bits_get(&self.is_spawned_flags, i) {
                let ghost o0 = out@;
                out.push(i);
                proof {
                    assert forall|m: usize| m < i + 1 && self.is_live(m as int) implies out@.contains(m) by {
                        if m < i {
                            let k = choose|k: int| 0 <= k < o0.len() && o0[k] == m;
                            assert(out@[k] == m);
                        } else {
                            assert(out@[o0.len() as int] == m);
                        }
                    }
                }
            }
            i = i + 1;
        }
        out
    }

    /// `us` lists the units of the slots `slots`, which are the live slots in
    /// ascending order.
    pub open spec fn in_slot_order(&self, slots: Seq<usize>, us: Seq<&Unit>) -> bool {
        &&& slots.len() == us.len()
        &&& forall|i: int, j: int| 0 <= i < j < slots.len() ==> slots[i] < slots[j]
        &&& forall|k: int| 0 <= k < slots.len() ==> self.is_live(slots[k] as int)
        &&& forall|i: usize| self.is_live(i as int) ==> slots.contains(i)
        &&& forall|k: int| 0 <= k < slots.len() ==> *us[k] == self.pool@[slots[k] as int]
    }

    /// The spawned units, by ascending slot: the order they are visited in.
    pub fn iter(&self) -> (r: Vec<&Unit>)
        requires
            self.wf(),
        ensures
            exists|slots: Seq<usize>| #[trigger] self.in_slot_order(slots, r@),
    {
        let live = self.live_indices();
        let mut out: Vec<&Unit> = Vec::new();
        let mut k: usize = 0;
        while k < live.len()
            invariant
                self.wf(),
                k <= live@.len(),
                out@.len() == k,
                forall|a: int| 0 <= a < live@.len() ==> self.is_live(live@[a] as int),
                forall|a: int| 0 <= a < k ==> *out@[a] == self.pool@[live@[a] as int],
            decreases live@.len() - k,
        {
            let i = live[k];
            out.push(&self.pool[i]);
            k = k + 1;
        }
        assert(self.in_slot_order(live@, out@));
        out
    }
}

/// Index stability: a spawned unit keeps its slot, and the slot keeps the
/// unit, across any spawn or despawn that leaves the slot alone (as those
/// operations' contracts state for every other slot).
pub proof fn lemma_live_slot_kept(before: UnitSpawnPool, after: UnitSpawnPool, i: int)
    requires
        before.wf(),
        after.wf(),
        before.is_live(i),
        before.len() <= after.len(),
        after.pool@[i] == before.pool@[i],
        after.flags()[i] == before.flags()[i],
    ensures
        after.is_live(i),
        after.pool@[i] == before.pool@[i],
        after.pool@[i].spawn_pool_index == i,
{
}

/// Slot reuse: once slot `i` is dead, the next spawn, which takes the first
/// dead slot `r` (or the end when none is dead), takes `i` or an earlier slot,
/// and takes `i` exactly when every slot before it is live.
pub proof fn lemma_spawn_reuses_first_dead(p: UnitSpawnPool, i: int, r: int)
    requires
        p.wf(),
        0 <= i < p.len(),
        !p.is_live(i),
        0 <= r <= p.len(),
        r < p.len() ==> !p.is_live(r),
        forall|j: int| 0 <= j < r ==> p.is_live(j),
    ensures
        r <= i,
        r == i <==> forall|j: int| 0 <= j < i ==> p.is_live(j),
{
    if r > i {
        assert(p.is_live(i));
    }
    if r < i {
        assert(!p.is_live(r));
    }
}

} // verus!
