use vstd::prelude::*;
use slab::Slab;

use crate::building::{Building, BuildingArchetypeKind};

verus! {

#[verifier::external_type_specification]
#[verifier::external_body]
#[verifier::reject_recursive_types(T)]
pub struct ExSlab<T>(Slab<T>);

/// The buildings a `Slab` holds, by key.
pub uninterp spec fn slab_entries(s: Slab<Building>) -> Map<usize, Building>;

/// A slab with nothing stored.
pub open spec fn no_entries() -> Map<usize, Building> {
    Map::empty()
}

/// Relies on `Slab::with_capacity`: a new slab holds nothing.
#[verifier::external_body]
fn slab_with_capacity(capacity: usize) -> (r: Slab<Building>)
    ensures
        slab_entries(r) == no_entries(),
{
    Slab::with_capacity(capacity)
}

/// Relies on `Slab::insert`: the value is stored under a key that was vacant,
/// which is the vacant-list head or the entry count, so below `usize::MAX`.
#[verifier::external_body]
fn slab_insert(s: &mut Slab<Building>, b: Building) -> (r: usize)
    ensures
        !slab_entries(*old(s)).contains_key(r),
        r < usize::MAX,
        slab_entries(*final(s)) == slab_entries(*old(s)).insert(r, b),
{
    s.insert(b)
}

/// Relies on `Slab::try_remove`: the value under `key`, removed, or `None`
/// with nothing changed when the key is vacant.
#[verifier::external_body]
fn slab_try_remove(s: &mut Slab<Building>, key: usize) -> (r: Option<Building>)
    ensures
        slab_entries(*old(s)).contains_key(key) ==> r == Some(slab_entries(*old(s))[key])
            && slab_entries(*final(s)) == slab_entries(*old(s)).remove(key),
        !slab_entries(*old(s)).contains_key(key) ==> r.is_none() && slab_entries(*final(s))
            == slab_entries(*old(s)),
{
    s.try_remove(key)
}

/// Relies on `Slab::get`: the value under `key`, if any.
#[verifier::external_body]
fn slab_get(s: &Slab<Building>, key: usize) -> (r: Option<&Building>)
    ensures
        slab_entries(*s).contains_key(key) ==> r == Some(&slab_entries(*s)[key]),
        !slab_entries(*s).contains_key(key) ==> r.is_none(),
{
    s.get(key)
}

/// Relies on `Slab::get_mut`: the value under `key`, written back in place,
/// or `None` when the key is vacant.
#[verifier::external_body]
fn slab_get_mut(s: &mut Slab<Building>, key: usize) -> (r: Option<&mut Building>)
    ensures
        r.is_some() == slab_entries(*old(s)).contains_key(key),
        r matches Some(b) ==> *b == slab_entries(*old(s))[key] && slab_entries(*final(s))
            == slab_entries(*old(s)).insert(key, *final(b)),
        r.is_none() ==> slab_entries(*final(s)) == slab_entries(*old(s)),
{
    s.get_mut(key)
}

/// Relies on `Slab::contains`: whether a value is stored under `key`.
#[verifier::external_body]
fn slab_contains(s: &Slab<Building>, key: usize) -> (r: bool)
    ensures
        r == slab_entries(*s).contains_key(key),
{
    s.contains(key)
}

/// Relies on `Slab::clear`: nothing is left.
#[verifier::external_body]
fn slab_clear(s: &mut Slab<Building>)
    ensures
        slab_entries(*final(s)) == no_entries(),
{
    s.clear()
}

/// Relies on `Slab::iter`, which visits the occupied entries in ascending key
/// order: their keys.
#[verifier::external_body]
fn slab_keys(s: &Slab<Building>) -> (r: Vec<usize>)
    ensures
        forall|i: int, j: int| 0 <= i < j < r@.len() ==> r@[i] < r@[j],
        forall|k: usize| slab_entries(*s).contains_key(k) <==> r@.contains(k),
{
    s.iter().map(|(k, _)| k).collect()
}

/// The buildings of one archetype, each under a key that stays valid until
/// that building is removed.
#[derive(Debug)]
pub struct BuildingList {
    pub archetype_kind: BuildingArchetypeKind,
    pub buildings: Slab<Building>,
}

impl BuildingList {
    pub open spec fn entries(&self) -> Map<usize, Building> {
        slab_entries(self.buildings)
    }

    /// Every building is well formed and of the list's archetype.
    pub open spec fn wf(&self) -> bool {
        forall|k: usize| #[trigger] self.entries().contains_key(k) ==> self.entries()[k].wf()
            && self.entries()[k].archetype_kind_spec() == self.archetype_kind
    }

    pub fn new(archetype_kind: BuildingArchetypeKind, capacity: usize) -> (r: BuildingList)
        ensures
            r.wf(),
            r.archetype_kind == archetype_kind,
            r.entries() == no_entries(),
    {
        BuildingList { archetype_kind, buildings: slab_with_capacity(capacity) }
    }

    pub fn archetype_kind(&self) -> (r: BuildingArchetypeKind)
        ensures
            r == self.archetype_kind,
    {
        self.archetype_kind
    }

    pub fn clear(&mut self)
        ensures
            final(self).wf(),
            final(self).archetype_kind == old(self).archetype_kind,
            final(self).entries() == no_entries(),
    {
        slab_clear(&mut self.buildings);
    }

    pub fn try_get(&self, index: usize) -> (r: Option<&Building>)
        ensures
            self.entries().contains_key(index) ==> r == Some(&self.entries()[index]),
            !self.entries().contains_key(index) ==> r.is_none(),
    {
        slab_get(&self.buildings, index)
    }

    pub fn contains(&self, index: usize) -> (r: bool)
        ensures
            r == self.entries().contains_key(index),
    {
        slab_contains(&self.buildings, index)
    }

    /// The building under `index`, to change in place, if there is one.
    pub fn try_get_mut(&mut self, index: usize) -> (r: Option<&mut Building>)
        ensures
            final(self).archetype_kind == old(self).archetype_kind,
            r.is_some() == old(self).entries().contains_key(index),
            r matches Some(b) ==> *b == old(self).entries()[index] && final(self).entries()
                == old(self).entries().insert(index, *final(b)),
            r.is_none() ==> final(self).entries() == old(self).entries(),
    {
        slab_get_mut(&mut self.buildings, index)
    }

    /// Stores `building` under a fresh key and returns the key.
    pub fn add(&mut self, building: Building) -> (r: usize)
        requires
            old(self).wf(),
            building.wf(),
            building.archetype_kind_spec() == old(self).archetype_kind,
        ensures
            final(self).wf(),
            final(self).archetype_kind == old(self).archetype_kind,
            !old(self).entries().contains_key(r),
            r < usize::MAX,
            final(self).entries() == old(self).entries().insert(r, building),
    {
        slab_insert(&mut self.buildings, building)
    }

    /// Removes the building under `index`; an error when there is none.
    pub fn remove(&mut self, index: usize) -> (r: Result<(), String>)
        requires
            old(self).wf(),
        ensures
            final(self).wf(),
            final(self).archetype_kind == old(self).archetype_kind,
            r.is_ok() == old(self).entries().contains_key(index),
            final(self).entries() == old(self).entries().remove(index),
    {
        match slab_try_remove(&mut self.buildings, index) {
            Some(_) => Ok(()),
            None => {
                assert(old(self).entries().remove(index) =~= old(self).entries());
                Err("Slab index is already vacant!".to_owned())
            },
        }
    }

    /// The keys in use, ascending: the order the list visits its buildings.
    pub fn keys(&self) -> (r: Vec<usize>)
        ensures
            forall|i: int, j: int| 0 <= i < j < r@.len() ==> r@[i] < r@[j],
            forall|k: usize| self.entries().contains_key(k) <==> r@.contains(k),
    {
        slab_keys(&self.buildings)
    }

    /// `bs` lists the buildings under `keys`, which are the keys in use in
    /// ascending order.
    pub open spec fn in_key_order(&self, keys: Seq<usize>, bs: Seq<&Building>) -> bool {
        &&& keys.len() == bs.len()
        &&& forall|i: int, j: int| 0 <= i < j < keys.len() ==> keys[i] < keys[j]
        &&& forall|k: usize| self.entries().contains_key(k) <==> keys.contains(k)
        &&& forall|i: int| 0 <= i < keys.len() ==> *bs[i] == self.entries()[keys[i]]
    }

    /// The buildings, in ascending key order.
    pub fn iter(&self) -> (r: Vec<&Building>)
        ensures
            exists|keys: Seq<usize>| #[trigger] self.in_key_order(keys, r@),
    {
        let keys = self.keys();
        let mut out: Vec<&Building> = Vec::new();
        let mut i: usize = 0;
        while i < keys.len()
            invariant
                i <= keys@.len(),
                out@.len() == i,
                forall|k: usize| self.entries().contains_key(k) <==> keys@.contains(k),
                forall|j: int| 0 <= j < i ==> *out@[j] == self.entries()[keys@[j]],
            decreases keys@.len() - i,
        {
            let k = keys[i];
            assert(keys@.contains(k));
            match slab_get(&self.buildings, k) {
                Some(b) => out.push(b),
                None => {
                    assert(false);
                },
            }
            i = i + 1;
        }
        assert(self.in_key_order(keys@, out@));
        out
    }
}

} // verus!
