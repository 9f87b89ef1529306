use vstd::prelude::*;

verus! {

/// Bit of each concrete resource kind.
pub const RICE_BIT: u32 = 1;
pub const MEAT_BIT: u32 = 2;
pub const FISH_BIT: u32 = 4;
pub const WOOD_BIT: u32 = 8;
pub const STONE_BIT: u32 = 16;

/// A resource kind as a bitmask: one bit for a concrete kind, several bits
/// for an "any of these" filter.
#[derive(Clone, Copy, Debug, PartialEq, Eq, Structural)]
pub struct ResourceKind {
    pub bits: u32,
}

impl ResourceKind {
    pub fn empty() -> (r: ResourceKind)
        ensures
            r.bits == 0,
    {
        ResourceKind { bits: 0 }
    }

    pub fn rice() -> (r: ResourceKind)
        ensures
            r.bits == RICE_BIT,
    {
        ResourceKind { bits: RICE_BIT }
    }

    pub fn meat() -> (r: ResourceKind)
        ensures
            r.bits == MEAT_BIT,
    {
        ResourceKind { bits: MEAT_BIT }
    }

    pub fn fish() -> (r: ResourceKind)
        ensures
            r.bits == FISH_BIT,
    {
        ResourceKind { bits: FISH_BIT }
    }

    pub fn wood() -> (r: ResourceKind)
        ensures
            r.bits == WOOD_BIT,
    {
        ResourceKind { bits: WOOD_BIT }
    }

    pub fn stone() -> (r: ResourceKind)
        ensures
            r.bits == STONE_BIT,
    {
        ResourceKind { bits: STONE_BIT }
    }

    /// All kinds of food, as an "any of" filter.
    pub fn foods() -> (r: ResourceKind)
        ensures
            r.bits == RICE_BIT | MEAT_BIT | FISH_BIT,
    {
        ResourceKind { bits: RICE_BIT | MEAT_BIT | FISH_BIT }
    }

    pub fn is_empty(&self) -> (r: bool)
        ensures
            r == (self.bits == 0),
    {
        self.bits == 0
    }

    /// True when every bit of `other` is set in `self`.
    pub fn contains(&self, other: ResourceKind) -> (r: bool)
        ensures
            r == (self.bits & other.bits == other.bits),
    {
        self.bits & other.bits == other.bits
    }

    /// True when `self` and `other` share a bit.
    pub fn intersects(&self, other: ResourceKind) -> (r: bool)
        ensures
            r == (self.bits & other.bits != 0),
    {
        self.bits & other.bits != 0
    }

    /// Adds the bits of `other`.
    pub fn insert(&mut self, other: ResourceKind)
        ensures
            final(self).bits == old(self).bits | other.bits,
    {
        self.bits = self.bits | other.bits;
    }
}

/// An ordered list of resource kinds: the kinds a stock accepts, or a list of
/// requirements where an entry with several bits means "any of".
#[derive(Clone, Debug)]
pub struct ResourceKinds {
    pub kinds: Vec<ResourceKind>,
}

/// No kind appears twice in `s`.
pub open spec fn distinct_kinds(s: Seq<ResourceKind>) -> bool {
    forall|i: int, j: int| 0 <= i < s.len() && 0 <= j < s.len() && i != j ==> s[i] != s[j]
}

impl View for ResourceKinds {
    type V = Seq<ResourceKind>;

    open spec fn view(&self) -> Seq<ResourceKind> {
        self.kinds@
    }
}

impl ResourceKinds {
    pub fn none() -> (r: ResourceKinds)
        ensures
            r@ == Seq::<ResourceKind>::empty(),
    {
        ResourceKinds { kinds: Vec::new() }
    }

    pub fn with_vec(kinds: Vec<ResourceKind>) -> (r: ResourceKinds)
        ensures
            r@ == kinds@,
    {
        ResourceKinds { kinds }
    }

    /// Every concrete kind, once each.
    pub fn all() -> (r: ResourceKinds)
        ensures
            r@ == seq![
                ResourceKind { bits: RICE_BIT },
                ResourceKind { bits: MEAT_BIT },
                ResourceKind { bits: FISH_BIT },
                ResourceKind { bits: WOOD_BIT },
                ResourceKind { bits: STONE_BIT },
            ],
            distinct_kinds(r@),
    {
        let r = ResourceKinds {
            kinds: vec![
                ResourceKind::rice(),
                ResourceKind::meat(),
                ResourceKind::fish(),
                ResourceKind::wood(),
                ResourceKind::stone(),
            ],
        };
        assert(r@ =~= seq![
            ResourceKind { bits: RICE_BIT },
            ResourceKind { bits: MEAT_BIT },
            ResourceKind { bits: FISH_BIT },
            ResourceKind { bits: WOOD_BIT },
            ResourceKind { bits: STONE_BIT },
        ]);
        r
    }

    /// The concrete food kinds, once each.
    pub fn foods() -> (r: ResourceKinds)
        ensures
            r@ == seq![
                ResourceKind { bits: RICE_BIT },
                ResourceKind { bits: MEAT_BIT },
                ResourceKind { bits: FISH_BIT },
            ],
            distinct_kinds(r@),
    {
        let r = ResourceKinds {
            kinds: vec![ResourceKind::rice(), ResourceKind::meat(), ResourceKind::fish()],
        };
        assert(r@ =~= seq![
            ResourceKind { bits: RICE_BIT },
            ResourceKind { bits: MEAT_BIT },
            ResourceKind { bits: FISH_BIT },
        ]);
        r
    }

    pub fn len(&self) -> (r: usize)
        ensures
            r == self@.len(),
    {
        self.kinds.len()
    }

    pub fn is_empty(&self) -> (r: bool)
        ensures
            r == (self@.len() == 0),
    {
        self.kinds.len() == 0
    }

    pub fn get(&self, i: usize) -> (r: ResourceKind)
        requires
            i < self@.len(),
        ensures
            r == self@[i as int],
    {
        self.kinds[i]
    }
}

/// One entry of a stock: a kind and how many units of it are held.
#[derive(Clone, Copy, Debug, PartialEq, Eq, Structural)]
pub struct StockItem {
    pub kind: ResourceKind,
    pub count: u32,
}

/// Resource counts, at most one entry per kind, in a fixed order.
#[derive(Clone, Debug)]
pub struct ResourceStock {
    pub items: Vec<StockItem>,
}

/// No two entries of `s` have the same kind.
pub open spec fn distinct_items(s: Seq<StockItem>) -> bool {
    forall|i: int, j: int|
        0 <= i < s.len() && 0 <= j < s.len() && i != j ==> s[i].kind != s[j].kind
}

/// How many units of `k` the entries of `s` hold.
pub open spec fn count_in(s: Seq<StockItem>, k: ResourceKind) -> nat
    decreases s.len(),
{
    if s.len() == 0 {
        0
    } else {
        count_in(s.drop_last(), k) + if s.last().kind == k {
            s.last().count as nat
        } else {
            0
        }
    }
}

/// The count of the entry at `i` in `s` is the count of its kind, when kinds are distinct.
pub proof fn lemma_count_at(s: Seq<StockItem>, i: int)
    requires
        distinct_items(s),
        0 <= i < s.len(),
    ensures
        count_in(s, s[i].kind) == s[i].count,
    decreases s.len(),
{
    if i < s.len() - 1 {
        let p = s.drop_last();
        assert(distinct_items(p));
        assert(p[i] == s[i]);
        lemma_count_at(p, i);
        assert(s.last() == s[s.len() - 1]);
    } else {
        lemma_count_absent(s.drop_last(), s[i].kind);
    }
}

/// In a stock with distinct kinds, each count fits a `u32`.
pub proof fn lemma_count_bounded(s: Seq<StockItem>, k: ResourceKind)
    requires
        distinct_items(s),
    ensures
        count_in(s, k) <= u32::MAX,
{
    if exists|j: int| 0 <= j < s.len() && s[j].kind == k {
        let j = choose|j: int| 0 <= j < s.len() && s[j].kind == k;
        lemma_count_at(s, j);
    } else {
        lemma_count_absent(s, k);
    }
}

/// A kind with no entry has count zero.
pub proof fn lemma_count_absent(s: Seq<StockItem>, k: ResourceKind)
    requires
        forall|j: int| 0 <= j < s.len() ==> s[j].kind != k,
    ensures
        count_in(s, k) == 0,
    decreases s.len(),
{
    if s.len() > 0 {
        let p = s.drop_last();
        assert forall|j: int| 0 <= j < p.len() implies p[j].kind != k by {
            assert(p[j] == s[j]);
        }
        lemma_count_absent(p, k);
    }
}

/// Replacing the count at `i` changes only the count of that entry's kind.
pub proof fn lemma_count_update(s: Seq<StockItem>, i: int, c: u32, k: ResourceKind)
    requires
        0 <= i < s.len(),
    ensures
        count_in(s.update(i, StockItem { kind: s[i].kind, count: c }), k) == if k == s[i].kind {
            count_in(s, k) - s[i].count + c
        } else {
            count_in(s, k) as int
        },
    decreases s.len(),
{
    let t = s.update(i, StockItem { kind: s[i].kind, count: c });
    if i < s.len() - 1 {
        assert(t.drop_last() =~= s.drop_last().update(i, StockItem { kind: s[i].kind, count: c }));
        lemma_count_update(s.drop_last(), i, c, k);
    } else {
        assert(t.drop_last() =~= s.drop_last());
    }
}

impl View for ResourceStock {
    type V = Seq<StockItem>;

    open spec fn view(&self) -> Seq<StockItem> {
        self.items@
    }
}

impl ResourceStock {
    pub open spec fn wf(&self) -> bool {
        distinct_items(self@)
    }

    /// How many units of `k` are held.
    pub open spec fn count_of(&self, k: ResourceKind) -> nat {
        count_in(self@, k)
    }

    /// True when `k` has an entry.
    pub open spec fn accepts(&self, k: ResourceKind) -> bool {
        exists|i: int| 0 <= i < self@.len() && self@[i].kind == k
    }

    /// An empty stock with no accepted kinds.
    pub fn new() -> (r: ResourceStock)
        ensures
            r@ == Seq::<StockItem>::empty(),
            r.wf(),
    {
        ResourceStock { items: Vec::new() }
    }

    /// A stock with one entry of count zero for each accepted kind, in order.
    pub fn with_accepted_list(accepted: &ResourceKinds) -> (r: ResourceStock)
        requires
            distinct_kinds(accepted@),
        ensures
            r.wf(),
            r@.len() == accepted@.len(),
            forall|i: int|
                0 <= i < r@.len() ==> r@[i] == (StockItem { kind: accepted@[i], count: 0 }),
    {
        let mut items: Vec<StockItem> = Vec::new();
        let mut i: usize = 0;
        while i < accepted.kinds.len()
            invariant
                i <= accepted@.len(),
                items@.len() == i,
                distinct_kinds(accepted@),
                forall|j: int|
                    0 <= j < i ==> items@[j] == (StockItem { kind: accepted@[j], count: 0 }),
            decreases accepted@.len() - i,
        {
            items.push(StockItem { kind: accepted.kinds[i], count: 0 });
            i = i + 1;
        }
        ResourceStock { items }
    }

    /// The first entry of kind `k`, with its position.
    pub fn find(&self, k: ResourceKind) -> (r: Option<(usize, StockItem)>)
        ensures
            match r {
                Some((i, item)) => i < self@.len() && self@[i as int] == item && item.kind == k
                    && forall|j: int| 0 <= j < i ==> self@[j].kind != k,
                None => !self.accepts(k),
            },
    {
        let mut i: usize = 0;
        while i < self.items.len()
            invariant
                i <= self@.len(),
                forall|j: int| 0 <= j < i ==> self@[j].kind != k,
            decreases self@.len() - i,
        {
            if self.items[i].kind == k {
                return Some((i, self.items[i]));
            }
            i = i + 1;
        }
        None
    }

    /// How many units of `k` are held.
    pub fn count(&self, k: ResourceKind) -> (r: u32)
        requires
            self.wf(),
        ensures
            r == self.count_of(k),
    {
        match self.find(k) {
            Some((i, item)) => {
                proof {
                    lemma_count_at(self@, i as int);
                }
                item.count
            },
            None => {
                proof {
                    lemma_count_absent(self@, k);
                }
                0
            },
        }
    }

    /// Replaces the count of the entry at `index`.
    pub fn set(&mut self, index: usize, item: StockItem)
        requires
            index < old(self)@.len(),
            item.kind == old(self)@[index as int].kind,
        ensures
            final(self)@ == old(self)@.update(index as int, item),
    {
        self.items.set(index, item);
    }

    /// Adds one unit of `k`: to its entry, or to a new entry at the end.
    /// A count already at its maximum stays there.
    pub fn add(&mut self, k: ResourceKind)
        requires
            old(self).wf(),
        ensures
            final(self).wf(),
            final(self).accepts(k),
            final(self).count_of(k) == if old(self).count_of(k) < u32::MAX {
                old(self).count_of(k) + 1
            } else {
                old(self).count_of(k) + 0
            },
            forall|o: ResourceKind| o != k ==> final(self).count_of(o) == old(self).count_of(o),
    {
        match self.find(k) {
            Some((i, item)) => {
                proof {
                    lemma_count_at(self@, i as int);
                    assert forall|o: ResourceKind| o != k implies count_in(
                        self@.update(i as int, StockItem { kind: k, count: item.count }),
                        o,
                    ) == count_in(self@, o) by {
                        lemma_count_update(self@, i as int, item.count, o);
                    }
                }
                let c: u32 = if item.count < u32::MAX {
                    item.count + 1
                } else {
                    item.count
                };
                proof {
                    lemma_count_update(self@, i as int, c, k);
                    assert forall|o: ResourceKind| o != k implies count_in(
                        self@.update(i as int, StockItem { kind: k, count: c }),
                        o,
                    ) == count_in(self@, o) by {
                        lemma_count_update(self@, i as int, c, o);
                    }
                }
                self.items.set(i, StockItem { kind: k, count: c });
                assert(self@[i as int].kind == k);
            },
            None => {
                let ghost s0 = self@;
                proof {
                    lemma_count_absent(s0, k);
                }
                self.items.push(StockItem { kind: k, count: 1 });
                assert(self@.drop_last() =~= s0);
                assert(self@[s0.len() as int].kind == k);
            },
        }
    }

    /// True when every entry has count zero.
    pub fn is_empty(&self) -> (r: bool)
        ensures
            r == (forall|j: int| 0 <= j < self@.len() ==> self@[j].count == 0),
    {
        let mut i: usize = 0;
        while i < self.items.len()
            invariant
                i <= self@.len(),
                forall|j: int| 0 <= j < i ==> self@[j].count == 0,
            decreases self@.len() - i,
        {
            if self.items[i].count != 0 {
                return false;
            }
            i = i + 1;
        }
        true
    }
}


impl ResourceStock {
    /// Takes up to `count` units of `k` out; returns how many were taken.
    pub fn remove(&mut self, k: ResourceKind, count: u32) -> (r: u32)
        requires
            old(self).wf(),
        ensures
            final(self).wf(),
            r == if count < old(self).count_of(k) {
                count as nat
            } else {
                old(self).count_of(k)
            },
            final(self).count_of(k) == old(self).count_of(k) - r,
            forall|o: ResourceKind| o != k ==> final(self).count_of(o) == old(self).count_of(o),
            final(self)@.len() == old(self)@.len(),
            forall|j: int| 0 <= j < old(self)@.len() ==> final(self)@[j].kind == old(self)@[j].kind,
            forall|j: int| 0 <= j < old(self)@.len() && old(self)@[j].kind != k ==> final(self)@[j] == old(self)@[j],
    {
        match self.find(k) {
            Some((i, item)) => {
                let ghost s0 = self@;
                let taken: u32 = if count < item.count {
                    count
                } else {
                    item.count
                };
                proof {
                    lemma_count_at(s0, i as int);
                    lemma_count_update(s0, i as int, (item.count - taken) as u32, k);
                    assert forall|o: ResourceKind| o != k implies count_in(
                        s0.update(i as int, StockItem { kind: k, count: (item.count - taken) as u32 }),
                        o,
                    ) == count_in(s0, o) by {
                        lemma_count_update(s0, i as int, (item.count - taken) as u32, o);
                    }
                }
                self.items.set(i, StockItem { kind: k, count: item.count - taken });
                assert(distinct_items(self@)) by {
                    assert forall|a: int, b: int| 0 <= a < self@.len() && 0 <= b < self@.len() && a != b
                        implies self@[a].kind != self@[b].kind by {
                        assert(self@[a].kind == s0[a].kind);
                        assert(self@[b].kind == s0[b].kind);
                    }
                }
                taken
            },
            None => {
                proof {
                    lemma_count_absent(self@, k);
                }
                0
            },
        }
    }

    /// The first entry that holds something, if any.
    pub fn peek(&self) -> (r: Option<StockItem>)
        ensures
            match r {
                Some(item) => exists|j: int| 0 <= j < self@.len() && self@[j] == item && item.count > 0
                    && forall|m: int| 0 <= m < j ==> self@[m].count == 0,
                None => forall|j: int| 0 <= j < self@.len() ==> self@[j].count == 0,
            },
    {
        let mut i: usize = 0;
        while i < self.items.len()
            invariant
                i <= self@.len(),
                forall|j: int| 0 <= j < i ==> self@[j].count == 0,
            decreases self@.len() - i,
        {
            if self.items[i].count != 0 {
                return Some(self.items[i]);
            }
            i = i + 1;
        }
        None
    }
}

} // verus!
