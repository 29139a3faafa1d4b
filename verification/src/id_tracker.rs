//! The identifier tracker: the bijection between the internal offsets of a
//! segment and the external identifiers of its live points.

use vstd::prelude::*;
use crate::types::{PointIdType, PointOffsetType};
use crate::selection::is_permutation_of;
use crate::random::shuffle;

verus! {

/// No external identifier is held by two slots.
pub open spec fn unique_ids(slots: Seq<Option<PointIdType>>) -> bool {
    forall|i: int, j: int|
        0 <= i < slots.len() && 0 <= j < slots.len() && i != j && (#[trigger] slots[i]).is_some()
            ==> slots[i] != #[trigger] slots[j]
}

/// The live points among the first `n` slots, by ascending internal offset.
pub open spec fn live_points(slots: Seq<Option<PointIdType>>, n: int) -> Seq<
    (PointIdType, PointOffsetType),
>
    decreases n,
{
    if n <= 0 {
        Seq::empty()
    } else {
        let before = live_points(slots, n - 1);
        match slots[n - 1] {
            Some(external) => before.push((external, (n - 1) as PointOffsetType)),
            None => before,
        }
    }
}

/// The external identifier of a pair.
pub open spec fn external_of(point: (PointIdType, PointOffsetType)) -> PointIdType {
    point.0
}

/// The external identifiers of a sequence of pairs.
pub open spec fn externals(points: Seq<(PointIdType, PointOffsetType)>) -> Seq<PointIdType> {
    points.map_values(|p: (PointIdType, PointOffsetType)| external_of(p))
}

/// What `live_points` holds: each pair is a live slot, offsets ascend, and
/// every live slot among the first `n` is there.
pub proof fn lemma_live_points(slots: Seq<Option<PointIdType>>, n: int)
    requires
        0 <= n <= slots.len() <= u32::MAX,
    ensures
        live_points(slots, n).len() <= n,
        forall|k: int|
            0 <= k < live_points(slots, n).len() ==> {
                let p = #[trigger] live_points(slots, n)[k];
                p.1 < n && slots[p.1 as int] == Some(p.0)
            },
        forall|k: int, l: int|
            0 <= k < l < live_points(slots, n).len() ==> (#[trigger] live_points(slots, n)[k]).1 < (
            #[trigger] live_points(slots, n)[l]).1,
        forall|i: int|
            0 <= i < n && (#[trigger] slots[i]).is_some() ==> live_points(slots, n).contains(
                (slots[i].unwrap(), i as PointOffsetType),
            ),
    decreases n,
{
    if n > 0 {
        lemma_live_points(slots, n - 1);
        let before = live_points(slots, n - 1);
        let now = live_points(slots, n);
        assert forall|i: int| 0 <= i < n && (#[trigger] slots[i]).is_some() implies now.contains(
            (slots[i].unwrap(), i as PointOffsetType),
        ) by {
            let p = (slots[i].unwrap(), i as PointOffsetType);
            if i < n - 1 {
                let k = choose|k: int| 0 <= k < before.len() && before[k] == p;
                assert(now[k] == p);
            } else {
                assert(now[now.len() - 1] == p);
            }
        }
    }
}

/// With unique identifiers, the live points carry pairwise different
/// external identifiers.
pub proof fn lemma_live_externals_distinct(slots: Seq<Option<PointIdType>>)
    requires
        slots.len() <= u32::MAX,
        unique_ids(slots),
    ensures
        externals(live_points(slots, slots.len() as int)).no_duplicates(),
{
    let lp = live_points(slots, slots.len() as int);
    let ex = externals(lp);
    lemma_live_points(slots, slots.len() as int);
    assert forall|k: int, l: int| 0 <= k < ex.len() && 0 <= l < ex.len() && k != l implies ex[k]
        != ex[l] by {
        let p = lp[k];
        let q = lp[l];
        if k < l {
            assert(lp[k].1 < lp[l].1);
        } else {
            assert(lp[l].1 < lp[k].1);
        }
        assert(slots[p.1 as int] == Some(p.0));
        assert(slots[q.1 as int] == Some(q.0));
    }
}

/// Maps internal offsets to external identifiers. A slot that holds nothing
/// belongs to a deleted point; offsets are never reused.
pub struct IdTracker {
    slots: Vec<Option<PointIdType>>,
}

impl View for IdTracker {
    type V = Seq<Option<PointIdType>>;

    /// Slot `i` holds the external identifier of internal offset `i`, if that point is live.
    closed spec fn view(&self) -> Seq<Option<PointIdType>> {
        self.slots@
    }
}

impl IdTracker {
    /// Offsets fit the offset type, and the mapping is one to one.
    pub open spec fn wf(&self) -> bool {
        self@.len() <= u32::MAX && unique_ids(self@)
    }

    /// The external identifier that `internal` resolves to.
    pub open spec fn resolve(&self, internal: PointOffsetType) -> Option<PointIdType> {
        if internal < self@.len() {
            self@[internal as int]
        } else {
            None
        }
    }

    /// The live points by ascending internal offset.
    pub open spec fn live(&self) -> Seq<(PointIdType, PointOffsetType)> {
        live_points(self@, self@.len() as int)
    }

    /// A tracker without points.
    pub fn new() -> (tracker: Self)
        ensures
            tracker.wf(),
            tracker@ == Seq::<Option<PointIdType>>::empty(),
    {
        IdTracker { slots: Vec::new() }
    }

    /// Number of offsets handed out so far, deleted ones included.
    pub fn total_point_count(&self) -> (n: usize)
        ensures
            n == self@.len(),
    {
        self.slots.len()
    }

    /// Resolves an internal offset. A deleted or unknown offset resolves to nothing.
    pub fn external_id(&self, internal: PointOffsetType) -> (external: Option<PointIdType>)
        ensures
            external == self.resolve(internal),
    {
        let i: usize = internal as usize;
        if i < self.slots.len() {
            self.slots[i]
        } else {
            None
        }
    }

    /// Finds the internal offset of a live external identifier.
    pub fn internal_id(&self, external: PointIdType) -> (internal: Option<PointOffsetType>)
        requires
            self.wf(),
        ensures
            match internal {
                Some(i) => self.resolve(i) == Some(external),
                None => forall|i: int| 0 <= i < self@.len() ==> self@[i] != Some(external),
            },
            internal.is_some() <==> self@.contains(Some(external)),
    {
        let mut i: usize = 0;
        while i < self.slots.len()
            invariant
                i <= self.slots.len(),
                self.wf(),
                forall|k: int| 0 <= k < i ==> self@[k] != Some(external),
            decreases self.slots.len() - i,
        {
            match self.slots[i] {
                Some(e) => {
                    if e == external {
                        assert(self@[i as int] == Some(external));
                        return Some(i as PointOffsetType);
                    }
                },
                None => {},
            }
            i += 1;
        }
        None
    }

    /// Registers a new point under the next free offset. An identifier that
    /// is already live, or a full tracker, leaves everything as it was.
    pub fn insert(&mut self, external: PointIdType) -> (internal: Option<PointOffsetType>)
        requires
            old(self).wf(),
        ensures
            final(self).wf(),
            match internal {
                Some(i) => {
                    &&& i == old(self)@.len()
                    &&& final(self)@ == old(self)@.push(Some(external))
                    &&& forall|k: int| 0 <= k < old(self)@.len() ==> old(self)@[k] != Some(external)
                },
                None => {
                    &&& final(self)@ == old(self)@
                    &&& (old(self)@.len() == u32::MAX || old(self)@.contains(Some(external)))
                },
            },
            internal.is_none() <==> (old(self)@.len() == u32::MAX || old(self)@.contains(
                Some(external),
            )),
    {
        if self.slots.len() >= u32::MAX as usize {
            return None;
        }
        match self.internal_id(external) {
            Some(i) => {
                assert(self@[i as int] == Some(external));
                None
            },
            None => {
                let next = self.slots.len() as PointOffsetType;
                self.slots.push(Some(external));
                Some(next)
            },
        }
    }

    /// Deletes a point: its offset resolves to nothing from now on.
    pub fn remove(&mut self, external: PointIdType) -> (internal: Option<PointOffsetType>)
        requires
            old(self).wf(),
        ensures
            final(self).wf(),
            match internal {
                Some(i) => {
                    &&& old(self).resolve(i) == Some(external)
                    &&& final(self)@ == old(self)@.update(i as int, None)
                },
                None => {
                    &&& final(self)@ == old(self)@
                    &&& !old(self)@.contains(Some(external))
                },
            },
    {
        match self.internal_id(external) {
            Some(i) => {
                self.slots.set(i as usize, None);
                Some(i)
            },
            None => None,
        }
    }

    /// The live points as pairs, by ascending internal offset.
    pub fn live_points(&self) -> (points: Vec<(PointIdType, PointOffsetType)>)
        requires
            self.wf(),
        ensures
            points@ == self.live(),
    {
        let mut points: Vec<(PointIdType, PointOffsetType)> = Vec::new();
        let mut i: usize = 0;
        while i < self.slots.len()
            invariant
                i <= self.slots.len(),
                self.wf(),
                points@ == live_points(self@, i as int),
            decreases self.slots.len() - i,
        {
            match self.slots[i] {
                Some(external) => {
                    points.push((external, i as PointOffsetType));
                },
                None => {},
            }
            i += 1;
        }
        points
    }

    /// Number of live points.
    pub fn available_point_count(&self) -> (n: usize)
        requires
            self.wf(),
        ensures
            n == self.live().len(),
    {
        self.live_points().len()
    }

    /// The live points in a fresh random order.
    pub fn iter_random(&self) -> (points: Vec<(PointIdType, PointOffsetType)>)
        requires
            self.wf(),
        ensures
            is_permutation_of(points@, self.live()),
    {
        let mut points = self.live_points();
        let mut rng = rand::thread_rng();
        shuffle(&mut points, &mut rng);
        points
    }
}

} // verus!
