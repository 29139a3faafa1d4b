//! The segment and its three sampling strategies.
//!
//! Randomness and cancellation make the result of a strategy one of many
//! possible outcomes. Each contract therefore names the whole family: which
//! candidates were considered before the scan stopped, and which selections
//! of them the random source may hand back.

use vstd::prelude::*;
use std::sync::atomic::AtomicBool;
use std::sync::atomic::Ordering;
use crate::types::{PointIdType, PointOffsetType};
use crate::selection::{is_selection_of, is_permutation_of, lemma_selection_transitive};
use crate::random::{choose_multiple, shuffle};
use crate::id_tracker::{IdTracker, externals};
use crate::payload::{
    Field,
    Filter,
    PayloadIndex,
    point_matches,
    matching_points,
    lemma_matching_skip,
    lemma_matching_prefix,
};

verus! {

/// The external identifiers that the offsets resolve to, in the order of the
/// offsets. An offset that resolves to nothing is skipped.
pub open spec fn resolved(tracker: &IdTracker, offsets: Seq<PointOffsetType>) -> Seq<PointIdType>
    decreases offsets.len(),
{
    if offsets.len() == 0 {
        Seq::empty()
    } else {
        let before = resolved(tracker, offsets.drop_last());
        match tracker.resolve(offsets.last()) {
            Some(external) => before.push(external),
            None => before,
        }
    }
}

/// The external identifiers of those points whose offset passes the filter,
/// in the order of the points.
pub open spec fn stream_matches(
    payloads: Seq<Seq<Field>>,
    filter: &Filter,
    points: Seq<(PointIdType, PointOffsetType)>,
) -> Seq<PointIdType>
    decreases points.len(),
{
    if points.len() == 0 {
        Seq::empty()
    } else {
        let before = stream_matches(payloads, filter, points.drop_last());
        if point_matches(payloads, filter, points.last().1) {
            before.push(points.last().0)
        } else {
            before
        }
    }
}

/// Every poll of the stop signal reports "stop".
pub open spec fn always_stops<F: Fn() -> bool>(stop: F) -> bool {
    forall|answer: bool| call_ensures(stop, (), answer) ==> answer
}

/// No poll of the stop signal reports "stop".
pub open spec fn never_stops<F: Fn() -> bool>(stop: F) -> bool {
    forall|answer: bool| call_ensures(stop, (), answer) ==> !answer
}

/// Reads a cancellation flag once.
fn flag_is_set(flag: &AtomicBool) -> (set: bool) {
    flag.load(Ordering::Relaxed)
}

/// A storage segment: the identifier tracker and the payload index of the
/// same points, addressed by the same internal offsets.
pub struct Segment {
    pub id_tracker: IdTracker,
    pub payload_index: PayloadIndex,
}

impl Segment {
    /// Both parts are well formed and cover the same offsets.
    pub open spec fn wf(&self) -> bool {
        &&& self.id_tracker.wf()
        &&& self.payload_index.wf()
        &&& self.id_tracker@.len() == self.payload_index@.len()
    }

    /// Whether `external` names a live point of the segment.
    pub open spec fn is_live(&self, external: PointIdType) -> bool {
        self.id_tracker@.contains(Some(external))
    }

    /// Whether `external` names a live point whose payload satisfies the filter.
    pub open spec fn satisfies(&self, external: PointIdType, filter: &Filter) -> bool {
        exists|internal: PointOffsetType|
            #[trigger] self.id_tracker.resolve(internal) == Some(external) && point_matches(
                self.payload_index@,
                filter,
                internal,
            )
    }

    /// An outcome of the index-driven strategy in which the scan considered
    /// the first `considered` matching offsets: as many of the identifiers
    /// they resolve to as the limit allows, each taken once, in any order.
    pub open spec fn index_shuffled_outcome(
        &self,
        limit: usize,
        filter: &Filter,
        considered: int,
        ids: Seq<PointIdType>,
    ) -> bool {
        let pool = resolved(&self.id_tracker, self.payload_index.matching(filter).take(considered));
        &&& 0 <= considered <= self.payload_index.matching(filter).len()
        &&& is_selection_of(ids, pool)
        &&& ids.len() == if limit <= pool.len() {
            limit as int
        } else {
            pool.len() as int
        }
    }

    /// An outcome of the random-stream strategy in which the live points came
    /// in the order `order` and the scan considered the first `considered`
    /// of them: the identifiers of those that pass the filter, in that order.
    /// The scan goes no further once the limit is reached.
    pub open spec fn random_stream_outcome(
        &self,
        limit: usize,
        filter: &Filter,
        order: Seq<(PointIdType, PointOffsetType)>,
        considered: int,
        ids: Seq<PointIdType>,
    ) -> bool {
        &&& is_permutation_of(order, self.id_tracker.live())
        &&& 0 <= considered <= order.len()
        &&& ids == stream_matches(self.payload_index@, filter, order.take(considered))
        &&& ids.len() <= limit
        &&& considered > 0 ==> stream_matches(
            self.payload_index@,
            filter,
            order.take(considered - 1),
        ).len() < limit
    }

    /// An outcome of the unfiltered strategy in which the live points came in
    /// the order `order`: the identifiers of the first `limit` of them, or of
    /// all where there are fewer.
    pub open spec fn random_outcome(
        &self,
        limit: usize,
        order: Seq<(PointIdType, PointOffsetType)>,
        ids: Seq<PointIdType>,
    ) -> bool {
        &&& is_permutation_of(order, self.id_tracker.live())
        &&& ids == externals(
            order.take(
                if limit <= order.len() {
                    limit as int
                } else {
                    order.len() as int
                },
            ),
        )
    }

    /// A segment without points.
    pub fn new() -> (segment: Self)
        ensures
            segment.wf(),
            segment.id_tracker@.len() == 0,
    {
        Segment { id_tracker: IdTracker::new(), payload_index: PayloadIndex::new() }
    }

    /// Adds a point with its payload under the next free offset. Nothing
    /// changes if the identifier is already live or the segment is full.
    pub fn add_point(&mut self, external: PointIdType, payload: Vec<Field>) -> (internal: Option<
        PointOffsetType,
    >)
        requires
            old(self).wf(),
        ensures
            final(self).wf(),
            internal.is_none() <==> (old(self).id_tracker@.len() == u32::MAX || old(self).is_live(
                external,
            )),
            match internal {
                Some(i) => {
                    &&& i == old(self).id_tracker@.len()
                    &&& final(self).id_tracker@ == old(self).id_tracker@.push(Some(external))
                    &&& final(self).payload_index@ == old(self).payload_index@.push(payload@)
                },
                None => {
                    &&& final(self).id_tracker@ == old(self).id_tracker@
                    &&& final(self).payload_index@ == old(self).payload_index@
                },
            },
    {
        match self.id_tracker.insert(external) {
            Some(i) => {
                self.payload_index.push(payload);
                Some(i)
            },
            None => None,
        }
    }

    /// Deletes a point. Its offset stays taken and resolves to nothing.
    pub fn delete_point(&mut self, external: PointIdType) -> (deleted: bool)
        requires
            old(self).wf(),
        ensures
            final(self).wf(),
            deleted == old(self).is_live(external),
            final(self).payload_index@ == old(self).payload_index@,
            deleted ==> exists|i: PointOffsetType|
                old(self).id_tracker.resolve(i) == Some(external) && final(self).id_tracker@ == old(
                    self,
                ).id_tracker@.update(i as int, None),
            !deleted ==> final(self).id_tracker@ == old(self).id_tracker@,
    {
        match self.id_tracker.remove(external) {
            Some(i) => {
                assert(old(self).id_tracker@[i as int] == Some(external));
                true
            },
            None => false,
        }
    }

    /// Index-driven shuffled retrieval, polling `stop` once per candidate.
    ///
    /// The index hands out the matching offsets one at a time; before each
    /// one `stop` is asked, and the scan ends when it answers true. Offsets
    /// that no longer resolve are dropped. A reservoir of at most `limit` is
    /// drawn from what was resolved and then shuffled.
    pub fn read_by_index_shuffled_until<F: Fn() -> bool>(
        &self,
        limit: usize,
        condition: &Filter,
        stop: F,
    ) -> (ids: Vec<PointIdType>)
        requires
            self.wf(),
            call_requires(stop, ()),
        ensures
            exists|considered: int|
                {
                    &&& #[trigger] self.index_shuffled_outcome(limit, condition, considered, ids@)
                    &&& always_stops(stop) ==> considered == 0
                    &&& never_stops(stop) ==> considered == self.payload_index.matching(
                        condition,
                    ).len()
                },
            always_stops(stop) ==> ids@.len() == 0,
    {
        let estimate = self.payload_index.estimate_cardinality(condition);
        let mut candidates: Vec<PointIdType> = Vec::new();
        let ghost matching_all = self.payload_index.matching(condition);
        let ghost mut considered: int = matching_all.len() as int;
        if estimate.max > 0 {
            let total = self.payload_index.indexed_points();
            let mut cursor: usize = 0;
            let mut running = true;
            let ghost mut found: int = 0;
            proof {
                assert(matching_all.take(0) =~= Seq::<PointOffsetType>::empty());
            }
            while running && cursor < total
                invariant
                    cursor <= total,
                    total == self.payload_index@.len(),
                    self.wf(),
                    matching_all == self.payload_index.matching(condition),
                    call_requires(stop, ()),
                    0 <= found <= matching_all.len(),
                    matching_points(self.payload_index@, condition, cursor as int)
                        == matching_all.take(found),
                    candidates@ == resolved(&self.id_tracker, matching_all.take(found)),
                    !running ==> call_ensures(stop, (), true),
                    found > 0 ==> call_ensures(stop, (), false),
                decreases total - cursor, running as int,
            {
                if stop() {
                    running = false;
                } else {
                    match self.payload_index.next_filtered_point(condition, cursor) {
                        Some(internal) => {
                            proof {
                                let payloads = self.payload_index@;
                                lemma_matching_skip(
                                    payloads,
                                    condition,
                                    cursor as int,
                                    internal as int,
                                );
                                lemma_matching_prefix(
                                    payloads,
                                    condition,
                                    internal + 1,
                                    total as int,
                                );
                                assert(matching_points(payloads, condition, internal + 1)
                                    == matching_all.take(found).push(internal));
                                assert(matching_all.take(found + 1).drop_last()
                                    =~= matching_all.take(found));
                                assert(matching_all.take(found + 1).last() == internal);
                                found = found + 1;
                            }
                            match self.id_tracker.external_id(internal) {
                                Some(external) => {
                                    candidates.push(external);
                                },
                                None => {},
                            }
                            cursor = internal as usize + 1;
                        },
                        None => {
                            proof {
                                lemma_matching_skip(
                                    self.payload_index@,
                                    condition,
                                    cursor as int,
                                    total as int,
                                );
                            }
                            cursor = total;
                        },
                    }
                }
            }
            proof {
                considered = found;
                if running {
                    assert(matching_all.take(found).len() == matching_all.len());
                }
            }
        } else {
            assert(matching_all.take(considered) =~= Seq::<PointOffsetType>::empty());
        }
        let amount: usize = if limit <= candidates.len() {
            limit
        } else {
            candidates.len()
        };
        let ghost pool = candidates@;
        let mut rng = rand::thread_rng();
        let mut shuffled = choose_multiple(candidates, &mut rng, amount);
        let ghost chosen = shuffled@;
        shuffle(&mut shuffled, &mut rng);
        proof {
            lemma_selection_transitive(shuffled@, chosen, pool);
            assert(self.index_shuffled_outcome(limit, condition, considered, shuffled@));
            if always_stops(stop) {
                assert(matching_all.take(0) =~= Seq::<PointOffsetType>::empty());
            }
        }
        shuffled
    }

    /// Index-driven shuffled retrieval under a cancellation flag.
    ///
    /// Returns at most `limit` identifiers of points that satisfy the filter,
    /// drawn from the candidates considered before the flag was seen set.
    pub fn filtered_read_by_index_shuffled(
        &self,
        limit: usize,
        condition: &Filter,
        is_stopped: &AtomicBool,
    ) -> (ids: Vec<PointIdType>)
        requires
            self.wf(),
        ensures
            exists|considered: int| #[trigger]
                self.index_shuffled_outcome(limit, condition, considered, ids@),
    {
        let stop = || -> (set: bool) { flag_is_set(is_stopped) };
        self.read_by_index_shuffled_until(limit, condition, stop)
    }

    /// Random-stream filtering, polling `stop` once per point.
    ///
    /// Walks the live points in a fresh random order and emits the
    /// identifiers of those that pass the filter, until `stop` answers true,
    /// the points run out, or `limit` identifiers were emitted.
    pub fn read_by_random_stream_until<F: Fn() -> bool>(
        &self,
        limit: usize,
        condition: &Filter,
        stop: F,
    ) -> (ids: Vec<PointIdType>)
        requires
            self.wf(),
            call_requires(stop, ()),
        ensures
            exists|order: Seq<(PointIdType, PointOffsetType)>, considered: int|
                {
                    &&& #[trigger] self.random_stream_outcome(
                        limit,
                        condition,
                        order,
                        considered,
                        ids@,
                    )
                    &&& always_stops(stop) ==> considered == 0
                    &&& never_stops(stop) ==> considered == order.len() || ids@.len() == limit
                },
            always_stops(stop) ==> ids@.len() == 0,
    {
        let filter_context = self.payload_index.filter_context(condition);
        let order = self.id_tracker.iter_random();
        let mut ids: Vec<PointIdType> = Vec::new();
        let mut i: usize = 0;
        let mut running = true;
        while running && i < order.len() && ids.len() < limit
            invariant
                i <= order.len(),
                call_requires(stop, ()),
                filter_context.payloads() == self.payload_index@,
                filter_context.filter() == condition,
                ids@ == stream_matches(self.payload_index@, condition, order@.take(i as int)),
                ids@.len() <= limit,
                i > 0 ==> stream_matches(
                    self.payload_index@,
                    condition,
                    order@.take(i - 1),
                ).len() < limit,
                !running ==> call_ensures(stop, (), true),
                i > 0 ==> call_ensures(stop, (), false),
            decreases order.len() - i, running as int,
        {
            if stop() {
                running = false;
            } else {
                let point = order[i];
                if filter_context.check(point.1) {
                    ids.push(point.0);
                }
                proof {
                    assert(order@.take(i + 1).drop_last() =~= order@.take(i as int));
                }
                i += 1;
            }
        }
        proof {
            assert(self.random_stream_outcome(limit, condition, order@, i as int, ids@));
        }
        ids
    }

    /// Random-stream filtering under a cancellation flag.
    ///
    /// Returns at most `limit` distinct identifiers of points that satisfy
    /// the filter, in the order in which a random walk over the live points
    /// met them before the flag was seen set.
    pub fn filtered_read_by_random_stream(
        &self,
        limit: usize,
        condition: &Filter,
        is_stopped: &AtomicBool,
    ) -> (ids: Vec<PointIdType>)
        requires
            self.wf(),
        ensures
            exists|order: Seq<(PointIdType, PointOffsetType)>, considered: int| #[trigger]
                self.random_stream_outcome(limit, condition, order, considered, ids@),
    {
        let stop = || -> (set: bool) { flag_is_set(is_stopped) };
        self.read_by_random_stream_until(limit, condition, stop)
    }

    /// Unfiltered random retrieval: the identifiers of the first `limit`
    /// live points of a fresh random order.
    pub fn read_by_random_id(&self, limit: usize) -> (ids: Vec<PointIdType>)
        requires
            self.wf(),
        ensures
            exists|order: Seq<(PointIdType, PointOffsetType)>| #[trigger]
                self.random_outcome(limit, order, ids@),
    {
        let order = self.id_tracker.iter_random();
        let mut ids: Vec<PointIdType> = Vec::new();
        let mut i: usize = 0;
        while i < order.len() && i < limit
            invariant
                i <= order.len(),
                i <= limit,
                ids@ == externals(order@.take(i as int)),
            decreases order.len() - i,
        {
            ids.push(order[i].0);
            proof {
                assert(ids@ =~= externals(order@.take(i + 1)));
            }
            i += 1;
        }
        proof {
            assert(self.random_outcome(limit, order@, ids@));
        }
        ids
    }
}

} // verus!
