//! What holds of every outcome of the sampling strategies: bounds,
//! distinctness, membership, and the integrity of the identifier mapping.

use vstd::prelude::*;
use crate::types::{PointIdType, PointOffsetType};
use crate::selection::{
    is_permutation_of,
    lemma_selection_no_duplicates,
    lemma_selection_members,
    lemma_selection_map,
    lemma_permutation_members,
};
use crate::id_tracker::{
    IdTracker,
    externals,
    external_of,
    lemma_live_points,
    lemma_live_externals_distinct,
};
use crate::payload::{Field, Filter, point_matches, lemma_matching_points};
use crate::segment::{Segment, resolved, stream_matches};

verus! {

/// The offsets ascend strictly.
pub open spec fn ascending(offsets: Seq<PointOffsetType>) -> bool {
    forall|k: int, l: int| 0 <= k < l < offsets.len() ==> #[trigger] offsets[k] < #[trigger] offsets[l]
}

/// Resolving ascending offsets gives pairwise different identifiers, each
/// the identifier of one of the offsets, and no more than there are offsets.
pub proof fn lemma_resolved(tracker: &IdTracker, offsets: Seq<PointOffsetType>)
    requires
        tracker.wf(),
        ascending(offsets),
    ensures
        resolved(tracker, offsets).len() <= offsets.len(),
        resolved(tracker, offsets).no_duplicates(),
        forall|k: int|
            0 <= k < resolved(tracker, offsets).len() ==> exists|j: int|
                0 <= j < offsets.len() && tracker.resolve(#[trigger] offsets[j]) == Some(
                    #[trigger] resolved(tracker, offsets)[k],
                ),
    decreases offsets.len(),
{
    if offsets.len() > 0 {
        let front = offsets.drop_last();
        assert(ascending(front)) by {
            assert forall|k: int, l: int| 0 <= k < l < front.len() implies #[trigger] front[k]
                < #[trigger] front[l] by {
                assert(offsets[k] < offsets[l]);
            }
        }
        lemma_resolved(tracker, front);
        let before = resolved(tracker, front);
        let now = resolved(tracker, offsets);
        assert forall|k: int| 0 <= k < before.len() implies exists|j: int|
            0 <= j < offsets.len() && offsets[j] < offsets.last() && tracker.resolve(
                #[trigger] offsets[j],
            ) == Some(#[trigger] before[k]) by {
            let j = choose|j: int|
                0 <= j < front.len() && tracker.resolve(#[trigger] front[j]) == Some(before[k]);
            assert(offsets[j] == front[j]);
            assert(offsets[j] < offsets[offsets.len() - 1]);
        }
        match tracker.resolve(offsets.last()) {
            Some(external) => {
                assert forall|k: int| 0 <= k < before.len() implies before[k] != external by {
                    let j = choose|j: int|
                        0 <= j < offsets.len() && offsets[j] < offsets.last() && tracker.resolve(
                            #[trigger] offsets[j],
                        ) == Some(before[k]);
                    assert(tracker@[offsets[j] as int] == Some(before[k]));
                    assert(tracker@[offsets.last() as int] == Some(external));
                }
                assert forall|k: int| 0 <= k < now.len() implies exists|j: int|
                    0 <= j < offsets.len() && tracker.resolve(#[trigger] offsets[j]) == Some(
                        #[trigger] now[k],
                    ) by {
                    if k < before.len() {
                        assert(now[k] == before[k]);
                    } else {
                        assert(tracker.resolve(offsets[offsets.len() - 1]) == Some(now[k]));
                    }
                }
            },
            None => {},
        }
    }
}

/// Resolving offsets loses no identifier: whatever one of the offsets
/// resolves to is among the results.
pub proof fn lemma_resolved_complete(tracker: &IdTracker, offsets: Seq<PointOffsetType>)
    ensures
        forall|j: int|
            0 <= j < offsets.len() && tracker.resolve(#[trigger] offsets[j]).is_some() ==> resolved(
                tracker,
                offsets,
            ).contains(tracker.resolve(offsets[j]).unwrap()),
    decreases offsets.len(),
{
    if offsets.len() > 0 {
        let front = offsets.drop_last();
        lemma_resolved_complete(tracker, front);
        let before = resolved(tracker, front);
        let now = resolved(tracker, offsets);
        assert forall|j: int|
            0 <= j < offsets.len() && tracker.resolve(
                #[trigger] offsets[j],
            ).is_some() implies now.contains(tracker.resolve(offsets[j]).unwrap()) by {
            let external = tracker.resolve(offsets[j]).unwrap();
            if j < front.len() {
                assert(front[j] == offsets[j]);
                assert(before.contains(external));
                let k = choose|k: int| 0 <= k < before.len() && before[k] == external;
                assert(now[k] == external);
            } else {
                assert(now[now.len() - 1] == external);
            }
        }
    }
}

/// The candidates of an index-driven scan that runs to its end are exactly
/// the live points that satisfy the filter.
pub proof fn lemma_candidates_complete(segment: &Segment, filter: &Filter)
    requires
        segment.wf(),
    ensures
        forall|external: PointIdType|
            segment.satisfies(external, filter) <==> (#[trigger] resolved(
                &segment.id_tracker,
                segment.payload_index.matching(filter),
            ).contains(external)),
{
    let tracker = &segment.id_tracker;
    let payloads = segment.payload_index@;
    let matching = segment.payload_index.matching(filter);
    let pool = resolved(tracker, matching);
    lemma_matching_points(payloads, filter, payloads.len() as int);
    assert(ascending(matching));
    lemma_resolved(tracker, matching);
    lemma_resolved_complete(tracker, matching);
    assert forall|external: PointIdType| segment.satisfies(external, filter) implies pool.contains(
        external,
    ) by {
        let internal = choose|internal: PointOffsetType|
            #[trigger] tracker.resolve(internal) == Some(external) && point_matches(
                payloads,
                filter,
                internal,
            );
        assert(filter.matches(payloads[internal as int]));
        assert(matching.contains(internal));
        let j = choose|j: int| 0 <= j < matching.len() && matching[j] == internal;
        assert(tracker.resolve(matching[j]).is_some());
    }
    assert forall|external: PointIdType| pool.contains(external) implies segment.satisfies(
        external,
        filter,
    ) by {
        let k = choose|k: int| 0 <= k < pool.len() && pool[k] == external;
        let j = choose|j: int|
            0 <= j < matching.len() && tracker.resolve(#[trigger] matching[j]) == Some(pool[k]);
        assert(point_matches(payloads, filter, matching[j]));
    }
}

/// `external` is the identifier of a point of the stream that passes the filter.
pub open spec fn passes_in(
    payloads: Seq<Seq<Field>>,
    filter: &Filter,
    points: Seq<(PointIdType, PointOffsetType)>,
    external: PointIdType,
) -> bool {
    exists|j: int|
        0 <= j < points.len() && (#[trigger] points[j]).0 == external && point_matches(
            payloads,
            filter,
            points[j].1,
        )
}

/// Filtering a stream of points with pairwise different identifiers gives
/// pairwise different identifiers, each of a point of the stream that
/// passes the filter, and no more than there are points.
pub proof fn lemma_stream_matches(
    payloads: Seq<Seq<Field>>,
    filter: &Filter,
    points: Seq<(PointIdType, PointOffsetType)>,
)
    requires
        externals(points).no_duplicates(),
    ensures
        stream_matches(payloads, filter, points).len() <= points.len(),
        stream_matches(payloads, filter, points).no_duplicates(),
        forall|k: int|
            0 <= k < stream_matches(payloads, filter, points).len() ==> passes_in(
                payloads,
                filter,
                points,
                #[trigger] stream_matches(payloads, filter, points)[k],
            ),
    decreases points.len(),
{
    if points.len() > 0 {
        let front = points.drop_last();
        let last = points.len() - 1;
        assert(externals(front).no_duplicates()) by {
            assert forall|k: int, l: int|
                0 <= k < front.len() && 0 <= l < front.len() && k != l implies externals(front)[k]
                != externals(front)[l] by {
                assert(externals(points)[k] != externals(points)[l]);
            }
        }
        lemma_stream_matches(payloads, filter, front);
        let before = stream_matches(payloads, filter, front);
        let now = stream_matches(payloads, filter, points);
        assert forall|k: int| 0 <= k < before.len() implies passes_in(
            payloads,
            filter,
            points,
            #[trigger] before[k],
        ) && before[k] != points[last].0 by {
            assert(passes_in(payloads, filter, front, before[k]));
            let j = choose|j: int|
                0 <= j < front.len() && (#[trigger] front[j]).0 == before[k] && point_matches(
                    payloads,
                    filter,
                    front[j].1,
                );
            assert(points[j] == front[j]);
            assert(externals(points)[j] != externals(points)[last]);
        }
        assert forall|k: int| 0 <= k < now.len() implies passes_in(
            payloads,
            filter,
            points,
            #[trigger] now[k],
        ) by {
            if k < before.len() {
                assert(now[k] == before[k]);
            } else {
                assert(points[last].0 == now[k]);
            }
        }
    }
}

/// Filtering a stream loses no identifier: every point of the stream that
/// passes the filter has its identifier among the results.
pub proof fn lemma_stream_complete(
    payloads: Seq<Seq<Field>>,
    filter: &Filter,
    points: Seq<(PointIdType, PointOffsetType)>,
)
    ensures
        forall|j: int|
            0 <= j < points.len() && point_matches(payloads, filter, (#[trigger] points[j]).1)
                ==> stream_matches(payloads, filter, points).contains(points[j].0),
    decreases points.len(),
{
    if points.len() > 0 {
        let front = points.drop_last();
        lemma_stream_complete(payloads, filter, front);
        let before = stream_matches(payloads, filter, front);
        let now = stream_matches(payloads, filter, points);
        assert forall|j: int|
            0 <= j < points.len() && point_matches(
                payloads,
                filter,
                (#[trigger] points[j]).1,
            ) implies now.contains(points[j].0) by {
            if j < front.len() {
                assert(front[j] == points[j]);
                assert(before.contains(points[j].0));
                let k = choose|k: int| 0 <= k < before.len() && before[k] == points[j].0;
                assert(now[k] == points[j].0);
            } else {
                assert(now[now.len() - 1] == points[j].0);
            }
        }
    }
}

/// A random-stream scan that runs through the whole order emits exactly the
/// live points that satisfy the filter.
pub proof fn lemma_random_stream_complete(
    segment: &Segment,
    filter: &Filter,
    order: Seq<(PointIdType, PointOffsetType)>,
)
    requires
        segment.wf(),
        is_permutation_of(order, segment.id_tracker.live()),
    ensures
        forall|external: PointIdType|
            segment.satisfies(external, filter) <==> (#[trigger] stream_matches(
                segment.payload_index@,
                filter,
                order,
            ).contains(external)),
{
    let tracker = &segment.id_tracker;
    let payloads = segment.payload_index@;
    let live = tracker.live();
    let emitted = stream_matches(payloads, filter, order);
    lemma_random_order(tracker, order);
    lemma_stream_matches(payloads, filter, order);
    lemma_stream_complete(payloads, filter, order);
    lemma_live_points(tracker@, tracker@.len() as int);
    lemma_permutation_members(order, live);
    assert forall|external: PointIdType| segment.satisfies(external, filter) implies emitted.contains(
        external,
    ) by {
        let internal = choose|internal: PointOffsetType|
            #[trigger] tracker.resolve(internal) == Some(external) && point_matches(
                payloads,
                filter,
                internal,
            );
        assert(tracker@[internal as int].is_some());
        assert(live.contains((external, internal)));
        let k = choose|k: int| 0 <= k < live.len() && live[k] == (external, internal);
        assert(order.contains(live[k]));
        let j = choose|j: int| 0 <= j < order.len() && order[j] == (external, internal);
        assert(point_matches(payloads, filter, order[j].1));
    }
    assert forall|external: PointIdType| emitted.contains(external) implies segment.satisfies(
        external,
        filter,
    ) by {
        let k = choose|k: int| 0 <= k < emitted.len() && emitted[k] == external;
        assert(passes_in(payloads, filter, order, emitted[k]));
        let j = choose|j: int|
            0 <= j < order.len() && (#[trigger] order[j]).0 == external && point_matches(
                payloads,
                filter,
                order[j].1,
            );
        assert(tracker.resolve(order[j].1) == Some(order[j].0));
    }
}

/// A random order of the live points lists every live point once: its
/// identifiers are pairwise different, and each pair is a live slot.
pub proof fn lemma_random_order(tracker: &IdTracker, order: Seq<(PointIdType, PointOffsetType)>)
    requires
        tracker.wf(),
        is_permutation_of(order, tracker.live()),
    ensures
        order.len() == tracker.live().len(),
        externals(order).no_duplicates(),
        forall|j: int|
            0 <= j < order.len() ==> tracker.resolve((#[trigger] order[j]).1) == Some(order[j].0),
{
    let live = tracker.live();
    lemma_live_points(tracker@, tracker@.len() as int);
    lemma_live_externals_distinct(tracker@);
    lemma_selection_map(order, live, |p: (PointIdType, PointOffsetType)| external_of(p));
    lemma_selection_no_duplicates(externals(order), externals(live));
    lemma_selection_members(order, live);
    assert forall|j: int| 0 <= j < order.len() implies tracker.resolve((#[trigger] order[j]).1)
        == Some(order[j].0) by {
        assert(live.contains(order[j]));
        let k = choose|k: int| 0 <= k < live.len() && live[k] == order[j];
        assert(tracker@[live[k].1 as int] == Some(live[k].0));
    }
}

/// Every outcome of the index-driven strategy respects the limit, repeats
/// no identifier, and holds only live points that satisfy the filter.
pub proof fn lemma_index_shuffled_sound(
    segment: &Segment,
    limit: usize,
    filter: &Filter,
    considered: int,
    ids: Seq<PointIdType>,
)
    requires
        segment.wf(),
        segment.index_shuffled_outcome(limit, filter, considered, ids),
    ensures
        ids.len() <= limit,
        ids.no_duplicates(),
        forall|i: int| 0 <= i < ids.len() ==> segment.satisfies(#[trigger] ids[i], filter),
        forall|i: int| 0 <= i < ids.len() ==> segment.is_live(#[trigger] ids[i]),
{
    let tracker = &segment.id_tracker;
    let payloads = segment.payload_index@;
    let matching = segment.payload_index.matching(filter);
    let prefix = matching.take(considered);
    let pool = resolved(tracker, prefix);
    lemma_matching_points(payloads, filter, payloads.len() as int);
    assert(ascending(prefix)) by {
        assert forall|k: int, l: int| 0 <= k < l < prefix.len() implies #[trigger] prefix[k]
            < #[trigger] prefix[l] by {
            assert(matching[k] < matching[l]);
        }
    }
    lemma_resolved(tracker, prefix);
    lemma_selection_no_duplicates(ids, pool);
    lemma_selection_members(ids, pool);
    assert forall|i: int| 0 <= i < ids.len() implies segment.satisfies(#[trigger] ids[i], filter)
        && segment.is_live(ids[i]) by {
        assert(pool.contains(ids[i]));
        let k = choose|k: int| 0 <= k < pool.len() && pool[k] == ids[i];
        let j = choose|j: int|
            0 <= j < prefix.len() && tracker.resolve(#[trigger] prefix[j]) == Some(pool[k]);
        assert(prefix[j] == matching[j]);
        assert(point_matches(payloads, filter, matching[j]));
        assert(tracker@[prefix[j] as int] == Some(ids[i]));
    }
}

/// Every outcome of the random-stream strategy respects the limit, repeats
/// no identifier, and holds only live points that satisfy the filter.
pub proof fn lemma_random_stream_sound(
    segment: &Segment,
    limit: usize,
    filter: &Filter,
    order: Seq<(PointIdType, PointOffsetType)>,
    considered: int,
    ids: Seq<PointIdType>,
)
    requires
        segment.wf(),
        segment.random_stream_outcome(limit, filter, order, considered, ids),
    ensures
        ids.len() <= limit,
        ids.no_duplicates(),
        forall|i: int| 0 <= i < ids.len() ==> segment.satisfies(#[trigger] ids[i], filter),
        forall|i: int| 0 <= i < ids.len() ==> segment.is_live(#[trigger] ids[i]),
{
    let tracker = &segment.id_tracker;
    let payloads = segment.payload_index@;
    let seen = order.take(considered);
    lemma_random_order(tracker, order);
    assert(externals(seen).no_duplicates()) by {
        assert forall|k: int, l: int|
            0 <= k < seen.len() && 0 <= l < seen.len() && k != l implies externals(seen)[k]
            != externals(seen)[l] by {
            assert(externals(order)[k] != externals(order)[l]);
        }
    }
    lemma_stream_matches(payloads, filter, seen);
    assert forall|i: int| 0 <= i < ids.len() implies segment.satisfies(#[trigger] ids[i], filter)
        && segment.is_live(ids[i]) by {
        assert(passes_in(payloads, filter, seen, ids[i]));
        let j = choose|j: int|
            0 <= j < seen.len() && (#[trigger] seen[j]).0 == ids[i] && point_matches(
                payloads,
                filter,
                seen[j].1,
            );
        assert(seen[j] == order[j]);
        assert(tracker.resolve(order[j].1) == Some(order[j].0));
        assert(tracker@[order[j].1 as int] == Some(ids[i]));
    }
}

/// Every outcome of the unfiltered strategy holds exactly as many
/// identifiers as the limit allows and the segment has live points, repeats
/// none, and holds only live points.
pub proof fn lemma_random_sound(
    segment: &Segment,
    limit: usize,
    order: Seq<(PointIdType, PointOffsetType)>,
    ids: Seq<PointIdType>,
)
    requires
        segment.wf(),
        segment.random_outcome(limit, order, ids),
    ensures
        ids.len() == if limit <= segment.id_tracker.live().len() {
            limit as int
        } else {
            segment.id_tracker.live().len() as int
        },
        ids.no_duplicates(),
        forall|i: int| 0 <= i < ids.len() ==> segment.is_live(#[trigger] ids[i]),
{
    let tracker = &segment.id_tracker;
    lemma_random_order(tracker, order);
    assert forall|k: int, l: int| 0 <= k < ids.len() && 0 <= l < ids.len() && k != l implies ids[k]
        != ids[l] by {
        assert(externals(order)[k] != externals(order)[l]);
    }
    assert forall|i: int| 0 <= i < ids.len() implies segment.is_live(#[trigger] ids[i]) by {
        assert(tracker.resolve(order[i].1) == Some(order[i].0));
        assert(tracker@[order[i].1 as int] == Some(ids[i]));
    }
}

/// Where no live point satisfies the filter, the index-driven strategy
/// returns nothing.
pub proof fn lemma_index_shuffled_no_match(
    segment: &Segment,
    limit: usize,
    filter: &Filter,
    considered: int,
    ids: Seq<PointIdType>,
)
    requires
        segment.wf(),
        segment.index_shuffled_outcome(limit, filter, considered, ids),
        forall|external: PointIdType| !segment.satisfies(external, filter),
    ensures
        ids.len() == 0,
{
    lemma_index_shuffled_sound(segment, limit, filter, considered, ids);
    if ids.len() > 0 {
        assert(segment.satisfies(ids[0], filter));
    }
}

/// Where no live point satisfies the filter, the random-stream strategy
/// returns nothing.
pub proof fn lemma_random_stream_no_match(
    segment: &Segment,
    limit: usize,
    filter: &Filter,
    order: Seq<(PointIdType, PointOffsetType)>,
    considered: int,
    ids: Seq<PointIdType>,
)
    requires
        segment.wf(),
        segment.random_stream_outcome(limit, filter, order, considered, ids),
        forall|external: PointIdType| !segment.satisfies(external, filter),
    ensures
        ids.len() == 0,
{
    lemma_random_stream_sound(segment, limit, filter, order, considered, ids);
    if ids.len() > 0 {
        assert(segment.satisfies(ids[0], filter));
    }
}

/// A live identifier belongs to exactly one internal offset, and that
/// offset resolves back to it.
pub proof fn lemma_round_trip(tracker: &IdTracker, external: PointIdType)
    requires
        tracker.wf(),
        tracker@.contains(Some(external)),
    ensures
        exists|internal: PointOffsetType|
            {
                &&& #[trigger] tracker.resolve(internal) == Some(external)
                &&& forall|other: PointOffsetType| #[trigger]
                    tracker.resolve(other) == Some(external) ==> other == internal
            },
{
    let i = choose|i: int| 0 <= i < tracker@.len() && tracker@[i] == Some(external);
    let internal = i as PointOffsetType;
    assert(tracker.resolve(internal) == Some(external));
    assert forall|other: PointOffsetType| #[trigger]
        tracker.resolve(other) == Some(external) implies other == internal by {
        assert(tracker@[other as int] == Some(external));
        assert(tracker@[i] == Some(external));
    }
}

} // verus!
