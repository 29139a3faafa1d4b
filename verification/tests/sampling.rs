use std::cell::Cell;
use std::collections::HashSet;
use std::sync::atomic::AtomicBool;

use segment_sampling::id_tracker::IdTracker;
use segment_sampling::payload::{CardinalityEstimation, Condition, Filter, PayloadIndex};
use segment_sampling::segment::Segment;
use segment_sampling::types::PointIdType;

const COLOR: u64 = 1;
const RANK: u64 = 2;

/// Points 0..n with external identifier 100 + i, `RANK` = i, and `COLOR` = 7
/// on every hundredth point, else 0.
fn build_segment(n: u64) -> Segment {
    let mut segment = Segment::new();
    for i in 0..n {
        let color = if i % 100 == 0 { 7 } else { 0 };
        let internal = segment.add_point(PointIdType::NumId(100 + i), vec![(COLOR, color), (RANK, i as i64)]);
        assert_eq!(internal, Some(i as u32));
    }
    segment
}

fn color_is(value: i64) -> Filter {
    Filter { must: vec![Condition::Match { key: COLOR, value }], should: vec![], must_not: vec![] }
}

fn number_of(id: &PointIdType) -> u64 {
    match id {
        PointIdType::NumId(n) => *n,
        PointIdType::Uuid(_) => panic!("numeric identifier expected"),
    }
}

fn all_distinct(ids: &[PointIdType]) -> bool {
    let set: HashSet<PointIdType> = ids.iter().copied().collect();
    set.len() == ids.len()
}

#[test]
fn index_shuffled_respects_limit_and_filter() {
    let segment = build_segment(1000);
    let flag = AtomicBool::new(false);
    for limit in [0usize, 1, 3, 10, 50] {
        let ids = segment.filtered_read_by_index_shuffled(limit, &color_is(7), &flag);
        assert_eq!(ids.len(), limit.min(10));
        assert!(all_distinct(&ids));
        for id in &ids {
            assert_eq!((number_of(id) - 100) % 100, 0);
        }
    }
}

#[test]
fn random_stream_respects_limit_filter_and_distinctness() {
    let segment = build_segment(1000);
    let flag = AtomicBool::new(false);
    for limit in [0usize, 1, 3, 10, 50] {
        let ids = segment.filtered_read_by_random_stream(limit, &color_is(7), &flag);
        assert_eq!(ids.len(), limit.min(10));
        assert!(all_distinct(&ids));
        for id in &ids {
            assert_eq!((number_of(id) - 100) % 100, 0);
        }
    }
}

#[test]
fn random_returns_min_of_limit_and_live_count() {
    let mut segment = build_segment(30);
    assert!(segment.delete_point(PointIdType::NumId(105)));
    assert!(!segment.delete_point(PointIdType::NumId(105)));
    assert_eq!(segment.id_tracker.available_point_count(), 29);
    for limit in [0usize, 1, 29, 30, 1000, usize::MAX] {
        let ids = segment.read_by_random_id(limit);
        assert_eq!(ids.len(), limit.min(29));
        assert!(all_distinct(&ids));
        for id in &ids {
            let n = number_of(id);
            assert!((100..130).contains(&n));
            assert_ne!(n, 105);
        }
    }
}

#[test]
fn flag_set_before_the_scan_gives_nothing() {
    let segment = build_segment(200);
    let flag = AtomicBool::new(true);
    assert_eq!(segment.filtered_read_by_index_shuffled(10, &Filter::match_all(), &flag), vec![]);
    assert_eq!(segment.filtered_read_by_random_stream(10, &Filter::match_all(), &flag), vec![]);
    assert_eq!(segment.read_by_index_shuffled_until(10, &Filter::match_all(), || true), vec![]);
    assert_eq!(segment.read_by_random_stream_until(10, &Filter::match_all(), || true), vec![]);
}

#[test]
fn filter_without_matches_gives_nothing() {
    let segment = build_segment(200);
    let flag = AtomicBool::new(false);
    assert_eq!(segment.filtered_read_by_index_shuffled(10, &color_is(99), &flag), vec![]);
    assert_eq!(segment.filtered_read_by_random_stream(10, &color_is(99), &flag), vec![]);
}

#[test]
fn empty_segment_gives_nothing() {
    let segment = Segment::new();
    let flag = AtomicBool::new(false);
    assert_eq!(segment.filtered_read_by_index_shuffled(10, &Filter::match_all(), &flag), vec![]);
    assert_eq!(segment.filtered_read_by_random_stream(10, &Filter::match_all(), &flag), vec![]);
    assert_eq!(segment.read_by_random_id(10), vec![]);
}

#[test]
fn random_orderings_differ_between_calls() {
    let segment = build_segment(1000);
    let first = segment.read_by_random_id(100);
    assert_eq!(first.len(), 100);
    assert!(all_distinct(&first));
    let mut differed = false;
    for _ in 0..10 {
        let next = segment.read_by_random_id(100);
        assert_eq!(next.len(), 100);
        assert!(all_distinct(&next));
        if next != first {
            differed = true;
        }
    }
    assert!(differed);
}

#[test]
fn random_order_is_not_the_stored_order() {
    let tracker_segment = build_segment(1000);
    let stored: Vec<u32> = (0..1000).collect();
    let mut differed = false;
    for _ in 0..10 {
        let order = tracker_segment.id_tracker.iter_random();
        assert_eq!(order.len(), 1000);
        let mut offsets: Vec<u32> = order.iter().map(|p| p.1).collect();
        if offsets != stored {
            differed = true;
        }
        for (external, internal) in &order {
            assert_eq!(number_of(external), 100 + u64::from(*internal));
        }
        offsets.sort();
        assert_eq!(offsets, stored);
    }
    assert!(differed);
}

#[test]
fn index_shuffled_five_of_ten_matches() {
    let segment = build_segment(1000);
    let flag = AtomicBool::new(false);
    let natural: Vec<PointIdType> = (0..5).map(|i| PointIdType::NumId(100 + 100 * i)).collect();
    let mut left_natural_order = false;
    let mut seen = HashSet::new();
    for _ in 0..200 {
        let ids = segment.filtered_read_by_index_shuffled(5, &color_is(7), &flag);
        assert_eq!(ids.len(), 5);
        assert!(all_distinct(&ids));
        for id in &ids {
            assert_eq!((number_of(id) - 100) % 100, 0);
            seen.insert(*id);
        }
        if ids != natural {
            left_natural_order = true;
        }
    }
    assert!(left_natural_order);
    assert_eq!(seen.len(), 10);
}

#[test]
fn index_shuffled_keeps_all_when_limit_is_large() {
    let segment = build_segment(1000);
    let flag = AtomicBool::new(false);
    let ids = segment.filtered_read_by_index_shuffled(usize::MAX, &color_is(7), &flag);
    let mut numbers: Vec<u64> = ids.iter().map(number_of).collect();
    numbers.sort();
    let expected: Vec<u64> = (0..10).map(|i| 100 + 100 * i).collect();
    assert_eq!(numbers, expected);
}

#[test]
fn random_stream_twenty_of_thousand() {
    let segment = build_segment(1000);
    let flag = AtomicBool::new(false);
    let ids = segment.filtered_read_by_random_stream(20, &Filter::match_all(), &flag);
    assert_eq!(ids.len(), 20);
    assert!(all_distinct(&ids));
}

#[test]
fn stop_after_one_element_gives_at_most_one() {
    let segment = build_segment(1000);
    let polls = Cell::new(0u32);
    let stop = || {
        polls.set(polls.get() + 1);
        polls.get() > 1
    };
    let ids = segment.read_by_random_stream_until(10, &Filter::match_all(), stop);
    assert_eq!(ids.len(), 1);

    let polls = Cell::new(0u32);
    let stop = || {
        polls.set(polls.get() + 1);
        polls.get() > 1
    };
    let ids = segment.read_by_index_shuffled_until(10, &Filter::match_all(), stop);
    assert_eq!(ids, vec![PointIdType::NumId(100)]);

    let polls = Cell::new(0u32);
    let stop = || {
        polls.set(polls.get() + 1);
        polls.get() > 1
    };
    let ids = segment.read_by_random_stream_until(10, &color_is(7), stop);
    assert!(ids.len() <= 1);
}

#[test]
fn stop_is_polled_before_each_candidate() {
    let segment = build_segment(1000);
    let polls = Cell::new(0u32);
    let ids = segment.read_by_index_shuffled_until(3, &color_is(7), || {
        polls.set(polls.get() + 1);
        false
    });
    assert_eq!(ids.len(), 3);
    assert_eq!(polls.get(), 11);

    let polls = Cell::new(0u32);
    let ids = segment.read_by_random_stream_until(2000, &color_is(7), || {
        polls.set(polls.get() + 1);
        false
    });
    assert_eq!(ids.len(), 10);
    assert_eq!(polls.get(), 1000);

    let polls = Cell::new(0u32);
    let ids = segment.read_by_random_stream_until(0, &color_is(7), || {
        polls.set(polls.get() + 1);
        false
    });
    assert_eq!(ids, vec![]);
    assert_eq!(polls.get(), 0);
}

#[test]
fn returned_identifiers_round_trip() {
    let mut segment = build_segment(300);
    for i in 0..50 {
        assert!(segment.delete_point(PointIdType::NumId(100 + 2 * i)));
    }
    let flag = AtomicBool::new(false);
    let mut all = segment.filtered_read_by_index_shuffled(40, &Filter::match_all(), &flag);
    all.extend(segment.filtered_read_by_random_stream(40, &Filter::match_all(), &flag));
    all.extend(segment.read_by_random_id(40));
    assert_eq!(all.len(), 120);
    for id in all {
        let internal = segment.id_tracker.internal_id(id).expect("a returned point is live");
        assert_eq!(segment.id_tracker.external_id(internal), Some(id));
    }
}

#[test]
fn deleted_points_are_never_returned() {
    let mut segment = build_segment(1000);
    for i in 0..9 {
        assert!(segment.delete_point(PointIdType::NumId(100 + 100 * i)));
    }
    let flag = AtomicBool::new(false);
    let only = vec![PointIdType::NumId(1000)];
    assert_eq!(segment.filtered_read_by_index_shuffled(5, &color_is(7), &flag), only);
    assert_eq!(segment.filtered_read_by_random_stream(5, &color_is(7), &flag), only);
    assert_eq!(segment.read_by_random_id(2000).len(), 991);
}

#[test]
fn tracker_maps_both_ways() {
    let mut tracker = IdTracker::new();
    assert_eq!(tracker.insert(PointIdType::NumId(7)), Some(0));
    assert_eq!(tracker.insert(PointIdType::Uuid(7)), Some(1));
    assert_eq!(tracker.insert(PointIdType::NumId(7)), None);
    assert_eq!(tracker.total_point_count(), 2);
    assert_eq!(tracker.external_id(0), Some(PointIdType::NumId(7)));
    assert_eq!(tracker.external_id(1), Some(PointIdType::Uuid(7)));
    assert_eq!(tracker.external_id(2), None);
    assert_eq!(tracker.internal_id(PointIdType::Uuid(7)), Some(1));
    assert_eq!(tracker.internal_id(PointIdType::NumId(8)), None);
    assert_eq!(tracker.remove(PointIdType::NumId(7)), Some(0));
    assert_eq!(tracker.remove(PointIdType::NumId(7)), None);
    assert_eq!(tracker.external_id(0), None);
    assert_eq!(tracker.available_point_count(), 1);
    assert_eq!(tracker.live_points(), vec![(PointIdType::Uuid(7), 1)]);
    assert_eq!(tracker.insert(PointIdType::NumId(7)), Some(2));
    assert_eq!(tracker.live_points(), vec![(PointIdType::Uuid(7), 1), (PointIdType::NumId(7), 2)]);
}

#[test]
fn add_point_rejects_a_live_identifier() {
    let mut segment = Segment::new();
    assert_eq!(segment.add_point(PointIdType::NumId(1), vec![]), Some(0));
    assert_eq!(segment.add_point(PointIdType::NumId(1), vec![(COLOR, 1)]), None);
    assert_eq!(segment.payload_index.indexed_points(), 1);
    assert_eq!(segment.id_tracker.total_point_count(), 1);
}

#[test]
fn filter_clauses_combine() {
    let payload = vec![(COLOR, 3), (RANK, 10), (RANK, 20)];
    let is = |key, value| Condition::Match { key, value };
    let within = |key, gte, lte| Condition::Range { key, gte, lte };

    assert!(Filter::match_all().check(&payload));
    assert!(Filter::match_all().check(&vec![]));
    assert!(Filter::match_all().is_empty());

    assert!(is(COLOR, 3).check(&payload));
    assert!(!is(COLOR, 4).check(&payload));
    assert!(!is(RANK, 3).check(&payload));
    assert!(is(RANK, 20).check(&payload));
    assert!(within(RANK, 20, 20).check(&payload));
    assert!(within(RANK, 11, 25).check(&payload));
    assert!(!within(RANK, 11, 19).check(&payload));
    assert!(!within(RANK, 25, 11).check(&payload));
    assert!(!within(COLOR, 10, 20).check(&payload));
    assert!(is(COLOR, 3).check_field(&(COLOR, 3)));
    assert!(!is(COLOR, 3).check_field(&(RANK, 3)));

    let must = Filter { must: vec![is(COLOR, 3), within(RANK, 0, 10)], should: vec![], must_not: vec![] };
    assert!(must.check(&payload));
    assert!(!must.is_empty());
    let must_fail = Filter { must: vec![is(COLOR, 3), is(RANK, 11)], should: vec![], must_not: vec![] };
    assert!(!must_fail.check(&payload));
    let should = Filter { must: vec![], should: vec![is(COLOR, 9), is(RANK, 20)], must_not: vec![] };
    assert!(should.check(&payload));
    let should_fail = Filter { must: vec![], should: vec![is(COLOR, 9), is(RANK, 21)], must_not: vec![] };
    assert!(!should_fail.check(&payload));
    let must_not = Filter { must: vec![is(COLOR, 3)], should: vec![], must_not: vec![is(RANK, 10)] };
    assert!(!must_not.check(&payload));
    let must_not_ok = Filter { must: vec![is(COLOR, 3)], should: vec![], must_not: vec![is(RANK, 11)] };
    assert!(must_not_ok.check(&payload));
    assert!(!must_fail.check(&vec![]));
    assert!(Filter { must: vec![], should: vec![], must_not: vec![is(RANK, 10)] }.check(&vec![]));
}

#[test]
fn index_enumerates_matches_in_offset_order() {
    let mut index = PayloadIndex::new();
    for i in 0..10i64 {
        index.push(vec![(RANK, i % 3)]);
    }
    let filter = Filter { must: vec![Condition::Match { key: RANK, value: 1 }], should: vec![], must_not: vec![] };
    assert_eq!(index.iter_filtered_points(&filter), vec![1, 4, 7]);
    assert_eq!(index.iter_filtered_points(&Filter::match_all()), (0..10).collect::<Vec<u32>>());
    assert!(index.check_point(&filter, 4));
    assert!(!index.check_point(&filter, 5));
    assert!(!index.check_point(&filter, 10));
    let context = index.filter_context(&filter);
    assert!(context.check(7));
    assert!(!context.check(8));
    assert!(!context.check(u32::MAX));
}

#[test]
fn cardinality_estimate_values() {
    let mut index = PayloadIndex::new();
    assert_eq!(
        index.estimate_cardinality(&color_is(1)),
        CardinalityEstimation { min: 0, exp: 0, max: 0 }
    );
    for i in 0..11i64 {
        index.push(vec![(COLOR, i)]);
    }
    assert_eq!(
        index.estimate_cardinality(&Filter::match_all()),
        CardinalityEstimation { min: 11, exp: 11, max: 11 }
    );
    assert_eq!(
        index.estimate_cardinality(&color_is(1)),
        CardinalityEstimation { min: 0, exp: 5, max: 11 }
    );
}
