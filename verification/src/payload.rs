//! Payloads, filters over them, and the payload index that answers filters
//! for the points of one segment.

use vstd::prelude::*;
use crate::types::PointOffsetType;

verus! {

/// One payload field: a key and the integer stored under it. A point may
/// carry several fields under one key.
pub type Field = (u64, i64);

/// A test on one payload field.
#[derive(Clone, Copy, Debug, PartialEq, Eq, Structural)]
pub enum Condition {
    /// Some field under `key` equals `value`.
    Match { key: u64, value: i64 },
    /// Some field under `key` lies between `gte` and `lte`, both included.
    Range { key: u64, gte: i64, lte: i64 },
}

/// Whether one field meets the condition.
pub open spec fn field_satisfies(condition: Condition, field: Field) -> bool {
    match condition {
        Condition::Match { key, value } => field.0 == key && field.1 == value,
        Condition::Range { key, gte, lte } => field.0 == key && gte <= field.1 <= lte,
    }
}

/// Whether some field of the payload meets the condition.
pub open spec fn condition_holds(condition: Condition, payload: Seq<Field>) -> bool {
    exists|i: int| 0 <= i < payload.len() && field_satisfies(condition, #[trigger] payload[i])
}

/// Whether at least one of the conditions holds.
pub open spec fn any_holds(conditions: Seq<Condition>, payload: Seq<Field>) -> bool {
    exists|i: int| 0 <= i < conditions.len() && condition_holds(#[trigger] conditions[i], payload)
}

/// Whether every one of the conditions holds.
pub open spec fn all_hold(conditions: Seq<Condition>, payload: Seq<Field>) -> bool {
    forall|i: int| 0 <= i < conditions.len() ==> condition_holds(#[trigger] conditions[i], payload)
}

impl Condition {
    /// Evaluates the condition on one field.
    pub fn check_field(&self, field: &Field) -> (holds: bool)
        ensures
            holds == field_satisfies(*self, *field),
    {
        match self {
            Condition::Match { key, value } => field.0 == *key && field.1 == *value,
            Condition::Range { key, gte, lte } => field.0 == *key && *gte <= field.1 && field.1
                <= *lte,
        }
    }

    /// Evaluates the condition on a payload.
    pub fn check(&self, payload: &Vec<Field>) -> (holds: bool)
        ensures
            holds == condition_holds(*self, payload@),
    {
        let mut i: usize = 0;
        while i < payload.len()
            invariant
                i <= payload.len(),
                forall|k: int| 0 <= k < i ==> !field_satisfies(*self, #[trigger] payload@[k]),
            decreases payload.len() - i,
        {
            if self.check_field(&payload[i]) {
                return true;
            }
            i += 1;
        }
        false
    }
}

/// A boolean predicate over payloads. A filter without conditions matches
/// every point.
#[derive(Clone, Debug)]
pub struct Filter {
    /// All of these must hold.
    pub must: Vec<Condition>,
    /// If there are any, at least one of these must hold.
    pub should: Vec<Condition>,
    /// None of these may hold.
    pub must_not: Vec<Condition>,
}

impl Filter {
    /// Whether a point with this payload satisfies the filter.
    pub open spec fn matches(&self, payload: Seq<Field>) -> bool {
        &&& all_hold(self.must@, payload)
        &&& (self.should@.len() == 0 || any_holds(self.should@, payload))
        &&& !any_holds(self.must_not@, payload)
    }

    /// Whether the filter has no condition at all.
    pub open spec fn is_unconditional(&self) -> bool {
        self.must@.len() == 0 && self.should@.len() == 0 && self.must_not@.len() == 0
    }

    /// The filter that matches every point.
    pub fn match_all() -> (filter: Self)
        ensures
            filter.is_unconditional(),
    {
        Filter { must: Vec::new(), should: Vec::new(), must_not: Vec::new() }
    }

    /// Whether the filter has no condition at all.
    pub fn is_empty(&self) -> (empty: bool)
        ensures
            empty == self.is_unconditional(),
    {
        self.must.len() == 0 && self.should.len() == 0 && self.must_not.len() == 0
    }

    /// Evaluates the filter on a payload.
    pub fn check(&self, payload: &Vec<Field>) -> (matched: bool)
        ensures
            matched == self.matches(payload@),
    {
        if !check_all(&self.must, payload) {
            return false;
        }
        if self.should.len() > 0 && !check_any(&self.should, payload) {
            return false;
        }
        !check_any(&self.must_not, payload)
    }
}

/// Whether at least one of the conditions holds on the payload.
pub fn check_any(conditions: &Vec<Condition>, payload: &Vec<Field>) -> (holds: bool)
    ensures
        holds == any_holds(conditions@, payload@),
{
    let mut i: usize = 0;
    while i < conditions.len()
        invariant
            i <= conditions.len(),
            forall|k: int| 0 <= k < i ==> !condition_holds(#[trigger] conditions@[k], payload@),
        decreases conditions.len() - i,
    {
        if conditions[i].check(payload) {
            return true;
        }
        i += 1;
    }
    false
}

/// Whether every one of the conditions holds on the payload.
pub fn check_all(conditions: &Vec<Condition>, payload: &Vec<Field>) -> (holds: bool)
    ensures
        holds == all_hold(conditions@, payload@),
{
    let mut i: usize = 0;
    while i < conditions.len()
        invariant
            i <= conditions.len(),
            forall|k: int| 0 <= k < i ==> condition_holds(#[trigger] conditions@[k], payload@),
        decreases conditions.len() - i,
    {
        if !conditions[i].check(payload) {
            return false;
        }
        i += 1;
    }
    true
}

/// Bounds on the number of indexed points that match a filter.
#[derive(Clone, Copy, Debug, PartialEq, Eq, Structural)]
pub struct CardinalityEstimation {
    /// No fewer points match.
    pub min: usize,
    /// The expected number of matches.
    pub exp: usize,
    /// No more points match.
    pub max: usize,
}

/// Whether the point at `internal` is indexed and its payload satisfies the filter.
pub open spec fn point_matches(
    payloads: Seq<Seq<Field>>,
    filter: &Filter,
    internal: PointOffsetType,
) -> bool {
    internal < payloads.len() && filter.matches(payloads[internal as int])
}

/// The offsets below `n` whose payload satisfies the filter, ascending.
pub open spec fn matching_points(payloads: Seq<Seq<Field>>, filter: &Filter, n: int) -> Seq<
    PointOffsetType,
>
    decreases n,
{
    if n <= 0 {
        Seq::empty()
    } else {
        let before = matching_points(payloads, filter, n - 1);
        if filter.matches(payloads[n - 1]) {
            before.push((n - 1) as PointOffsetType)
        } else {
            before
        }
    }
}

/// What `matching_points` holds: only matching offsets, ascending, all of
/// them, and all offsets when the filter has no condition.
pub proof fn lemma_matching_points(payloads: Seq<Seq<Field>>, filter: &Filter, n: int)
    requires
        0 <= n <= payloads.len() <= u32::MAX,
    ensures
        matching_points(payloads, filter, n).len() <= n,
        filter.is_unconditional() ==> matching_points(payloads, filter, n).len() == n,
        forall|k: int|
            0 <= k < matching_points(payloads, filter, n).len() ==> {
                let p = #[trigger] matching_points(payloads, filter, n)[k];
                p < n && point_matches(payloads, filter, p)
            },
        forall|k: int, l: int|
            0 <= k < l < matching_points(payloads, filter, n).len() ==> (#[trigger] matching_points(
                payloads,
                filter,
                n,
            )[k]) < (#[trigger] matching_points(payloads, filter, n)[l]),
        forall|i: int|
            0 <= i < n && filter.matches(#[trigger] payloads[i]) ==> matching_points(
                payloads,
                filter,
                n,
            ).contains(i as PointOffsetType),
    decreases n,
{
    if n > 0 {
        lemma_matching_points(payloads, filter, n - 1);
        let before = matching_points(payloads, filter, n - 1);
        let now = matching_points(payloads, filter, n);
        assert forall|i: int| 0 <= i < n && filter.matches(#[trigger] payloads[i]) implies now.contains(
            i as PointOffsetType,
        ) by {
            if i < n - 1 {
                let k = choose|k: int| 0 <= k < before.len() && before[k] == i as PointOffsetType;
                assert(now[k] == i as PointOffsetType);
            } else {
                assert(now[now.len() - 1] == i as PointOffsetType);
            }
        }
    }
}

/// Offsets that do not match add nothing: if no payload from `from` up to
/// `to` satisfies the filter, the matches below `to` are those below `from`.
pub proof fn lemma_matching_skip(payloads: Seq<Seq<Field>>, filter: &Filter, from: int, to: int)
    requires
        0 <= from <= to <= payloads.len(),
        forall|j: int| from <= j < to ==> !filter.matches(#[trigger] payloads[j]),
    ensures
        matching_points(payloads, filter, to) == matching_points(payloads, filter, from),
    decreases to - from,
{
    if from < to {
        lemma_matching_skip(payloads, filter, from, to - 1);
    }
}

/// The matches below `n` start with the matches below any smaller bound.
pub proof fn lemma_matching_prefix(payloads: Seq<Seq<Field>>, filter: &Filter, below: int, n: int)
    requires
        0 <= below <= n <= payloads.len(),
    ensures
        matching_points(payloads, filter, below).len() <= matching_points(payloads, filter, n).len(),
        matching_points(payloads, filter, below) == matching_points(payloads, filter, n).take(
            matching_points(payloads, filter, below).len() as int,
        ),
    decreases n - below,
{
    let short = matching_points(payloads, filter, below);
    if below < n {
        lemma_matching_prefix(payloads, filter, below, n - 1);
        let middle = matching_points(payloads, filter, n - 1);
        let long = matching_points(payloads, filter, n);
        assert(short =~= long.take(short.len() as int)) by {
            assert(short == middle.take(short.len() as int));
        }
    } else {
        assert(short =~= short.take(short.len() as int));
    }
}

/// Holds the payload of every point of a segment, by internal offset.
pub struct PayloadIndex {
    payloads: Vec<Vec<Field>>,
}

impl View for PayloadIndex {
    type V = Seq<Seq<Field>>;

    /// Entry `i` is the payload of internal offset `i`.
    closed spec fn view(&self) -> Seq<Seq<Field>> {
        Seq::new(self.payloads@.len(), |i: int| self.payloads@[i]@)
    }
}

impl PayloadIndex {
    /// Offsets fit the offset type.
    pub open spec fn wf(&self) -> bool {
        self@.len() <= u32::MAX
    }

    /// All matching offsets, in index order.
    pub open spec fn matching(&self, filter: &Filter) -> Seq<PointOffsetType> {
        matching_points(self@, filter, self@.len() as int)
    }

    /// An index without points.
    pub fn new() -> (index: Self)
        ensures
            index.wf(),
            index@ == Seq::<Seq<Field>>::empty(),
    {
        let index = PayloadIndex { payloads: Vec::new() };
        assert(index@ =~= Seq::<Seq<Field>>::empty());
        index
    }

    /// Number of indexed points.
    pub fn indexed_points(&self) -> (n: usize)
        ensures
            n == self@.len(),
    {
        self.payloads.len()
    }

    /// Stores the payload of the next internal offset.
    pub fn push(&mut self, payload: Vec<Field>)
        requires
            old(self)@.len() < u32::MAX,
        ensures
            final(self)@ == old(self)@.push(payload@),
            final(self).wf(),
    {
        self.payloads.push(payload);
        assert(self@ =~= old(self)@.push(payload@));
    }

    /// Bounds the number of matches without looking at any payload: exact
    /// for a filter without conditions, otherwise anything up to the number
    /// of indexed points, with half of it expected.
    pub fn estimate_cardinality(&self, filter: &Filter) -> (estimate: CardinalityEstimation)
        requires
            self.wf(),
        ensures
            estimate.max == self@.len(),
            filter.is_unconditional() ==> estimate.min == self@.len() && estimate.exp == self@.len(),
            !filter.is_unconditional() ==> estimate.min == 0 && estimate.exp == self@.len() / 2,
            estimate.min <= self.matching(filter).len() <= estimate.max,
            estimate.min <= estimate.exp <= estimate.max,
    {
        let total = self.payloads.len();
        proof {
            lemma_matching_points(self@, filter, self@.len() as int);
        }
        if filter.is_empty() {
            CardinalityEstimation { min: total, exp: total, max: total }
        } else {
            CardinalityEstimation { min: 0, exp: total / 2, max: total }
        }
    }

    /// Whether the point at `internal` satisfies the filter.
    pub fn check_point(&self, filter: &Filter, internal: PointOffsetType) -> (matched: bool)
        ensures
            matched == point_matches(self@, filter, internal),
    {
        let i: usize = internal as usize;
        if i < self.payloads.len() {
            filter.check(&self.payloads[i])
        } else {
            false
        }
    }

    /// The first offset at or after `from` whose payload satisfies the
    /// filter, if there is one. Repeated calls, each from just behind the
    /// last answer, enumerate the matches in index order without visiting
    /// more of the index than the caller asks for.
    pub fn next_filtered_point(&self, filter: &Filter, from: usize) -> (next: Option<
        PointOffsetType,
    >)
        requires
            self.wf(),
        ensures
            match next {
                Some(p) => {
                    &&& from <= p < self@.len()
                    &&& filter.matches(self@[p as int])
                    &&& forall|j: int| from <= j < p ==> !filter.matches(#[trigger] self@[j])
                },
                None => forall|j: int|
                    from <= j < self@.len() ==> !filter.matches(#[trigger] self@[j]),
            },
    {
        let mut i: usize = from;
        while i < self.payloads.len()
            invariant
                from <= i,
                self.wf(),
                forall|j: int| from <= j < i && j < self@.len() ==> !filter.matches(
                    #[trigger] self@[j],
                ),
            decreases self.payloads.len() - i,
        {
            if filter.check(&self.payloads[i]) {
                return Some(i as PointOffsetType);
            }
            i += 1;
        }
        None
    }

    /// All offsets whose payload satisfies the filter, in index order.
    pub fn iter_filtered_points(&self, filter: &Filter) -> (points: Vec<PointOffsetType>)
        requires
            self.wf(),
        ensures
            points@ == self.matching(filter),
    {
        let mut points: Vec<PointOffsetType> = Vec::new();
        let mut i: usize = 0;
        while i < self.payloads.len()
            invariant
                i <= self.payloads.len(),
                self.wf(),
                points@ == matching_points(self@, filter, i as int),
            decreases self.payloads.len() - i,
        {
            if filter.check(&self.payloads[i]) {
                points.push(i as PointOffsetType);
            }
            i += 1;
        }
        points
    }

    /// Compiles the filter into a point-wise test against this index.
    pub fn filter_context<'a>(&'a self, filter: &'a Filter) -> (context: FilterContext<'a>)
        ensures
            context.payloads() == self@,
            context.filter() == filter,
    {
        FilterContext { index: self, filter }
    }
}

/// A filter bound to the index it is evaluated against.
pub struct FilterContext<'a> {
    index: &'a PayloadIndex,
    filter: &'a Filter,
}

impl<'a> FilterContext<'a> {
    /// The payloads the context reads.
    pub closed spec fn payloads(&self) -> Seq<Seq<Field>> {
        self.index@
    }

    /// The filter the context was compiled from.
    pub closed spec fn filter(&self) -> &Filter {
        self.filter
    }

    /// Whether the point at `internal` satisfies the filter.
    pub fn check(&self, internal: PointOffsetType) -> (matched: bool)
        ensures
            matched == point_matches(self.payloads(), self.filter(), internal),
    {
        self.index.check_point(self.filter, internal)
    }
}

} // verus!
