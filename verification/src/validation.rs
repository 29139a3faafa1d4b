//! Structural validation of query objects before they reach a segment.
//!
//! Only the decisions are made here: which variant is rejected, with which
//! failure, and which nested failure surfaces first. The shape of a sparse
//! or multi-dense vector, of a set of named vectors, of a discovery query
//! and of an order-by clause is checked elsewhere; the objects below carry
//! the outcome of that check in place of the data.

use vstd::prelude::*;

verus! {

/// Outcome of a shape check made on a nested part. A failed check carries
/// the number under which its report is kept by whoever made the check.
#[derive(Clone, Copy, Debug, PartialEq, Eq, Structural)]
pub enum NestedCheck {
    Passed,
    Failed(usize),
}

/// Why a query object was rejected.
#[derive(Clone, Copy, Debug, PartialEq, Eq, Structural)]
pub enum Rejection {
    /// The object asks for document inference.
    NotSupportedInference,
    /// A recommendation carries neither a positive nor a negative example.
    MissingExamples,
    /// A nested shape check failed; the number names its report.
    Nested(usize),
}

impl NestedCheck {
    /// What the check contributes to the validation of its owner.
    pub open spec fn verdict(self) -> Result<(), Rejection> {
        match self {
            NestedCheck::Passed => Ok(()),
            NestedCheck::Failed(report) => Err(Rejection::Nested(report)),
        }
    }

    /// Surfaces a failed check as a rejection.
    pub fn validate(&self) -> (outcome: Result<(), Rejection>)
        ensures
            outcome == self.verdict(),
    {
        match self {
            NestedCheck::Passed => Ok(()),
            NestedCheck::Failed(report) => Err(Rejection::Nested(*report)),
        }
    }
}

impl Rejection {
    /// The field the rejection is attached to, where this layer names one.
    pub fn field(&self) -> (name: Option<&'static str>)
        ensures
            match *self {
                Rejection::NotSupportedInference => name.is_some() && name.unwrap()@ == "text"@,
                Rejection::MissingExamples => name.is_some() && name.unwrap()@
                    == "positives, negatives"@,
                Rejection::Nested(_) => name.is_none(),
            },
    {
        match self {
            Rejection::NotSupportedInference => Some("text"),
            Rejection::MissingExamples => Some("positives, negatives"),
            Rejection::Nested(_) => None,
        }
    }

    /// The code of the rejection, where this layer names one.
    pub fn code(&self) -> (code: Option<&'static str>)
        ensures
            match *self {
                Rejection::NotSupportedInference => code.is_some() && code.unwrap()@
                    == "not_supported_inference"@,
                Rejection::MissingExamples => code.is_some() && code.unwrap()@
                    == "At least one positive or negative vector/id must be provided"@,
                Rejection::Nested(_) => code.is_none(),
            },
    {
        match self {
            Rejection::NotSupportedInference => Some("not_supported_inference"),
            Rejection::MissingExamples => Some(
                "At least one positive or negative vector/id must be provided",
            ),
            Rejection::Nested(_) => None,
        }
    }

    /// The message parameter of the rejection, where it has one.
    pub fn message(&self) -> (message: Option<&'static str>)
        ensures
            match *self {
                Rejection::NotSupportedInference => message.is_some() && message.unwrap()@
                    == "Document inference is not implemented, please use vectors instead"@,
                _ => message.is_none(),
            },
    {
        match self {
            Rejection::NotSupportedInference => Some(
                "Document inference is not implemented, please use vectors instead",
            ),
            _ => None,
        }
    }
}

/// A vector given for one point: one unnamed vector, or vectors by name.
#[derive(Clone, Copy, Debug, PartialEq, Eq, Structural)]
pub enum VectorStruct {
    Single,
    MultiDense(NestedCheck),
    Named(NestedCheck),
    Document,
}

/// Vectors given for a batch of points.
#[derive(Clone, Debug)]
pub enum BatchVectorStruct {
    Single,
    MultiDense(Vec<NestedCheck>),
    Named(NestedCheck),
    Document,
}

/// One vector of any kind.
#[derive(Clone, Copy, Debug, PartialEq, Eq, Structural)]
pub enum Vector {
    Dense,
    Sparse(NestedCheck),
    MultiDense(NestedCheck),
    Document,
}

/// A search vector with an optional name.
#[derive(Clone, Copy, Debug, PartialEq, Eq, Structural)]
pub enum NamedVectorStruct {
    Default,
    Dense,
    Sparse(NestedCheck),
}

/// A vector, or a reference to a stored point, given as query input.
#[derive(Clone, Copy, Debug, PartialEq, Eq, Structural)]
pub enum VectorInput {
    Id,
    DenseVector,
    SparseVector(NestedCheck),
    MultiDenseVector(NestedCheck),
    Document,
}

/// Positive and negative examples of a recommendation.
#[derive(Clone, Debug)]
pub struct RecommendInput {
    pub positive: Option<Vec<VectorInput>>,
    pub negative: Option<Vec<VectorInput>>,
}

/// One positive and one negative example of a context query.
#[derive(Clone, Copy, Debug, PartialEq, Eq, Structural)]
pub struct ContextPair {
    pub positive: VectorInput,
    pub negative: VectorInput,
}

/// The pairs of a context query.
#[derive(Clone, Debug)]
pub struct ContextInput {
    pub pairs: Option<Vec<ContextPair>>,
}

/// How the results of several queries are fused.
#[derive(Clone, Copy, Debug, PartialEq, Eq, Structural)]
pub enum Fusion {
    Rrf,
    Dbsf,
}

/// An order-by clause: a bare key, or a full clause checked elsewhere.
#[derive(Clone, Copy, Debug, PartialEq, Eq, Structural)]
pub enum OrderByInterface {
    Key,
    Struct(NestedCheck),
}

/// How points are sampled.
#[derive(Clone, Copy, Debug, PartialEq, Eq, Structural)]
pub enum Sample {
    Random,
}

/// A query of any kind.
#[derive(Clone, Debug)]
pub enum Query {
    Nearest(VectorInput),
    Recommend(RecommendInput),
    Discover(NestedCheck),
    Context(ContextInput),
    Fusion(Fusion),
    OrderBy(OrderByInterface),
    Sample(Sample),
}

/// A query, or a bare vector that stands for a nearest-neighbour query.
#[derive(Clone, Debug)]
pub enum QueryInterface {
    Nearest(VectorInput),
    Query(Query),
}

/// The first failure among the checks from position `start` on.
pub open spec fn first_failed_check(checks: Seq<NestedCheck>, start: int) -> Result<(), Rejection>
    decreases checks.len() - start,
{
    if start < 0 || start >= checks.len() {
        Ok(())
    } else {
        match checks[start].verdict() {
            Err(rejection) => Err(rejection),
            Ok(_) => first_failed_check(checks, start + 1),
        }
    }
}

/// The first rejection among the inputs from position `start` on.
pub open spec fn first_rejected_input(inputs: Seq<VectorInput>, start: int) -> Result<
    (),
    Rejection,
>
    decreases inputs.len() - start,
{
    if start < 0 || start >= inputs.len() {
        Ok(())
    } else {
        match inputs[start].verdict() {
            Err(rejection) => Err(rejection),
            Ok(_) => first_rejected_input(inputs, start + 1),
        }
    }
}

/// The first rejection among the pairs from position `start` on.
pub open spec fn first_rejected_pair(pairs: Seq<ContextPair>, start: int) -> Result<(), Rejection>
    decreases pairs.len() - start,
{
    if start < 0 || start >= pairs.len() {
        Ok(())
    } else {
        match pairs[start].verdict() {
            Err(rejection) => Err(rejection),
            Ok(_) => first_rejected_pair(pairs, start + 1),
        }
    }
}

/// The items of an optional list; an absent list has none.
pub open spec fn items_of<T>(list: Option<Vec<T>>) -> Seq<T> {
    match list {
        Some(items) => items@,
        None => Seq::empty(),
    }
}

/// Validates the inputs in order and stops at the first rejection.
pub fn validate_inputs(inputs: &Vec<VectorInput>) -> (outcome: Result<(), Rejection>)
    ensures
        outcome == first_rejected_input(inputs@, 0),
{
    let mut i: usize = 0;
    while i < inputs.len()
        invariant
            i <= inputs.len(),
            first_rejected_input(inputs@, 0) == first_rejected_input(inputs@, i as int),
        decreases inputs.len() - i,
    {
        match inputs[i].validate() {
            Err(rejection) => {
                return Err(rejection);
            },
            Ok(_) => {},
        }
        i += 1;
    }
    Ok(())
}

/// Surfaces the first failed check, in order.
pub fn validate_checks(checks: &Vec<NestedCheck>) -> (outcome: Result<(), Rejection>)
    ensures
        outcome == first_failed_check(checks@, 0),
{
    let mut i: usize = 0;
    while i < checks.len()
        invariant
            i <= checks.len(),
            first_failed_check(checks@, 0) == first_failed_check(checks@, i as int),
        decreases checks.len() - i,
    {
        match checks[i].validate() {
            Err(rejection) => {
                return Err(rejection);
            },
            Ok(_) => {},
        }
        i += 1;
    }
    Ok(())
}

/// Validates the pairs in order and stops at the first rejection.
pub fn validate_pairs(pairs: &Vec<ContextPair>) -> (outcome: Result<(), Rejection>)
    ensures
        outcome == first_rejected_pair(pairs@, 0),
{
    let mut i: usize = 0;
    while i < pairs.len()
        invariant
            i <= pairs.len(),
            first_rejected_pair(pairs@, 0) == first_rejected_pair(pairs@, i as int),
        decreases pairs.len() - i,
    {
        match pairs[i].validate() {
            Err(rejection) => {
                return Err(rejection);
            },
            Ok(_) => {},
        }
        i += 1;
    }
    Ok(())
}

impl VectorStruct {
    /// Document inference is rejected; nested shape failures surface.
    pub open spec fn verdict(self) -> Result<(), Rejection> {
        match self {
            VectorStruct::Single => Ok(()),
            VectorStruct::MultiDense(check) => check.verdict(),
            VectorStruct::Named(check) => check.verdict(),
            VectorStruct::Document => Err(Rejection::NotSupportedInference),
        }
    }

    /// Computes the verdict.
    pub fn validate(&self) -> (outcome: Result<(), Rejection>)
        ensures
            outcome == self.verdict(),
    {
        match self {
            VectorStruct::Single => Ok(()),
            VectorStruct::MultiDense(check) => check.validate(),
            VectorStruct::Named(check) => check.validate(),
            VectorStruct::Document => Err(Rejection::NotSupportedInference),
        }
    }
}

impl BatchVectorStruct {
    /// Document inference is rejected; of the multi-dense vectors of a
    /// batch the first failure surfaces.
    pub open spec fn verdict(self) -> Result<(), Rejection> {
        match self {
            BatchVectorStruct::Single => Ok(()),
            BatchVectorStruct::MultiDense(checks) => first_failed_check(checks@, 0),
            BatchVectorStruct::Named(check) => check.verdict(),
            BatchVectorStruct::Document => Err(Rejection::NotSupportedInference),
        }
    }

    /// Computes the verdict.
    pub fn validate(&self) -> (outcome: Result<(), Rejection>)
        ensures
            outcome == self.verdict(),
    {
        match self {
            BatchVectorStruct::Single => Ok(()),
            BatchVectorStruct::MultiDense(checks) => validate_checks(checks),
            BatchVectorStruct::Named(check) => check.validate(),
            BatchVectorStruct::Document => Err(Rejection::NotSupportedInference),
        }
    }
}

impl Vector {
    /// Document inference is rejected; nested shape failures surface.
    pub open spec fn verdict(self) -> Result<(), Rejection> {
        match self {
            Vector::Dense => Ok(()),
            Vector::Sparse(check) => check.verdict(),
            Vector::MultiDense(check) => check.verdict(),
            Vector::Document => Err(Rejection::NotSupportedInference),
        }
    }

    /// Computes the verdict.
    pub fn validate(&self) -> (outcome: Result<(), Rejection>)
        ensures
            outcome == self.verdict(),
    {
        match self {
            Vector::Dense => Ok(()),
            Vector::Sparse(check) => check.validate(),
            Vector::MultiDense(check) => check.validate(),
            Vector::Document => Err(Rejection::NotSupportedInference),
        }
    }
}

impl NamedVectorStruct {
    /// Only a sparse vector can fail, by its shape.
    pub open spec fn verdict(self) -> Result<(), Rejection> {
        match self {
            NamedVectorStruct::Default => Ok(()),
            NamedVectorStruct::Dense => Ok(()),
            NamedVectorStruct::Sparse(check) => check.verdict(),
        }
    }

    /// Computes the verdict.
    pub fn validate(&self) -> (outcome: Result<(), Rejection>)
        ensures
            outcome == self.verdict(),
    {
        match self {
            NamedVectorStruct::Default => Ok(()),
            NamedVectorStruct::Dense => Ok(()),
            NamedVectorStruct::Sparse(check) => check.validate(),
        }
    }
}

impl VectorInput {
    /// Document inference is rejected; nested shape failures surface.
    pub open spec fn verdict(self) -> Result<(), Rejection> {
        match self {
            VectorInput::Id => Ok(()),
            VectorInput::DenseVector => Ok(()),
            VectorInput::SparseVector(check) => check.verdict(),
            VectorInput::MultiDenseVector(check) => check.verdict(),
            VectorInput::Document => Err(Rejection::NotSupportedInference),
        }
    }

    /// Computes the verdict.
    pub fn validate(&self) -> (outcome: Result<(), Rejection>)
        ensures
            outcome == self.verdict(),
    {
        match self {
            VectorInput::Id => Ok(()),
            VectorInput::DenseVector => Ok(()),
            VectorInput::SparseVector(check) => check.validate(),
            VectorInput::MultiDenseVector(check) => check.validate(),
            VectorInput::Document => Err(Rejection::NotSupportedInference),
        }
    }
}

impl RecommendInput {
    /// Without any example the recommendation is rejected; otherwise the
    /// first rejected example surfaces, positives before negatives.
    pub open spec fn verdict(self) -> Result<(), Rejection> {
        if items_of(self.positive).len() == 0 && items_of(self.negative).len() == 0 {
            Err(Rejection::MissingExamples)
        } else {
            match first_rejected_input(items_of(self.positive), 0) {
                Err(rejection) => Err(rejection),
                Ok(_) => first_rejected_input(items_of(self.negative), 0),
            }
        }
    }

    /// Computes the verdict.
    pub fn validate(&self) -> (outcome: Result<(), Rejection>)
        ensures
            outcome == self.verdict(),
    {
        let no_positives = match &self.positive {
            Some(positive) => positive.len() == 0,
            None => true,
        };
        let no_negatives = match &self.negative {
            Some(negative) => negative.len() == 0,
            None => true,
        };
        if no_positives && no_negatives {
            return Err(Rejection::MissingExamples);
        }
        match &self.positive {
            Some(positive) => {
                match validate_inputs(positive) {
                    Err(rejection) => {
                        return Err(rejection);
                    },
                    Ok(_) => {},
                }
            },
            None => {},
        }
        match &self.negative {
            Some(negative) => validate_inputs(negative),
            None => Ok(()),
        }
    }
}

impl ContextPair {
    /// The positive example is looked at before the negative one.
    pub open spec fn verdict(self) -> Result<(), Rejection> {
        match self.positive.verdict() {
            Err(rejection) => Err(rejection),
            Ok(_) => self.negative.verdict(),
        }
    }

    /// Computes the verdict.
    pub fn validate(&self) -> (outcome: Result<(), Rejection>)
        ensures
            outcome == self.verdict(),
    {
        match self.positive.validate() {
            Err(rejection) => Err(rejection),
            Ok(_) => self.negative.validate(),
        }
    }
}

impl ContextInput {
    /// The first rejected example of the first rejected pair surfaces; a
    /// context query without pairs is accepted.
    pub open spec fn verdict(self) -> Result<(), Rejection> {
        first_rejected_pair(items_of(self.pairs), 0)
    }

    /// Computes the verdict.
    pub fn validate(&self) -> (outcome: Result<(), Rejection>)
        ensures
            outcome == self.verdict(),
    {
        match &self.pairs {
            Some(pairs) => validate_pairs(pairs),
            None => Ok(()),
        }
    }
}

impl Fusion {
    /// Every fusion is accepted.
    pub fn validate(&self) -> (outcome: Result<(), Rejection>)
        ensures
            outcome == Ok::<(), Rejection>(()),
    {
        match self {
            Fusion::Rrf | Fusion::Dbsf => Ok(()),
        }
    }
}

impl OrderByInterface {
    /// A bare key is accepted; a full clause fails by its own check.
    pub open spec fn verdict(self) -> Result<(), Rejection> {
        match self {
            OrderByInterface::Key => Ok(()),
            OrderByInterface::Struct(check) => check.verdict(),
        }
    }

    /// Computes the verdict.
    pub fn validate(&self) -> (outcome: Result<(), Rejection>)
        ensures
            outcome == self.verdict(),
    {
        match self {
            OrderByInterface::Key => Ok(()),
            OrderByInterface::Struct(check) => check.validate(),
        }
    }
}

impl Sample {
    /// Every sampling mode is accepted.
    pub fn validate(&self) -> (outcome: Result<(), Rejection>)
        ensures
            outcome == Ok::<(), Rejection>(()),
    {
        match self {
            Sample::Random => Ok(()),
        }
    }
}

impl Query {
    /// A query is judged by what its variant holds.
    pub open spec fn verdict(self) -> Result<(), Rejection> {
        match self {
            Query::Nearest(input) => input.verdict(),
            Query::Recommend(recommend) => recommend.verdict(),
            Query::Discover(check) => check.verdict(),
            Query::Context(context) => context.verdict(),
            Query::Fusion(_) => Ok(()),
            Query::OrderBy(order_by) => order_by.verdict(),
            Query::Sample(_) => Ok(()),
        }
    }

    /// Computes the verdict.
    pub fn validate(&self) -> (outcome: Result<(), Rejection>)
        ensures
            outcome == self.verdict(),
    {
        match self {
            Query::Nearest(input) => input.validate(),
            Query::Recommend(recommend) => recommend.validate(),
            Query::Discover(check) => check.validate(),
            Query::Context(context) => context.validate(),
            Query::Fusion(fusion) => fusion.validate(),
            Query::OrderBy(order_by) => order_by.validate(),
            Query::Sample(sample) => sample.validate(),
        }
    }
}

impl QueryInterface {
    /// A bare vector is judged as a vector input, a query as a query.
    pub open spec fn verdict(self) -> Result<(), Rejection> {
        match self {
            QueryInterface::Nearest(input) => input.verdict(),
            QueryInterface::Query(query) => query.verdict(),
        }
    }

    /// Computes the verdict.
    pub fn validate(&self) -> (outcome: Result<(), Rejection>)
        ensures
            outcome == self.verdict(),
    {
        match self {
            QueryInterface::Nearest(input) => input.validate(),
            QueryInterface::Query(query) => query.validate(),
        }
    }
}

} // verus!
