use segment_sampling::validation::{
    validate_checks, validate_inputs, validate_pairs, BatchVectorStruct, ContextInput, ContextPair,
    Fusion, NamedVectorStruct, NestedCheck, OrderByInterface, Query, QueryInterface,
    RecommendInput, Rejection, Sample, Vector, VectorInput, VectorStruct,
};

const PASSED: NestedCheck = NestedCheck::Passed;

fn failed(report: usize) -> NestedCheck {
    NestedCheck::Failed(report)
}

#[test]
fn document_is_rejected_everywhere() {
    let expected = Err(Rejection::NotSupportedInference);
    assert_eq!(VectorStruct::Document.validate(), expected);
    assert_eq!(BatchVectorStruct::Document.validate(), expected);
    assert_eq!(Vector::Document.validate(), expected);
    assert_eq!(VectorInput::Document.validate(), expected);
    assert_eq!(Query::Nearest(VectorInput::Document).validate(), expected);
    assert_eq!(QueryInterface::Nearest(VectorInput::Document).validate(), expected);
    assert_eq!(
        QueryInterface::Query(Query::Nearest(VectorInput::Document)).validate(),
        expected
    );
}

#[test]
fn rejection_texts() {
    let inference = Rejection::NotSupportedInference;
    assert_eq!(inference.field(), Some("text"));
    assert_eq!(inference.code(), Some("not_supported_inference"));
    assert_eq!(
        inference.message(),
        Some("Document inference is not implemented, please use vectors instead")
    );
    let missing = Rejection::MissingExamples;
    assert_eq!(missing.field(), Some("positives, negatives"));
    assert_eq!(
        missing.code(),
        Some("At least one positive or negative vector/id must be provided")
    );
    assert_eq!(missing.message(), None);
    let nested = Rejection::Nested(4);
    assert_eq!(nested.field(), None);
    assert_eq!(nested.code(), None);
    assert_eq!(nested.message(), None);
}

#[test]
fn plain_variants_are_accepted() {
    assert_eq!(VectorStruct::Single.validate(), Ok(()));
    assert_eq!(VectorStruct::MultiDense(PASSED).validate(), Ok(()));
    assert_eq!(VectorStruct::Named(PASSED).validate(), Ok(()));
    assert_eq!(BatchVectorStruct::Single.validate(), Ok(()));
    assert_eq!(BatchVectorStruct::MultiDense(vec![]).validate(), Ok(()));
    assert_eq!(BatchVectorStruct::MultiDense(vec![PASSED, PASSED]).validate(), Ok(()));
    assert_eq!(BatchVectorStruct::Named(PASSED).validate(), Ok(()));
    assert_eq!(Vector::Dense.validate(), Ok(()));
    assert_eq!(Vector::Sparse(PASSED).validate(), Ok(()));
    assert_eq!(Vector::MultiDense(PASSED).validate(), Ok(()));
    assert_eq!(NamedVectorStruct::Default.validate(), Ok(()));
    assert_eq!(NamedVectorStruct::Dense.validate(), Ok(()));
    assert_eq!(NamedVectorStruct::Sparse(PASSED).validate(), Ok(()));
    assert_eq!(VectorInput::Id.validate(), Ok(()));
    assert_eq!(VectorInput::DenseVector.validate(), Ok(()));
    assert_eq!(VectorInput::SparseVector(PASSED).validate(), Ok(()));
    assert_eq!(VectorInput::MultiDenseVector(PASSED).validate(), Ok(()));
    assert_eq!(Fusion::Rrf.validate(), Ok(()));
    assert_eq!(Fusion::Dbsf.validate(), Ok(()));
    assert_eq!(Sample::Random.validate(), Ok(()));
    assert_eq!(OrderByInterface::Key.validate(), Ok(()));
    assert_eq!(OrderByInterface::Struct(PASSED).validate(), Ok(()));
    assert_eq!(Query::Fusion(Fusion::Rrf).validate(), Ok(()));
    assert_eq!(Query::Sample(Sample::Random).validate(), Ok(()));
    assert_eq!(Query::OrderBy(OrderByInterface::Key).validate(), Ok(()));
    assert_eq!(Query::Discover(PASSED).validate(), Ok(()));
    assert_eq!(PASSED.validate(), Ok(()));
}

#[test]
fn nested_failures_surface() {
    assert_eq!(failed(3).validate(), Err(Rejection::Nested(3)));
    assert_eq!(VectorStruct::MultiDense(failed(1)).validate(), Err(Rejection::Nested(1)));
    assert_eq!(VectorStruct::Named(failed(2)).validate(), Err(Rejection::Nested(2)));
    assert_eq!(BatchVectorStruct::Named(failed(3)).validate(), Err(Rejection::Nested(3)));
    assert_eq!(Vector::Sparse(failed(4)).validate(), Err(Rejection::Nested(4)));
    assert_eq!(Vector::MultiDense(failed(5)).validate(), Err(Rejection::Nested(5)));
    assert_eq!(NamedVectorStruct::Sparse(failed(6)).validate(), Err(Rejection::Nested(6)));
    assert_eq!(VectorInput::SparseVector(failed(7)).validate(), Err(Rejection::Nested(7)));
    assert_eq!(VectorInput::MultiDenseVector(failed(8)).validate(), Err(Rejection::Nested(8)));
    assert_eq!(OrderByInterface::Struct(failed(9)).validate(), Err(Rejection::Nested(9)));
    assert_eq!(Query::Discover(failed(10)).validate(), Err(Rejection::Nested(10)));
    assert_eq!(
        Query::OrderBy(OrderByInterface::Struct(failed(11))).validate(),
        Err(Rejection::Nested(11))
    );
}

#[test]
fn batch_stops_at_the_first_failure() {
    let batch = BatchVectorStruct::MultiDense(vec![PASSED, failed(2), failed(1), PASSED]);
    assert_eq!(batch.validate(), Err(Rejection::Nested(2)));
    assert_eq!(validate_checks(&vec![PASSED, PASSED, failed(9)]), Err(Rejection::Nested(9)));
    assert_eq!(validate_checks(&vec![]), Ok(()));
}

#[test]
fn recommend_needs_an_example() {
    let missing = Err(Rejection::MissingExamples);
    assert_eq!(RecommendInput { positive: None, negative: None }.validate(), missing);
    assert_eq!(RecommendInput { positive: Some(vec![]), negative: None }.validate(), missing);
    assert_eq!(RecommendInput { positive: None, negative: Some(vec![]) }.validate(), missing);
    assert_eq!(
        RecommendInput { positive: Some(vec![]), negative: Some(vec![]) }.validate(),
        missing
    );
    assert_eq!(
        Query::Recommend(RecommendInput { positive: None, negative: None }).validate(),
        missing
    );
    assert_eq!(
        RecommendInput { positive: Some(vec![VectorInput::Id]), negative: None }.validate(),
        Ok(())
    );
    assert_eq!(
        RecommendInput { positive: None, negative: Some(vec![VectorInput::DenseVector]) }
            .validate(),
        Ok(())
    );
}

#[test]
fn recommend_reports_the_first_rejected_example() {
    let input = RecommendInput {
        positive: Some(vec![VectorInput::Id, VectorInput::SparseVector(failed(1)), VectorInput::Document]),
        negative: Some(vec![VectorInput::Document]),
    };
    assert_eq!(input.validate(), Err(Rejection::Nested(1)));
    let input = RecommendInput {
        positive: Some(vec![VectorInput::Id]),
        negative: Some(vec![VectorInput::DenseVector, VectorInput::Document, VectorInput::SparseVector(failed(1))]),
    };
    assert_eq!(input.validate(), Err(Rejection::NotSupportedInference));
    let input = RecommendInput {
        positive: None,
        negative: Some(vec![VectorInput::MultiDenseVector(failed(5))]),
    };
    assert_eq!(input.validate(), Err(Rejection::Nested(5)));
    assert_eq!(
        validate_inputs(&vec![VectorInput::Id, VectorInput::Document]),
        Err(Rejection::NotSupportedInference)
    );
    assert_eq!(validate_inputs(&vec![]), Ok(()));
}

#[test]
fn context_reports_the_first_rejected_example() {
    assert_eq!(ContextInput { pairs: None }.validate(), Ok(()));
    assert_eq!(ContextInput { pairs: Some(vec![]) }.validate(), Ok(()));
    let good = ContextPair { positive: VectorInput::Id, negative: VectorInput::DenseVector };
    let bad_negative =
        ContextPair { positive: VectorInput::Id, negative: VectorInput::SparseVector(failed(2)) };
    let bad_both =
        ContextPair { positive: VectorInput::Document, negative: VectorInput::SparseVector(failed(3)) };
    assert_eq!(good.validate(), Ok(()));
    assert_eq!(bad_negative.validate(), Err(Rejection::Nested(2)));
    assert_eq!(bad_both.validate(), Err(Rejection::NotSupportedInference));
    assert_eq!(ContextInput { pairs: Some(vec![good, good]) }.validate(), Ok(()));
    assert_eq!(
        ContextInput { pairs: Some(vec![good, bad_negative, bad_both]) }.validate(),
        Err(Rejection::Nested(2))
    );
    assert_eq!(
        Query::Context(ContextInput { pairs: Some(vec![bad_both, bad_negative]) }).validate(),
        Err(Rejection::NotSupportedInference)
    );
    assert_eq!(validate_pairs(&vec![good, bad_negative]), Err(Rejection::Nested(2)));
}
