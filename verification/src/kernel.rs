//! The Delta kernel's expressions and predicates, and what each constructor builds.

use vstd::prelude::*;

use delta_kernel::expressions::{Expression, Predicate, Scalar};

verus! {

/// The kernel's literal values. See [`scalar_view`] for what is known of one.
#[verifier::external_type_specification]
#[verifier::external_body]
pub struct ExScalar(delta_kernel::expressions::Scalar);

/// The kernel's expressions. See [`expression_view`] for what is known of one.
#[verifier::external_type_specification]
#[verifier::external_body]
pub struct ExExpression(delta_kernel::expressions::Expression);

/// The kernel's predicates. See [`predicate_view`] for what is known of one.
#[verifier::external_type_specification]
#[verifier::external_body]
pub struct ExPredicate(delta_kernel::expressions::Predicate);

/// A scalar that a literal stands for.
#[derive(Clone, Debug)]
pub enum ScalarValue {
    Boolean(bool),
    Byte(i8),
    Short(i16),
    Integer(i32),
    Long(i64),
    String(String),
    Date(i32),
}

/// What a kernel scalar holds.
pub ghost enum ScalarView {
    Boolean(bool),
    Byte(i8),
    Short(i16),
    Integer(i32),
    Long(i64),
    String(Seq<char>),
    Date(i32),
    /// A floating-point number in 32 bits, as the scalar itself.
    Float(Scalar),
    /// A floating-point number in 64 bits, as the scalar itself.
    Double(Scalar),
    /// A scalar of any other kind, as itself.
    Other(Scalar),
}

/// The kinds of kernel scalars that a floating-point literal is checked for.
#[derive(Clone, Copy, Debug)]
pub enum ScalarKind {
    Float,
    Double,
    Other,
}

impl View for ScalarValue {
    type V = ScalarView;

    open spec fn view(&self) -> ScalarView {
        match self {
            ScalarValue::Boolean(v) => ScalarView::Boolean(*v),
            ScalarValue::Byte(v) => ScalarView::Byte(*v),
            ScalarValue::Short(v) => ScalarView::Short(*v),
            ScalarValue::Integer(v) => ScalarView::Integer(*v),
            ScalarValue::Long(v) => ScalarView::Long(*v),
            ScalarValue::String(v) => ScalarView::String(v@),
            ScalarValue::Date(v) => ScalarView::Date(*v),
        }
    }
}

/// What a kernel expression holds, as far as the library builds one.
pub ghost enum ExpressionView {
    /// A column, by the path of its field names.
    Column(Seq<Seq<char>>),
    Literal(ScalarView),
    /// An expression of any other kind, as itself.
    Other(Expression),
}

pub ghost enum BinaryOp {
    LessThan,
    GreaterThan,
    Equal,
}

pub ghost enum JunctionOp {
    And,
    Or,
}

/// What a kernel predicate holds, as far as the library builds one.
pub ghost enum PredicateView {
    /// A predicate that is constantly true or false.
    Constant(bool),
    IsNull(ExpressionView),
    Binary(BinaryOp, ExpressionView, ExpressionView),
    Not(Box<PredicateView>),
    Junction(JunctionOp, Seq<PredicateView>),
    /// A predicate of any other kind, as itself.
    Other(Predicate),
}

/// What a scalar of the kernel holds.
pub uninterp spec fn scalar_view(scalar: Scalar) -> ScalarView;

/// What an expression of the kernel holds.
pub uninterp spec fn expression_view(expression: Expression) -> ExpressionView;

/// What a predicate of the kernel holds.
pub uninterp spec fn predicate_view(predicate: Predicate) -> PredicateView;

/// What the predicates of a sequence hold, in order.
pub open spec fn predicate_views(predicates: Seq<Predicate>) -> Seq<PredicateView> {
    predicates.map_values(|p: Predicate| predicate_view(p))
}

/// The junction of `parts`: of none the operator's identity, of one that part itself.
pub open spec fn junction(op: JunctionOp, parts: Seq<PredicateView>) -> PredicateView {
    if parts.len() == 0 {
        PredicateView::Constant(op == JunctionOp::And)
    } else if parts.len() == 1 {
        parts[0]
    } else {
        PredicateView::Junction(op, parts)
    }
}

/// The negation of `part`.
pub open spec fn negation(part: PredicateView) -> PredicateView {
    PredicateView::Not(Box::new(part))
}

/// The variants of `delta_kernel::expressions::Scalar`, told apart: whether a scalar is a `Float`,
/// a `Double` or neither.
#[verifier::external_body]
pub(crate) fn scalar_kind(scalar: &Scalar) -> (kind: ScalarKind)
    ensures
        kind is Float <==> scalar_view(*scalar) == ScalarView::Float(*scalar),
        kind is Double <==> scalar_view(*scalar) == ScalarView::Double(*scalar),
{
    match scalar {
        Scalar::Float(_) => ScalarKind::Float,
        Scalar::Double(_) => ScalarKind::Double,
        _ => ScalarKind::Other,
    }
}

/// The variants of `delta_kernel::expressions::Scalar`: each holds the value that it is made from.
#[verifier::external_body]
pub(crate) fn scalar(value: ScalarValue) -> (scalar: Scalar)
    ensures
        scalar_view(scalar) == value@,
{
    match value {
        ScalarValue::Boolean(v) => Scalar::Boolean(v),
        ScalarValue::Byte(v) => Scalar::Byte(v),
        ScalarValue::Short(v) => Scalar::Short(v),
        ScalarValue::Integer(v) => Scalar::Integer(v),
        ScalarValue::Long(v) => Scalar::Long(v),
        ScalarValue::String(v) => Scalar::String(v),
        ScalarValue::Date(v) => Scalar::Date(v),
    }
}

/// `Clone` of `delta_kernel::expressions::Scalar`: the clone is the same value.
pub assume_specification[ <Scalar as Clone>::clone ](scalar: &Scalar) -> (clone: Scalar)
    ensures
        clone == *scalar,
;

/// `Expression::column` on one field name: a reference to the top-level column of that name,
/// taken as it is, dots included.
#[verifier::external_body]
pub(crate) fn column(name: String) -> (expression: Expression)
    ensures
        expression_view(expression) == ExpressionView::Column(seq![name@]),
{
    Expression::column([name])
}

/// `Expression::literal`: an expression that is the scalar.
#[verifier::external_body]
pub(crate) fn literal(scalar: Scalar) -> (expression: Expression)
    ensures
        expression_view(expression) == ExpressionView::Literal(scalar_view(scalar)),
{
    Expression::literal(scalar)
}

/// `Predicate::eq`: the comparison `left = right`.
#[verifier::external_body]
pub(crate) fn eq(left: Expression, right: Expression) -> (predicate: Predicate)
    ensures
        predicate_view(predicate) == PredicateView::Binary(
            BinaryOp::Equal,
            expression_view(left),
            expression_view(right),
        ),
{
    Predicate::eq(left, right)
}

/// `Predicate::ne`: the negation of `left = right`.
#[verifier::external_body]
pub(crate) fn ne(left: Expression, right: Expression) -> (predicate: Predicate)
    ensures
        predicate_view(predicate) == negation(
            PredicateView::Binary(BinaryOp::Equal, expression_view(left), expression_view(right)),
        ),
{
    Predicate::ne(left, right)
}

/// `Predicate::gt`: the comparison `left > right`.
#[verifier::external_body]
pub(crate) fn gt(left: Expression, right: Expression) -> (predicate: Predicate)
    ensures
        predicate_view(predicate) == PredicateView::Binary(
            BinaryOp::GreaterThan,
            expression_view(left),
            expression_view(right),
        ),
{
    Predicate::gt(left, right)
}

/// `Predicate::ge`: the negation of `left < right`.
#[verifier::external_body]
pub(crate) fn ge(left: Expression, right: Expression) -> (predicate: Predicate)
    ensures
        predicate_view(predicate) == negation(
            PredicateView::Binary(
                BinaryOp::LessThan,
                expression_view(left),
                expression_view(right),
            ),
        ),
{
    Predicate::ge(left, right)
}

/// `Predicate::lt`: the comparison `left < right`.
#[verifier::external_body]
pub(crate) fn lt(left: Expression, right: Expression) -> (predicate: Predicate)
    ensures
        predicate_view(predicate) == PredicateView::Binary(
            BinaryOp::LessThan,
            expression_view(left),
            expression_view(right),
        ),
{
    Predicate::lt(left, right)
}

/// `Predicate::le`: the negation of `left > right`.
#[verifier::external_body]
pub(crate) fn le(left: Expression, right: Expression) -> (predicate: Predicate)
    ensures
        predicate_view(predicate) == negation(
            PredicateView::Binary(
                BinaryOp::GreaterThan,
                expression_view(left),
                expression_view(right),
            ),
        ),
{
    Predicate::le(left, right)
}

/// `Predicate::and`: the conjunction of two predicates.
#[verifier::external_body]
pub(crate) fn and(left: Predicate, right: Predicate) -> (predicate: Predicate)
    ensures
        predicate_view(predicate) == junction(
            JunctionOp::And,
            seq![predicate_view(left), predicate_view(right)],
        ),
{
    Predicate::and(left, right)
}

/// `Predicate::or`: the disjunction of two predicates.
#[verifier::external_body]
pub(crate) fn or(left: Predicate, right: Predicate) -> (predicate: Predicate)
    ensures
        predicate_view(predicate) == junction(
            JunctionOp::Or,
            seq![predicate_view(left), predicate_view(right)],
        ),
{
    Predicate::or(left, right)
}

/// `Predicate::and_from`: the conjunction of any number of predicates, in order. One predicate
/// alone is returned as it is.
#[verifier::external_body]
pub(crate) fn and_from(predicates: Vec<Predicate>) -> (predicate: Predicate)
    ensures
        predicate_view(predicate) == junction(JunctionOp::And, predicate_views(predicates@)),
{
    Predicate::and_from(predicates)
}

/// `Predicate::not`: the negation of a predicate.
#[verifier::external_body]
pub(crate) fn not(part: Predicate) -> (predicate: Predicate)
    ensures
        predicate_view(predicate) == negation(predicate_view(part)),
{
    Predicate::not(part)
}

/// `Predicate::is_null`: the test that an expression is NULL.
#[verifier::external_body]
pub(crate) fn is_null(expression: Expression) -> (predicate: Predicate)
    ensures
        predicate_view(predicate) == PredicateView::IsNull(expression_view(expression)),
{
    Predicate::is_null(expression)
}

/// `Predicate::is_not_null`: the negation of the test that an expression is NULL.
#[verifier::external_body]
pub(crate) fn is_not_null(expression: Expression) -> (predicate: Predicate)
    ensures
        predicate_view(predicate) == negation(
            PredicateView::IsNull(expression_view(expression)),
        ),
{
    Predicate::is_not_null(expression)
}

} // verus!
