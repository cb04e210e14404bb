//! Turning Spark data filters into kernel predicates for file-level data skipping.
//!
//! Only a well-understood subset of the filters is taken over; any other filter is dropped. Data
//! skipping is best-effort and a filter above the scan still checks every row, so a dropped filter
//! costs skipping and nothing else. A wrong predicate could skip files that hold matching rows, so
//! each filter that is taken over is taken over exactly, literal types included.

use vstd::prelude::*;

use std::sync::Arc;

use delta_kernel::expressions::{Expression, Predicate, Scalar};

use crate::expr::{BinaryExpr, Expr, ExprStruct, Literal, UnaryExpr, Value};
use crate::kernel;
use crate::kernel::{
    expression_view, junction, negation, predicate_view, predicate_views, scalar_view, BinaryOp,
    ExpressionView, JunctionOp, PredicateView, ScalarKind, ScalarValue, ScalarView,
};
use crate::semantics::{expr_truth, predicate_truth, pushed_predicate_is_exact, Row};
use crate::type_id;

verus! {

/// The scalar that a value of the declared type stands for, if the two agree. Bytes and shorts are
/// carried in 32 bits; one that does not fit its type stands for none.
pub open spec fn typed_scalar(value: Value, declared: i32) -> Option<ScalarView> {
    match value {
        Value::BoolVal(v) => if declared == type_id::BOOL {
            Some(ScalarView::Boolean(v))
        } else {
            None
        },
        Value::ByteVal(v) => if declared == type_id::INT8 && i8::MIN <= v <= i8::MAX {
            Some(ScalarView::Byte(v as i8))
        } else {
            None
        },
        Value::ShortVal(v) => if declared == type_id::INT16 && i16::MIN <= v <= i16::MAX {
            Some(ScalarView::Short(v as i16))
        } else {
            None
        },
        Value::IntVal(v) => if declared == type_id::INT32 {
            Some(ScalarView::Integer(v))
        } else if declared == type_id::DATE {
            Some(ScalarView::Date(v))
        } else {
            None
        },
        Value::LongVal(v) => if declared == type_id::INT64 {
            Some(ScalarView::Long(v))
        } else {
            None
        },
        Value::FloatVal(v) => if declared == type_id::FLOAT && scalar_view(v) == ScalarView::Float(
            v,
        ) {
            Some(ScalarView::Float(v))
        } else {
            None
        },
        Value::DoubleVal(v) => if declared == type_id::DOUBLE && scalar_view(v)
            == ScalarView::Double(v) {
            Some(ScalarView::Double(v))
        } else {
            None
        },
        Value::StringVal(v) => if declared == type_id::STRING {
            Some(ScalarView::String(v@))
        } else {
            None
        },
        Value::Other => None,
    }
}

/// The scalar that a literal stands for: none for NULL, for a literal without a value or a
/// declared type, and for one whose value is not of its declared type.
pub open spec fn literal_scalar(literal: Literal) -> Option<ScalarView> {
    match (literal.value, literal.datatype) {
        (Some(value), Some(datatype)) => if literal.is_null {
            None
        } else {
            typed_scalar(value, datatype.type_id)
        },
        _ => None,
    }
}

/// The kernel expression that an operand is taken over as: a column or a literal.
pub open spec fn operand(expr: Expr) -> Option<ExpressionView> {
    match expr.expr_struct {
        Some(ExprStruct::Unbound(unbound)) => Some(ExpressionView::Column(seq![unbound.name@])),
        Some(ExprStruct::Literal(literal)) => match literal_scalar(literal) {
            Some(scalar) => Some(ExpressionView::Literal(scalar)),
            None => None,
        },
        _ => None,
    }
}

/// The operand, where there is one, as [`operand`] gives it.
pub open spec fn optional_operand(expr: Option<Box<Expr>>) -> Option<ExpressionView> {
    match expr {
        Some(expr) => operand(*expr),
        None => None,
    }
}

/// Both operands of a binary expression, if both are taken over.
pub open spec fn operands(b: BinaryExpr) -> Option<(ExpressionView, ExpressionView)> {
    match (optional_operand(b.left), optional_operand(b.right)) {
        (Some(left), Some(right)) => Some((left, right)),
        _ => None,
    }
}

/// The comparison of the operands of `b` by `op`, negated or not, if both are taken over.
pub open spec fn comparison(b: BinaryExpr, op: BinaryOp, negated: bool) -> Option<PredicateView> {
    match operands(b) {
        Some((left, right)) => {
            let plain = PredicateView::Binary(op, left, right);
            Some(if negated { negation(plain) } else { plain })
        },
        None => None,
    }
}

/// The kernel predicate that a filter is taken over as, if it is in the supported subset. A
/// compound filter is taken over only if all its parts are.
pub open spec fn filter_predicate(expr: Expr) -> Option<PredicateView>
    decreases expr,
{
    match expr.expr_struct {
        Some(ExprStruct::Eq(b)) => comparison(*b, BinaryOp::Equal, false),
        Some(ExprStruct::Neq(b)) => comparison(*b, BinaryOp::Equal, true),
        Some(ExprStruct::Gt(b)) => comparison(*b, BinaryOp::GreaterThan, false),
        Some(ExprStruct::GtEq(b)) => comparison(*b, BinaryOp::LessThan, true),
        Some(ExprStruct::Lt(b)) => comparison(*b, BinaryOp::LessThan, false),
        Some(ExprStruct::LtEq(b)) => comparison(*b, BinaryOp::GreaterThan, true),
        Some(ExprStruct::And(b)) => match (b.left, b.right) {
            (Some(left), Some(right)) => both(
                filter_predicate(*left),
                filter_predicate(*right),
                JunctionOp::And,
            ),
            _ => None,
        },
        Some(ExprStruct::Or(b)) => match (b.left, b.right) {
            (Some(left), Some(right)) => both(
                filter_predicate(*left),
                filter_predicate(*right),
                JunctionOp::Or,
            ),
            _ => None,
        },
        Some(ExprStruct::Not(u)) => match u.child {
            Some(child) => match filter_predicate(*child) {
                Some(part) => Some(negation(part)),
                None => None,
            },
            None => None,
        },
        Some(ExprStruct::IsNull(u)) => match optional_operand(u.child) {
            Some(child) => Some(PredicateView::IsNull(child)),
            None => None,
        },
        Some(ExprStruct::IsNotNull(u)) => match optional_operand(u.child) {
            Some(child) => Some(negation(PredicateView::IsNull(child))),
            None => None,
        },
        _ => None,
    }
}

/// The junction of two parts, if there are both.
pub open spec fn both(
    left: Option<PredicateView>,
    right: Option<PredicateView>,
    op: JunctionOp,
) -> Option<PredicateView> {
    match (left, right) {
        (Some(left), Some(right)) => Some(PredicateView::Junction(op, seq![left, right])),
        _ => None,
    }
}

/// The predicates of the filters that are taken over, in order.
pub open spec fn filter_predicates(filters: Seq<Expr>) -> Seq<PredicateView>
    decreases filters.len(),
{
    if filters.len() == 0 {
        Seq::empty()
    } else {
        let before = filter_predicates(filters.drop_last());
        match filter_predicate(filters.last()) {
            Some(predicate) => before.push(predicate),
            None => before,
        }
    }
}

/// Turns a list of AND-ed filters into one kernel predicate, without the filters that are outside
/// the supported subset. `None` if none is inside it.
pub fn translate_filters(filters: &[Expr]) -> (predicate: Option<Arc<Predicate>>)
    ensures
        predicate is None <==> filter_predicates(filters@).len() == 0,
        predicate matches Some(p) ==> predicate_view(*p) == junction(
            JunctionOp::And,
            filter_predicates(filters@),
        ),
        predicate is None <==> forall|i: int|
            0 <= i < filters@.len() ==> filter_predicate(#[trigger] filters@[i]) is None,
        predicate matches Some(p) ==> forall|row: Row|
            (#[trigger] predicate_truth(row, predicate_view(*p))) is True <==> forall|i: int|
                0 <= i < filters@.len() && filter_predicate(#[trigger] filters@[i]) is Some
                    ==> expr_truth(row, filters@[i]) is True,
{
    let mut preds: Vec<Predicate> = Vec::new();
    let mut i: usize = 0;
    assert(filters@.take(0) =~= Seq::empty());
    while i < filters.len()
        invariant
            i <= filters@.len(),
            predicate_views(preds@) =~= filter_predicates(filters@.take(i as int)),
        decreases filters@.len() - i,
    {
        assert(filters@.take(i + 1).drop_last() =~= filters@.take(i as int));
        if let Some(pred) = expr_to_predicate(&filters[i]) {
            preds.push(pred);
        }
        i += 1;
    }
    assert(filters@.take(i as int) =~= filters@);
    proof {
        nothing_is_pushed_for_dropped_filters(filters@);
        assert forall|row: Row|
            (#[trigger] predicate_truth(
                row,
                junction(JunctionOp::And, filter_predicates(filters@)),
            )) is True <==> forall|i: int|
                0 <= i < filters@.len() && filter_predicate(#[trigger] filters@[i]) is Some
                    ==> expr_truth(row, filters@[i]) is True by {
            pushed_predicate_is_exact(row, filters@);
        }
    }
    if preds.is_empty() {
        None
    } else {
        Some(Arc::new(kernel::and_from(preds)))
    }
}

/// The operands of a binary expression as kernel expressions, if both are taken over.
pub fn binary_operands(b: &BinaryExpr) -> (pair: Option<(Expression, Expression)>)
    ensures
        pair is None <==> operands(*b) is None,
        pair matches Some(p) ==> operands(*b) == Some(
            (expression_view(p.0), expression_view(p.1)),
        ),
{
    let left = match &b.left {
        Some(left) => expr_to_expression(left)?,
        None => return None,
    };
    let right = match &b.right {
        Some(right) => expr_to_expression(right)?,
        None => return None,
    };
    Some((left, right))
}

/// The kernel predicate that a filter is taken over as, if it is in the supported subset.
pub fn expr_to_predicate(expr: &Expr) -> (predicate: Option<Predicate>)
    ensures
        predicate is None <==> filter_predicate(*expr) is None,
        predicate matches Some(p) ==> filter_predicate(*expr) == Some(predicate_view(p)),
    decreases expr,
{
    match expr.expr_struct.as_ref()? {
        ExprStruct::Eq(b) => {
            let (l, r) = binary_operands(b)?;
            Some(kernel::eq(l, r))
        },
        ExprStruct::Neq(b) => {
            let (l, r) = binary_operands(b)?;
            Some(kernel::ne(l, r))
        },
        ExprStruct::Gt(b) => {
            let (l, r) = binary_operands(b)?;
            Some(kernel::gt(l, r))
        },
        ExprStruct::GtEq(b) => {
            let (l, r) = binary_operands(b)?;
            Some(kernel::ge(l, r))
        },
        ExprStruct::Lt(b) => {
            let (l, r) = binary_operands(b)?;
            Some(kernel::lt(l, r))
        },
        ExprStruct::LtEq(b) => {
            let (l, r) = binary_operands(b)?;
            Some(kernel::le(l, r))
        },
        ExprStruct::And(b) => {
            let left = expr_to_predicate(b.left.as_ref()?)?;
            let right = expr_to_predicate(b.right.as_ref()?)?;
            Some(kernel::and(left, right))
        },
        ExprStruct::Or(b) => {
            let left = expr_to_predicate(b.left.as_ref()?)?;
            let right = expr_to_predicate(b.right.as_ref()?)?;
            Some(kernel::or(left, right))
        },
        ExprStruct::Not(u) => {
            let child = expr_to_predicate(u.child.as_ref()?)?;
            Some(kernel::not(child))
        },
        ExprStruct::IsNull(u) => {
            let child = expr_to_expression(u.child.as_ref()?)?;
            Some(kernel::is_null(child))
        },
        ExprStruct::IsNotNull(u) => {
            let child = expr_to_expression(u.child.as_ref()?)?;
            Some(kernel::is_not_null(child))
        },
        _ => None,
    }
}

/// The kernel expression that an operand is taken over as: a column or a literal.
pub fn expr_to_expression(expr: &Expr) -> (expression: Option<Expression>)
    ensures
        expression is None <==> operand(*expr) is None,
        expression matches Some(e) ==> operand(*expr) == Some(expression_view(e)),
        match expr.expr_struct {
            Some(ExprStruct::Unbound(unbound)) => expression matches Some(e) && expression_view(e)
                == ExpressionView::Column(seq![unbound.name@]),
            Some(ExprStruct::Literal(_)) => expression matches Some(e) ==> expression_view(
                e,
            ) is Literal,
            _ => expression is None,
        },
{
    match expr.expr_struct.as_ref()? {
        ExprStruct::Unbound(unbound) => Some(kernel::column(unbound.name.clone())),
        ExprStruct::Literal(literal) => {
            let scalar = literal_to_scalar(literal)?;
            Some(kernel::literal(scalar))
        },
        _ => None,
    }
}

/// The kernel scalar that a literal stands for, if its value is of its declared type.
pub fn literal_to_scalar(literal: &Literal) -> (scalar: Option<Scalar>)
    ensures
        scalar is None <==> literal_scalar(*literal) is None,
        scalar matches Some(s) ==> literal_scalar(*literal) == Some(scalar_view(s)),
        literal.is_null || literal.value is None || literal.datatype is None ==> scalar is None,
        scalar matches Some(s) ==> ({
            let declared = literal.datatype->0.type_id;
            let held = scalar_view(s);
            match literal.value->0 {
                Value::BoolVal(v) => declared == type_id::BOOL && held == ScalarView::Boolean(v),
                Value::ByteVal(v) => declared == type_id::INT8 && (held matches ScalarView::Byte(b)
                    && b == v),
                Value::ShortVal(v) => declared == type_id::INT16 && (held matches ScalarView::Short(
                    b,
                ) && b == v),
                Value::IntVal(v) => (declared == type_id::INT32 && held == ScalarView::Integer(v))
                    || (declared == type_id::DATE && held == ScalarView::Date(v)),
                Value::LongVal(v) => declared == type_id::INT64 && held == ScalarView::Long(v),
                Value::FloatVal(v) => declared == type_id::FLOAT && held == ScalarView::Float(v),
                Value::DoubleVal(v) => declared == type_id::DOUBLE && held == ScalarView::Double(v),
                Value::StringVal(v) => declared == type_id::STRING && held == ScalarView::String(
                    v@,
                ),
                Value::Other => false,
            }
        }),
{
    if literal.is_null {
        return None;
    }
    let declared: i32 = literal.datatype.as_ref()?.type_id;
    match literal.value.as_ref()? {
        Value::BoolVal(v) if declared == type_id::BOOL => {
            Some(kernel::scalar(ScalarValue::Boolean(*v)))
        },
        Value::ByteVal(v) if declared == type_id::INT8 && -128 <= *v && *v <= 127 => {
            Some(kernel::scalar(ScalarValue::Byte(*v as i8)))
        },
        Value::ShortVal(v) if declared == type_id::INT16 && -32768 <= *v && *v <= 32767 => {
            Some(kernel::scalar(ScalarValue::Short(*v as i16)))
        },
        Value::IntVal(v) if declared == type_id::INT32 => {
            Some(kernel::scalar(ScalarValue::Integer(*v)))
        },
        Value::IntVal(v) if declared == type_id::DATE => {
            Some(kernel::scalar(ScalarValue::Date(*v)))
        },
        Value::LongVal(v) if declared == type_id::INT64 => {
            Some(kernel::scalar(ScalarValue::Long(*v)))
        },
        Value::FloatVal(v) if declared == type_id::FLOAT => match kernel::scalar_kind(v) {
            ScalarKind::Float => Some(v.clone()),
            _ => None,
        },
        Value::DoubleVal(v) if declared == type_id::DOUBLE => match kernel::scalar_kind(v) {
            ScalarKind::Double => Some(v.clone()),
            _ => None,
        },
        Value::StringVal(v) if declared == type_id::STRING => {
            Some(kernel::scalar(ScalarValue::String(v.clone())))
        },
        _ => None,
    }
}

/// The filters of a list are all dropped exactly if each of them is outside the supported subset.
pub proof fn nothing_is_pushed_for_dropped_filters(filters: Seq<Expr>)
    ensures
        filter_predicates(filters).len() == 0 <==> forall|i: int|
            0 <= i < filters.len() ==> filter_predicate(#[trigger] filters[i]) is None,
    decreases filters.len(),
{
    if filters.len() > 0 {
        let before = filters.drop_last();
        nothing_is_pushed_for_dropped_filters(before);
        assert(filters[filters.len() - 1] == filters.last());
        assert(forall|i: int| 0 <= i < before.len() ==> #[trigger] before[i] == filters[i]);
        if (forall|i: int|
            0 <= i < filters.len() ==> filter_predicate(#[trigger] filters[i]) is None) {
            assert forall|i: int| 0 <= i < before.len() implies filter_predicate(
                #[trigger] before[i],
            ) is None by {
                assert(filter_predicate(filters[i]) is None);
            }
        }
        if filter_predicates(filters).len() == 0 {
            assert forall|i: int| 0 <= i < filters.len() implies filter_predicate(
                #[trigger] filters[i],
            ) is None by {
                if i < before.len() {
                    assert(filter_predicate(before[i]) is None);
                }
            }
        }
    }
}

/// A filter of this kind.
pub open spec fn filter(kind: ExprStruct) -> Expr {
    Expr { expr_struct: Some(kind) }
}

/// Two operands.
pub open spec fn pair(left: Expr, right: Expr) -> Box<BinaryExpr> {
    Box::new(BinaryExpr { left: Some(Box::new(left)), right: Some(Box::new(right)) })
}

/// One operand.
pub open spec fn single(child: Expr) -> Box<UnaryExpr> {
    Box::new(UnaryExpr { child: Some(Box::new(child)) })
}

/// A comparison of two operands that are taken over is taken over as the kernel's comparison of
/// the same two, on the same sides, by the same operator. The kernel has no "at least", "at most"
/// and "differs": those are the negations of "less", "greater" and "equal".
pub proof fn comparisons_keep_their_operator(
    left: Expr,
    right: Expr,
    l: ExpressionView,
    r: ExpressionView,
)
    requires
        operand(left) == Some(l),
        operand(right) == Some(r),
    ensures
        filter_predicate(filter(ExprStruct::Eq(pair(left, right)))) == Some(
            PredicateView::Binary(BinaryOp::Equal, l, r),
        ),
        filter_predicate(filter(ExprStruct::Gt(pair(left, right)))) == Some(
            PredicateView::Binary(BinaryOp::GreaterThan, l, r),
        ),
        filter_predicate(filter(ExprStruct::Lt(pair(left, right)))) == Some(
            PredicateView::Binary(BinaryOp::LessThan, l, r),
        ),
        filter_predicate(filter(ExprStruct::Neq(pair(left, right)))) == Some(
            PredicateView::Not(Box::new(PredicateView::Binary(BinaryOp::Equal, l, r))),
        ),
        filter_predicate(filter(ExprStruct::GtEq(pair(left, right)))) == Some(
            PredicateView::Not(Box::new(PredicateView::Binary(BinaryOp::LessThan, l, r))),
        ),
        filter_predicate(filter(ExprStruct::LtEq(pair(left, right)))) == Some(
            PredicateView::Not(Box::new(PredicateView::Binary(BinaryOp::GreaterThan, l, r))),
        ),
{
}

/// A comparison is dropped as soon as one of its operands is not taken over.
pub proof fn comparisons_need_both_operands(left: Expr, right: Expr)
    requires
        operand(left) is None || operand(right) is None,
    ensures
        filter_predicate(filter(ExprStruct::Eq(pair(left, right)))) is None,
        filter_predicate(filter(ExprStruct::Neq(pair(left, right)))) is None,
        filter_predicate(filter(ExprStruct::Gt(pair(left, right)))) is None,
        filter_predicate(filter(ExprStruct::GtEq(pair(left, right)))) is None,
        filter_predicate(filter(ExprStruct::Lt(pair(left, right)))) is None,
        filter_predicate(filter(ExprStruct::LtEq(pair(left, right)))) is None,
{
}

/// A connective is taken over exactly if all its parts are, and then joins their predicates.
pub proof fn connectives_keep_their_parts(left: Expr, right: Expr)
    ensures
        filter_predicate(filter(ExprStruct::And(pair(left, right)))) is Some <==> filter_predicate(
            left,
        ) is Some && filter_predicate(right) is Some,
        filter_predicate(filter(ExprStruct::And(pair(left, right)))) matches Some(p) ==> p
            == PredicateView::Junction(
            JunctionOp::And,
            seq![filter_predicate(left)->0, filter_predicate(right)->0],
        ),
        filter_predicate(filter(ExprStruct::Or(pair(left, right)))) is Some <==> filter_predicate(
            left,
        ) is Some && filter_predicate(right) is Some,
        filter_predicate(filter(ExprStruct::Or(pair(left, right)))) matches Some(p) ==> p
            == PredicateView::Junction(
            JunctionOp::Or,
            seq![filter_predicate(left)->0, filter_predicate(right)->0],
        ),
        filter_predicate(filter(ExprStruct::Not(single(left)))) is Some <==> filter_predicate(
            left,
        ) is Some,
        filter_predicate(filter(ExprStruct::Not(single(left)))) matches Some(p) ==> p
            == PredicateView::Not(Box::new(filter_predicate(left)->0)),
{
}

/// A NULL test is taken over exactly if its operand is.
pub proof fn null_tests_keep_their_operand(child: Expr)
    ensures
        filter_predicate(filter(ExprStruct::IsNull(single(child)))) is Some <==> operand(
            child,
        ) is Some,
        filter_predicate(filter(ExprStruct::IsNull(single(child)))) matches Some(p) ==> p
            == PredicateView::IsNull(operand(child)->0),
        filter_predicate(filter(ExprStruct::IsNotNull(single(child)))) is Some <==> operand(
            child,
        ) is Some,
        filter_predicate(filter(ExprStruct::IsNotNull(single(child)))) matches Some(p) ==> p
            == PredicateView::Not(Box::new(PredicateView::IsNull(operand(child)->0))),
{
}

/// Whatever is no comparison, connective or NULL test is no filter that is taken over, and neither
/// is one that lacks an operand.
pub proof fn other_filters_are_dropped(expr: Expr)
    ensures
        match expr.expr_struct {
            None => filter_predicate(expr) is None,
            Some(ExprStruct::Unbound(_)) => filter_predicate(expr) is None,
            Some(ExprStruct::Literal(_)) => filter_predicate(expr) is None,
            Some(ExprStruct::Like(_)) => filter_predicate(expr) is None,
            Some(ExprStruct::Other) => filter_predicate(expr) is None,
            Some(ExprStruct::Eq(b)) => b.left is None || b.right is None ==> filter_predicate(
                expr,
            ) is None,
            Some(ExprStruct::Neq(b)) => b.left is None || b.right is None ==> filter_predicate(
                expr,
            ) is None,
            Some(ExprStruct::Gt(b)) => b.left is None || b.right is None ==> filter_predicate(
                expr,
            ) is None,
            Some(ExprStruct::GtEq(b)) => b.left is None || b.right is None ==> filter_predicate(
                expr,
            ) is None,
            Some(ExprStruct::Lt(b)) => b.left is None || b.right is None ==> filter_predicate(
                expr,
            ) is None,
            Some(ExprStruct::LtEq(b)) => b.left is None || b.right is None ==> filter_predicate(
                expr,
            ) is None,
            Some(ExprStruct::And(b)) => b.left is None || b.right is None ==> filter_predicate(
                expr,
            ) is None,
            Some(ExprStruct::Or(b)) => b.left is None || b.right is None ==> filter_predicate(
                expr,
            ) is None,
            Some(ExprStruct::Not(u)) => u.child is None ==> filter_predicate(expr) is None,
            Some(ExprStruct::IsNull(u)) => u.child is None ==> filter_predicate(expr) is None,
            Some(ExprStruct::IsNotNull(u)) => u.child is None ==> filter_predicate(expr) is None,
        },
{
}

/// An operand is a column, taken over by its name as it is, or a literal of its declared type.
pub proof fn operands_are_columns_and_literals(expr: Expr)
    ensures
        match expr.expr_struct {
            Some(ExprStruct::Unbound(unbound)) => operand(expr) == Some(
                ExpressionView::Column(seq![unbound.name@]),
            ),
            Some(ExprStruct::Literal(literal)) => {
                &&& operand(expr) is Some <==> literal_scalar(literal) is Some
                &&& operand(expr) matches Some(e) ==> e == ExpressionView::Literal(
                    literal_scalar(literal)->0,
                )
            },
            _ => operand(expr) is None,
        },
{
}

/// A literal that is not NULL is taken over as its own value, for every value of every type, if it
/// declares the type that it is of. A whole number has to fit that type.
pub proof fn literals_keep_their_value(literal: Literal)
    requires
        !literal.is_null,
        literal.value is Some,
        literal.datatype is Some,
    ensures
        ({
            let declared = literal.datatype->0.type_id;
            let scalar = literal_scalar(literal);
            match literal.value->0 {
                Value::BoolVal(v) => declared == type_id::BOOL ==> scalar == Some(
                    ScalarView::Boolean(v),
                ),
                Value::ByteVal(v) => declared == type_id::INT8 && -128 <= v <= 127 ==> (
                scalar matches Some(ScalarView::Byte(b)) && b == v),
                Value::ShortVal(v) => declared == type_id::INT16 && -32768 <= v <= 32767 ==> (
                scalar matches Some(ScalarView::Short(b)) && b == v),
                Value::IntVal(v) => {
                    &&& declared == type_id::INT32 ==> scalar == Some(ScalarView::Integer(v))
                    &&& declared == type_id::DATE ==> scalar == Some(ScalarView::Date(v))
                },
                Value::LongVal(v) => declared == type_id::INT64 ==> scalar == Some(
                    ScalarView::Long(v),
                ),
                Value::FloatVal(v) => declared == type_id::FLOAT && scalar_view(v)
                    == ScalarView::Float(v) ==> scalar == Some(ScalarView::Float(v)),
                Value::DoubleVal(v) => declared == type_id::DOUBLE && scalar_view(v)
                    == ScalarView::Double(v) ==> scalar == Some(ScalarView::Double(v)),
                Value::StringVal(v) => declared == type_id::STRING ==> scalar == Some(
                    ScalarView::String(v@),
                ),
                Value::Other => scalar is None,
            }
        }),
{
}

/// The type id of a scalar, if it is of one of the kinds that a literal is checked for.
pub open spec fn scalar_type_id(scalar: ScalarView) -> Option<i32> {
    match scalar {
        ScalarView::Boolean(_) => Some(type_id::BOOL),
        ScalarView::Byte(_) => Some(type_id::INT8),
        ScalarView::Short(_) => Some(type_id::INT16),
        ScalarView::Integer(_) => Some(type_id::INT32),
        ScalarView::Long(_) => Some(type_id::INT64),
        ScalarView::Float(_) => Some(type_id::FLOAT),
        ScalarView::Double(_) => Some(type_id::DOUBLE),
        ScalarView::String(_) => Some(type_id::STRING),
        ScalarView::Date(_) => Some(type_id::DATE),
        ScalarView::Other(_) => None,
    }
}

/// A literal is never taken for another type than it declares: a date, which is carried as an
/// integer, never becomes a plain integer, and the other way round.
pub proof fn literal_keeps_its_declared_type(literal: Literal)
    requires
        literal_scalar(literal) is Some,
    ensures
        scalar_type_id(literal_scalar(literal)->0) == Some(literal.datatype->0.type_id),
        !literal.is_null,
{
}

/// A byte or a short is taken over exactly if it fits its type, and then keeps its value.
pub proof fn small_literals_keep_their_value(v: i32)
    ensures
        typed_scalar(Value::ByteVal(v), type_id::INT8) is Some <==> i8::MIN <= v <= i8::MAX,
        typed_scalar(Value::ShortVal(v), type_id::INT16) is Some <==> i16::MIN <= v <= i16::MAX,
        i8::MIN <= v <= i8::MAX ==> (typed_scalar(Value::ByteVal(v), type_id::INT8) matches Some(
            ScalarView::Byte(b),
        ) && b == v),
        i16::MIN <= v <= i16::MAX ==> (typed_scalar(
            Value::ShortVal(v),
            type_id::INT16,
        ) matches Some(ScalarView::Short(s)) && s == v),
{
}

} // verus!
