//! What filters and kernel predicates mean on a row, and that the two agree.
//!
//! Both follow SQL: a comparison with NULL is unknown, and the connectives are three-valued.

use vstd::prelude::*;

use delta_kernel::expressions::Scalar;

use crate::expr::{BinaryExpr, Expr, ExprStruct, Literal, UnboundReference, Value};
use crate::kernel::{
    junction, negation, BinaryOp, ExpressionView, JunctionOp, PredicateView, ScalarView,
};
use crate::predicate::{
    comparison, comparisons_keep_their_operator, connectives_keep_their_parts, filter,
    filter_predicate, filter_predicates, operand, operands, pair, single,
};
use crate::type_id;

verus! {

/// The truth of a condition on a row.
pub ghost enum Truth {
    True,
    False,
    Unknown,
}

/// How two values compare.
pub ghost enum Relation {
    Less,
    Equal,
    Greater,
}

/// The comparisons that a filter can make.
pub ghost enum Comparison {
    Eq,
    Neq,
    Gt,
    GtEq,
    Lt,
    LtEq,
}

/// Whether a comparison holds of two values that are so related.
pub open spec fn holds(comparison: Comparison, relation: Relation) -> bool {
    match comparison {
        Comparison::Eq => relation is Equal,
        Comparison::Neq => !(relation is Equal),
        Comparison::Gt => relation is Greater,
        Comparison::GtEq => relation is Greater || relation is Equal,
        Comparison::Lt => relation is Less,
        Comparison::LtEq => relation is Less || relation is Equal,
    }
}

/// A value in a row. Whole numbers and dates are integers, whatever width they are stored in.
pub ghost enum Datum {
    Boolean(bool),
    Byte(int),
    Short(int),
    Integer(int),
    Long(int),
    /// A date, by its days since the epoch.
    Date(int),
    String(Seq<char>),
    /// A floating-point number, as the kernel scalar that stands for it.
    Float(Scalar),
    Double(Scalar),
    /// A value of any other type, as the kernel scalar that stands for it.
    Other(Scalar),
}

/// One row of a table, with all that the meaning of a filter on it rests on.
pub ghost struct Row {
    /// The value in each column, `None` for NULL.
    pub column: spec_fn(Seq<char>) -> Option<Datum>,
    /// How two values compare, `None` if they do not. Filters and predicates compare alike.
    pub compare: spec_fn(Datum, Datum) -> Option<Relation>,
    /// The value of each expression that is no column, no NULL and no literal of its declared
    /// type.
    pub value: spec_fn(Expr) -> Option<Datum>,
    /// The truth of each filter that is no comparison, connective or NULL test.
    pub truth: spec_fn(Expr) -> Truth,
    /// The truth of each kernel predicate and the value of each kernel expression that the
    /// library never builds.
    pub other_predicate: spec_fn(PredicateView) -> Truth,
    pub other_expression: spec_fn(ExpressionView) -> Option<Datum>,
}

/// Three-valued NOT.
pub open spec fn truth_not(t: Truth) -> Truth {
    match t {
        Truth::True => Truth::False,
        Truth::False => Truth::True,
        Truth::Unknown => Truth::Unknown,
    }
}

/// Three-valued AND.
pub open spec fn truth_and(a: Truth, b: Truth) -> Truth {
    if a is False || b is False {
        Truth::False
    } else if a is True && b is True {
        Truth::True
    } else {
        Truth::Unknown
    }
}

/// Three-valued OR.
pub open spec fn truth_or(a: Truth, b: Truth) -> Truth {
    if a is True || b is True {
        Truth::True
    } else if a is False && b is False {
        Truth::False
    } else {
        Truth::Unknown
    }
}

pub open spec fn truth_of(holds: bool) -> Truth {
    if holds {
        Truth::True
    } else {
        Truth::False
    }
}

/// The truth of a comparison of two values, of which either can be NULL.
pub open spec fn compare_values(
    row: Row,
    left: Option<Datum>,
    right: Option<Datum>,
    comparison: Comparison,
) -> Truth {
    match (left, right) {
        (Some(left), Some(right)) => match (row.compare)(left, right) {
            Some(relation) => truth_of(holds(comparison, relation)),
            None => Truth::Unknown,
        },
        _ => Truth::Unknown,
    }
}

/// What a value of the declared type means, if it is of that type.
pub open spec fn value_datum(value: Value, declared: i32) -> Option<Datum> {
    match value {
        Value::BoolVal(v) => if declared == type_id::BOOL {
            Some(Datum::Boolean(v))
        } else {
            None
        },
        Value::ByteVal(v) => if declared == type_id::INT8 {
            Some(Datum::Byte(v as int))
        } else {
            None
        },
        Value::ShortVal(v) => if declared == type_id::INT16 {
            Some(Datum::Short(v as int))
        } else {
            None
        },
        Value::IntVal(v) => if declared == type_id::INT32 {
            Some(Datum::Integer(v as int))
        } else if declared == type_id::DATE {
            Some(Datum::Date(v as int))
        } else {
            None
        },
        Value::LongVal(v) => if declared == type_id::INT64 {
            Some(Datum::Long(v as int))
        } else {
            None
        },
        Value::FloatVal(v) => if declared == type_id::FLOAT {
            Some(Datum::Float(v))
        } else {
            None
        },
        Value::DoubleVal(v) => if declared == type_id::DOUBLE {
            Some(Datum::Double(v))
        } else {
            None
        },
        Value::StringVal(v) => if declared == type_id::STRING {
            Some(Datum::String(v@))
        } else {
            None
        },
        Value::Other => None,
    }
}

/// What a kernel scalar means, if it is of a kind that the library builds.
pub open spec fn scalar_datum(scalar: ScalarView) -> Option<Datum> {
    match scalar {
        ScalarView::Boolean(v) => Some(Datum::Boolean(v)),
        ScalarView::Byte(v) => Some(Datum::Byte(v as int)),
        ScalarView::Short(v) => Some(Datum::Short(v as int)),
        ScalarView::Integer(v) => Some(Datum::Integer(v as int)),
        ScalarView::Long(v) => Some(Datum::Long(v as int)),
        ScalarView::String(v) => Some(Datum::String(v)),
        ScalarView::Date(v) => Some(Datum::Date(v as int)),
        ScalarView::Float(v) => Some(Datum::Float(v)),
        ScalarView::Double(v) => Some(Datum::Double(v)),
        ScalarView::Other(_) => None,
    }
}

/// The value of an operand of a filter.
pub open spec fn expr_value(row: Row, expr: Expr) -> Option<Datum> {
    match expr.expr_struct {
        Some(ExprStruct::Unbound(unbound)) => (row.column)(unbound.name@),
        Some(ExprStruct::Literal(literal)) => if literal.is_null {
            None
        } else {
            match (literal.value, literal.datatype) {
                (Some(value), Some(datatype)) => match value_datum(value, datatype.type_id) {
                    Some(datum) => Some(datum),
                    None => (row.value)(expr),
                },
                _ => (row.value)(expr),
            }
        },
        _ => (row.value)(expr),
    }
}

/// The truth of the comparison `expr`, whose operands `b` holds.
pub open spec fn comparison_truth(
    row: Row,
    expr: Expr,
    b: BinaryExpr,
    comparison: Comparison,
) -> Truth {
    match (b.left, b.right) {
        (Some(left), Some(right)) => compare_values(
            row,
            expr_value(row, *left),
            expr_value(row, *right),
            comparison,
        ),
        _ => (row.truth)(expr),
    }
}

/// The truth of a filter on a row.
pub open spec fn expr_truth(row: Row, expr: Expr) -> Truth
    decreases expr,
{
    match expr.expr_struct {
        Some(ExprStruct::Eq(b)) => comparison_truth(row, expr, *b, Comparison::Eq),
        Some(ExprStruct::Neq(b)) => comparison_truth(row, expr, *b, Comparison::Neq),
        Some(ExprStruct::Gt(b)) => comparison_truth(row, expr, *b, Comparison::Gt),
        Some(ExprStruct::GtEq(b)) => comparison_truth(row, expr, *b, Comparison::GtEq),
        Some(ExprStruct::Lt(b)) => comparison_truth(row, expr, *b, Comparison::Lt),
        Some(ExprStruct::LtEq(b)) => comparison_truth(row, expr, *b, Comparison::LtEq),
        Some(ExprStruct::And(b)) => match (b.left, b.right) {
            (Some(left), Some(right)) => truth_and(
                expr_truth(row, *left),
                expr_truth(row, *right),
            ),
            _ => (row.truth)(expr),
        },
        Some(ExprStruct::Or(b)) => match (b.left, b.right) {
            (Some(left), Some(right)) => truth_or(
                expr_truth(row, *left),
                expr_truth(row, *right),
            ),
            _ => (row.truth)(expr),
        },
        Some(ExprStruct::Not(u)) => match u.child {
            Some(child) => truth_not(expr_truth(row, *child)),
            None => (row.truth)(expr),
        },
        Some(ExprStruct::IsNull(u)) => match u.child {
            Some(child) => truth_of(expr_value(row, *child) is None),
            None => (row.truth)(expr),
        },
        Some(ExprStruct::IsNotNull(u)) => match u.child {
            Some(child) => truth_of(expr_value(row, *child) is Some),
            None => (row.truth)(expr),
        },
        _ => (row.truth)(expr),
    }
}

/// The value of a kernel expression on a row.
pub open spec fn expression_value(row: Row, expression: ExpressionView) -> Option<Datum> {
    match expression {
        ExpressionView::Column(path) => if path.len() == 1 {
            (row.column)(path[0])
        } else {
            (row.other_expression)(expression)
        },
        ExpressionView::Literal(scalar) => match scalar_datum(scalar) {
            Some(datum) => Some(datum),
            None => (row.other_expression)(expression),
        },
        ExpressionView::Other(_) => (row.other_expression)(expression),
    }
}

/// The comparison that a kernel operator makes.
pub open spec fn op_comparison(op: BinaryOp) -> Comparison {
    match op {
        BinaryOp::LessThan => Comparison::Lt,
        BinaryOp::GreaterThan => Comparison::Gt,
        BinaryOp::Equal => Comparison::Eq,
    }
}

/// The truth of a kernel predicate on a row.
pub open spec fn predicate_truth(row: Row, predicate: PredicateView) -> Truth
    decreases predicate,
{
    match predicate {
        PredicateView::Constant(holds) => truth_of(holds),
        PredicateView::IsNull(e) => truth_of(expression_value(row, e) is None),
        PredicateView::Binary(op, left, right) => compare_values(
            row,
            expression_value(row, left),
            expression_value(row, right),
            op_comparison(op),
        ),
        PredicateView::Not(part) => truth_not(predicate_truth(row, *part)),
        PredicateView::Junction(op, parts) => junction_truth(row, op, parts),
        PredicateView::Other(_) => (row.other_predicate)(predicate),
    }
}

/// The truth of all, or any, of `parts` on a row.
pub open spec fn junction_truth(row: Row, op: JunctionOp, parts: Seq<PredicateView>) -> Truth
    decreases parts,
{
    if parts.len() == 0 {
        truth_of(op == JunctionOp::And)
    } else {
        let before = junction_truth(row, op, parts.drop_last());
        let last = predicate_truth(row, parts.last());
        match op {
            JunctionOp::And => truth_and(before, last),
            JunctionOp::Or => truth_or(before, last),
        }
    }
}

/// An operand that is taken over has the same value on every row before and after.
pub proof fn operand_is_exact(row: Row, expr: Expr)
    requires
        operand(expr) is Some,
    ensures
        expression_value(row, operand(expr)->0) == expr_value(row, expr),
{
}

/// The truth of a junction of two parts.
proof fn lemma_junction_of_two(row: Row, op: JunctionOp, a: PredicateView, b: PredicateView)
    ensures
        predicate_truth(row, PredicateView::Junction(op, seq![a, b])) == match op {
            JunctionOp::And => truth_and(predicate_truth(row, a), predicate_truth(row, b)),
            JunctionOp::Or => truth_or(predicate_truth(row, a), predicate_truth(row, b)),
        },
{
    let two = seq![a, b];
    let one = seq![a];
    assert(two.drop_last() =~= one);
    assert(one.drop_last() =~= Seq::empty());
    assert(junction_truth(row, op, Seq::empty()) == truth_of(op == JunctionOp::And));
    assert(junction_truth(row, op, one) == predicate_truth(row, a));
    assert(predicate_truth(row, PredicateView::Junction(op, two)) == junction_truth(row, op, two));
}

/// A comparison that is taken over has the truth of the filter, where the operator and the
/// negation together make the same comparison.
proof fn lemma_comparison(
    row: Row,
    expr: Expr,
    b: BinaryExpr,
    op: BinaryOp,
    negated: bool,
    wanted: Comparison,
)
    requires
        comparison(b, op, negated) is Some,
        forall|r: Relation| holds(wanted, r) == (holds(op_comparison(op), r) != negated),
    ensures
        predicate_truth(row, comparison(b, op, negated)->0) == comparison_truth(
            row,
            expr,
            b,
            wanted,
        ),
{
    let (left, right) = operands(b)->0;
    operand_is_exact(row, *b.left->0);
    operand_is_exact(row, *b.right->0);
    let plain = PredicateView::Binary(op, left, right);
    assert(predicate_truth(row, negation(plain)) == truth_not(predicate_truth(row, plain)));
}

/// A filter that is taken over is taken over exactly: on every row, the kernel predicate has the
/// truth that the filter has, unknown included.
pub proof fn filter_predicate_is_exact(row: Row, expr: Expr)
    requires
        filter_predicate(expr) is Some,
    ensures
        predicate_truth(row, filter_predicate(expr)->0) == expr_truth(row, expr),
    decreases expr,
{
    match expr.expr_struct {
        Some(ExprStruct::Eq(b)) => {
            lemma_comparison(row, expr, *b, BinaryOp::Equal, false, Comparison::Eq);
        },
        Some(ExprStruct::Neq(b)) => {
            lemma_comparison(row, expr, *b, BinaryOp::Equal, true, Comparison::Neq);
        },
        Some(ExprStruct::Gt(b)) => {
            lemma_comparison(row, expr, *b, BinaryOp::GreaterThan, false, Comparison::Gt);
        },
        Some(ExprStruct::GtEq(b)) => {
            lemma_comparison(row, expr, *b, BinaryOp::LessThan, true, Comparison::GtEq);
        },
        Some(ExprStruct::Lt(b)) => {
            lemma_comparison(row, expr, *b, BinaryOp::LessThan, false, Comparison::Lt);
        },
        Some(ExprStruct::LtEq(b)) => {
            lemma_comparison(row, expr, *b, BinaryOp::GreaterThan, true, Comparison::LtEq);
        },
        Some(ExprStruct::And(b)) => {
            let left = *b.left->0;
            let right = *b.right->0;
            filter_predicate_is_exact(row, left);
            filter_predicate_is_exact(row, right);
            lemma_junction_of_two(
                row,
                JunctionOp::And,
                filter_predicate(left)->0,
                filter_predicate(right)->0,
            );
        },
        Some(ExprStruct::Or(b)) => {
            let left = *b.left->0;
            let right = *b.right->0;
            filter_predicate_is_exact(row, left);
            filter_predicate_is_exact(row, right);
            lemma_junction_of_two(
                row,
                JunctionOp::Or,
                filter_predicate(left)->0,
                filter_predicate(right)->0,
            );
        },
        Some(ExprStruct::Not(u)) => {
            filter_predicate_is_exact(row, *u.child->0);
        },
        Some(ExprStruct::IsNull(u)) => {
            operand_is_exact(row, *u.child->0);
        },
        Some(ExprStruct::IsNotNull(u)) => {
            operand_is_exact(row, *u.child->0);
            let test = PredicateView::IsNull(operand(*u.child->0)->0);
            assert(predicate_truth(row, negation(test)) == truth_not(predicate_truth(row, test)));
        },
        _ => {},
    }
}

/// The truth of the conjunction of the filters that are taken over: it is true exactly on the
/// rows on which each of those filters is.
proof fn lemma_pushed_filters(row: Row, filters: Seq<Expr>)
    ensures
        junction_truth(row, JunctionOp::And, filter_predicates(filters)) is True <==> forall|i: int|
            0 <= i < filters.len() && filter_predicate(#[trigger] filters[i]) is Some
                ==> expr_truth(row, filters[i]) is True,
    decreases filters.len(),
{
    if filters.len() > 0 {
        let before = filters.drop_last();
        let last = filters.last();
        lemma_pushed_filters(row, before);
        assert forall|i: int| 0 <= i < before.len() implies before[i] == filters[i] by {}
        if filter_predicate(last) is Some {
            filter_predicate_is_exact(row, last);
            assert(filter_predicates(filters).drop_last() =~= filter_predicates(before));
        }
        let all = junction_truth(row, JunctionOp::And, filter_predicates(filters)) is True;
        if all {
            assert forall|i: int|
                0 <= i < filters.len() && filter_predicate(#[trigger] filters[i])
                    is Some implies expr_truth(row, filters[i]) is True by {
                if i < before.len() {
                    assert(filters[i] == before[i]);
                }
            }
        } else if (forall|i: int|
            0 <= i < filters.len() && filter_predicate(#[trigger] filters[i]) is Some
                ==> expr_truth(row, filters[i]) is True) {
            assert forall|i: int|
                0 <= i < before.len() && filter_predicate(#[trigger] before[i])
                    is Some implies expr_truth(row, before[i]) is True by {
                assert(before[i] == filters[i]);
            }
            assert(filters[filters.len() - 1] == last);
        }
    }
}

/// The truth of a junction of any number of parts, in its simplest form.
proof fn lemma_junction(row: Row, op: JunctionOp, parts: Seq<PredicateView>)
    ensures
        predicate_truth(row, junction(op, parts)) == junction_truth(row, op, parts),
{
    if parts.len() == 1 {
        assert(parts.drop_last() =~= Seq::empty());
        assert(junction_truth(row, op, parts.drop_last()) == truth_of(op == JunctionOp::And));
    }
}

/// The pushed predicate is true on a row exactly if each filter that is taken over is.
pub proof fn pushed_predicate_is_exact(row: Row, filters: Seq<Expr>)
    ensures
        predicate_truth(row, junction(JunctionOp::And, filter_predicates(filters))) is True
            <==> forall|i: int|
            0 <= i < filters.len() && filter_predicate(#[trigger] filters[i]) is Some
                ==> expr_truth(row, filters[i]) is True,
{
    lemma_junction(row, JunctionOp::And, filter_predicates(filters));
    lemma_pushed_filters(row, filters);
}

/// No matching row is lost: on a row on which all filters are true, the pushed predicate is true,
/// whatever filters were dropped.
pub proof fn no_matching_row_is_lost(row: Row, filters: Seq<Expr>)
    requires
        forall|i: int| 0 <= i < filters.len() ==> expr_truth(row, #[trigger] filters[i]) is True,
    ensures
        predicate_truth(row, junction(JunctionOp::And, filter_predicates(filters))) is True,
{
    pushed_predicate_is_exact(row, filters);
}

/// Whether a row compares integers by their size.
pub open spec fn compares_integers(row: Row) -> bool {
    forall|a: int, b: int| #[trigger]
        (row.compare)(Datum::Integer(a), Datum::Integer(b)) == Some(
            if a < b {
                Relation::Less
            } else if a > b {
                Relation::Greater
            } else {
                Relation::Equal
            },
        )
}

/// The truth on a row of what is pushed for a filter of this kind.
pub open spec fn pushed_truth(row: Row, kind: ExprStruct) -> Truth {
    predicate_truth(row, filter_predicate(filter(kind))->0)
}

/// What is pushed for the comparison of an integer column with an integer is true exactly on the
/// rows whose number compares so, and false on the others.
pub proof fn number_filters_compare_numbers(
    row: Row,
    column: UnboundReference,
    literal: Literal,
    v: int,
    k: i32,
)
    requires
        compares_integers(row),
        (row.column)(column.name@) == Some(Datum::Integer(v)),
        literal.value == Some(Value::IntVal(k)),
        literal.datatype matches Some(datatype) && datatype.type_id == type_id::INT32,
        !literal.is_null,
    ensures
        ({
            let b = pair(filter(ExprStruct::Unbound(column)), filter(ExprStruct::Literal(literal)));
            &&& (pushed_truth(row, ExprStruct::Eq(b)) is True <==> v == k)
            &&& (pushed_truth(row, ExprStruct::Eq(b)) is False <==> !(v == k))
            &&& (pushed_truth(row, ExprStruct::Neq(b)) is True <==> v != k)
            &&& (pushed_truth(row, ExprStruct::Neq(b)) is False <==> !(v != k))
            &&& (pushed_truth(row, ExprStruct::Gt(b)) is True <==> v > k)
            &&& (pushed_truth(row, ExprStruct::Gt(b)) is False <==> !(v > k))
            &&& (pushed_truth(row, ExprStruct::GtEq(b)) is True <==> v >= k)
            &&& (pushed_truth(row, ExprStruct::GtEq(b)) is False <==> !(v >= k))
            &&& (pushed_truth(row, ExprStruct::Lt(b)) is True <==> v < k)
            &&& (pushed_truth(row, ExprStruct::Lt(b)) is False <==> !(v < k))
            &&& (pushed_truth(row, ExprStruct::LtEq(b)) is True <==> v <= k)
            &&& (pushed_truth(row, ExprStruct::LtEq(b)) is False <==> !(v <= k))
        }),
{
    let left = filter(ExprStruct::Unbound(column));
    let right = filter(ExprStruct::Literal(literal));
    let l = ExpressionView::Column(seq![column.name@]);
    let r = ExpressionView::Literal(ScalarView::Integer(k));
    comparisons_keep_their_operator(left, right, l, r);
    lemma_negation(row, PredicateView::Binary(BinaryOp::Equal, l, r));
    lemma_negation(row, PredicateView::Binary(BinaryOp::LessThan, l, r));
    lemma_negation(row, PredicateView::Binary(BinaryOp::GreaterThan, l, r));
}

/// The truth of a negation.
proof fn lemma_negation(row: Row, part: PredicateView)
    ensures
        predicate_truth(row, PredicateView::Not(Box::new(part))) == truth_not(
            predicate_truth(row, part),
        ),
{
}

/// What is pushed for a comparison with a column is unknown on the rows that have NULL there. What
/// is pushed for a NULL test on the column tells those rows from the others.
pub proof fn null_is_compared_with_nothing(row: Row, column: UnboundReference, right: Expr)
    requires
        operand(right) is Some,
    ensures
        ({
            let b = pair(filter(ExprStruct::Unbound(column)), right);
            (row.column)(column.name@) is None ==> {
                &&& pushed_truth(row, ExprStruct::Eq(b)) is Unknown
                &&& pushed_truth(row, ExprStruct::Neq(b)) is Unknown
                &&& pushed_truth(row, ExprStruct::Gt(b)) is Unknown
                &&& pushed_truth(row, ExprStruct::GtEq(b)) is Unknown
                &&& pushed_truth(row, ExprStruct::Lt(b)) is Unknown
                &&& pushed_truth(row, ExprStruct::LtEq(b)) is Unknown
            }
        }),
        ({
            let u = single(filter(ExprStruct::Unbound(column)));
            if (row.column)(column.name@) is None {
                &&& pushed_truth(row, ExprStruct::IsNull(u)) is True
                &&& pushed_truth(row, ExprStruct::IsNotNull(u)) is False
            } else {
                &&& pushed_truth(row, ExprStruct::IsNull(u)) is False
                &&& pushed_truth(row, ExprStruct::IsNotNull(u)) is True
            }
        }),
{
    let left = filter(ExprStruct::Unbound(column));
    let l = ExpressionView::Column(seq![column.name@]);
    let r = operand(right)->0;
    comparisons_keep_their_operator(left, right, l, r);
    lemma_negation(row, PredicateView::Binary(BinaryOp::Equal, l, r));
    lemma_negation(row, PredicateView::Binary(BinaryOp::LessThan, l, r));
    lemma_negation(row, PredicateView::Binary(BinaryOp::GreaterThan, l, r));
    lemma_negation(row, PredicateView::IsNull(l));
}

/// What is pushed for a connective is true, and false, exactly where SQL has it so by the truth of
/// what is pushed for its parts.
pub proof fn connectives_follow_sql(row: Row, left: Expr, right: Expr)
    requires
        filter_predicate(left) is Some,
        filter_predicate(right) is Some,
    ensures
        ({
            let a = predicate_truth(row, filter_predicate(left)->0);
            let b = predicate_truth(row, filter_predicate(right)->0);
            let and = pushed_truth(row, ExprStruct::And(pair(left, right)));
            let or = pushed_truth(row, ExprStruct::Or(pair(left, right)));
            let not = pushed_truth(row, ExprStruct::Not(single(left)));
            &&& (and is True <==> a is True && b is True)
            &&& (and is False <==> a is False || b is False)
            &&& (or is True <==> a is True || b is True)
            &&& (or is False <==> a is False && b is False)
            &&& (not is True <==> a is False)
            &&& (not is False <==> a is True)
        }),
{
    let a = filter_predicate(left)->0;
    let b = filter_predicate(right)->0;
    connectives_keep_their_parts(left, right);
    lemma_junction_of_two(row, JunctionOp::And, a, b);
    lemma_junction_of_two(row, JunctionOp::Or, a, b);
    lemma_negation(row, a);
}

/// A filter outside the supported subset changes nothing, wherever in the list it stands.
pub proof fn dropped_filter_changes_nothing(before: Seq<Expr>, dropped: Expr, after: Seq<Expr>)
    requires
        filter_predicate(dropped) is None,
    ensures
        filter_predicates(before.push(dropped) + after) == filter_predicates(before + after),
    decreases after.len(),
{
    let with = before.push(dropped) + after;
    let without = before + after;
    if after.len() == 0 {
        assert(with.drop_last() =~= before);
        assert(without =~= before);
    } else {
        dropped_filter_changes_nothing(before, dropped, after.drop_last());
        assert(with.drop_last() =~= before.push(dropped) + after.drop_last());
        assert(without.drop_last() =~= before + after.drop_last());
    }
}

} // verus!
