use comet_delta::expr::{
    BinaryExpr, DataType, Expr, ExprStruct, Literal, UnaryExpr, UnboundReference, Value,
};
use comet_delta::predicate::{
    binary_operands, expr_to_expression, expr_to_predicate, literal_to_scalar, translate_filters,
};
use comet_delta::type_id;
use delta_kernel::expressions::{Expression, Predicate, Scalar};

fn expr(s: ExprStruct) -> Expr {
    Expr {
        expr_struct: Some(s),
    }
}

fn col(name: &str) -> Expr {
    expr(ExprStruct::Unbound(UnboundReference {
        name: name.to_string(),
        datatype: None,
    }))
}

fn lit_int(v: i32) -> Expr {
    lit_int_typed(v, type_id::INT32)
}

fn lit_int_typed(v: i32, type_id: i32) -> Expr {
    expr(ExprStruct::Literal(Literal {
        value: Some(Value::IntVal(v)),
        datatype: Some(DataType { type_id }),
        is_null: false,
    }))
}

fn literal(value: Value, type_id: i32) -> Literal {
    Literal {
        value: Some(value),
        datatype: Some(DataType { type_id }),
        is_null: false,
    }
}

fn binary(left: Expr, right: Expr) -> Box<BinaryExpr> {
    Box::new(BinaryExpr {
        left: Some(Box::new(left)),
        right: Some(Box::new(right)),
    })
}

fn unary(child: Expr) -> Box<UnaryExpr> {
    Box::new(UnaryExpr {
        child: Some(Box::new(child)),
    })
}

fn kcol(name: &str) -> Expression {
    Expression::column([name])
}

fn kint(v: i32) -> Expression {
    Expression::literal(Scalar::Integer(v))
}

#[test]
fn translates_simple_comparison() {
    let gt = expr(ExprStruct::Gt(binary(col("id"), lit_int(10))));
    let pred = translate_filters(&[gt]).expect("should translate");
    // id > 10
    assert!(matches!(pred.as_ref(), Predicate::Binary(_)));
    assert_eq!(*pred, Predicate::gt(kcol("id"), kint(10)));
}

#[test]
fn translates_and_of_two_comparisons() {
    let lt = expr(ExprStruct::Lt(binary(col("id"), lit_int(100))));
    let gt = expr(ExprStruct::Gt(binary(col("id"), lit_int(0))));
    let and = expr(ExprStruct::And(binary(lt, gt)));
    assert!(translate_filters(&[and]).is_some());
}

#[test]
fn translates_is_null_and_is_not_null() {
    let isnull = expr(ExprStruct::IsNull(unary(col("id"))));
    let isnotnull = expr(ExprStruct::IsNotNull(unary(col("score"))));
    assert!(translate_filters(&[isnull, isnotnull]).is_some());
}

#[test]
fn drops_unsupported_filter_but_keeps_supported_ones() {
    // A `like` filter (unsupported) plus a supported comparison: only the comparison is pushed.
    let like = expr(ExprStruct::Like(binary(col("name"), lit_int(1))));
    let gt = expr(ExprStruct::Gt(binary(col("id"), lit_int(5))));
    let both = [like, gt];
    assert!(translate_filters(&both).is_some());
    assert_eq!(
        *translate_filters(&both).unwrap(),
        Predicate::gt(kcol("id"), kint(5))
    );
    // The unsupported filter on its own yields nothing.
    assert!(translate_filters(&both[..1]).is_none());
}

#[test]
fn rejects_literal_whose_declared_type_mismatches_the_value() {
    // An int value declared as TIMESTAMP (id 9) must not be treated as a plain integer.
    let bad = expr(ExprStruct::Gt(binary(col("ts"), lit_int_typed(10, 9))));
    assert!(translate_filters(&[bad]).is_none());
    // A date-typed int, however, maps to Scalar::Date.
    let date = expr(ExprStruct::Gt(binary(
        col("d"),
        lit_int_typed(18262, type_id::DATE),
    )));
    assert!(translate_filters(&[date]).is_some());
}

#[test]
fn empty_filters_translate_to_none() {
    assert!(translate_filters(&[]).is_none());
}

#[test]
fn date_literal_becomes_a_date() {
    let date = lit_int_typed(18262, type_id::DATE);
    assert_eq!(
        expr_to_expression(&date),
        Some(Expression::literal(Scalar::Date(18262)))
    );
}

#[test]
fn every_comparison_has_its_kernel_form() {
    let (l, r) = (kcol("id"), kint(7));
    let made = |s: fn(Box<BinaryExpr>) -> ExprStruct| {
        expr_to_predicate(&expr(s(binary(col("id"), lit_int(7))))).unwrap()
    };
    assert_eq!(made(ExprStruct::Eq), Predicate::eq(l.clone(), r.clone()));
    assert_eq!(made(ExprStruct::Neq), Predicate::ne(l.clone(), r.clone()));
    assert_eq!(made(ExprStruct::Gt), Predicate::gt(l.clone(), r.clone()));
    assert_eq!(made(ExprStruct::GtEq), Predicate::ge(l.clone(), r.clone()));
    assert_eq!(made(ExprStruct::Lt), Predicate::lt(l.clone(), r.clone()));
    assert_eq!(made(ExprStruct::LtEq), Predicate::le(l, r));
}

#[test]
fn connectives_and_null_tests_have_their_kernel_form() {
    let eq = || expr(ExprStruct::Eq(binary(col("a"), lit_int(1))));
    let lt = || expr(ExprStruct::Lt(binary(col("b"), lit_int(2))));
    let keq = Predicate::eq(kcol("a"), kint(1));
    let klt = Predicate::lt(kcol("b"), kint(2));
    assert_eq!(
        expr_to_predicate(&expr(ExprStruct::And(binary(eq(), lt())))),
        Some(Predicate::and(keq.clone(), klt.clone()))
    );
    assert_eq!(
        expr_to_predicate(&expr(ExprStruct::Or(binary(eq(), lt())))),
        Some(Predicate::or(keq.clone(), klt.clone()))
    );
    assert_eq!(
        expr_to_predicate(&expr(ExprStruct::Not(unary(eq())))),
        Some(Predicate::not(keq.clone()))
    );
    assert_eq!(
        expr_to_predicate(&expr(ExprStruct::IsNull(unary(col("a"))))),
        Some(Predicate::is_null(kcol("a")))
    );
    assert_eq!(
        expr_to_predicate(&expr(ExprStruct::IsNotNull(unary(col("a"))))),
        Some(Predicate::is_not_null(kcol("a")))
    );
    assert_eq!(
        *translate_filters(&[eq(), lt()]).unwrap(),
        Predicate::and_from([keq, klt])
    );
}

#[test]
fn a_connective_with_an_unsupported_part_is_dropped() {
    let like = || expr(ExprStruct::Like(binary(col("name"), lit_int(1))));
    let eq = || expr(ExprStruct::Eq(binary(col("a"), lit_int(1))));
    for s in [
        ExprStruct::And(binary(eq(), like())),
        ExprStruct::Or(binary(like(), eq())),
        ExprStruct::Not(unary(like())),
    ] {
        assert!(expr_to_predicate(&expr(s)).is_none());
    }
}

#[test]
fn missing_parts_are_dropped() {
    assert!(expr_to_predicate(&Expr { expr_struct: None }).is_none());
    assert!(expr_to_predicate(&expr(ExprStruct::Other)).is_none());
    assert!(expr_to_predicate(&col("flag")).is_none());
    let no_child = || Box::new(UnaryExpr { child: None });
    assert!(expr_to_predicate(&expr(ExprStruct::Not(no_child()))).is_none());
    assert!(expr_to_predicate(&expr(ExprStruct::IsNull(no_child()))).is_none());
    let half = BinaryExpr {
        left: Some(Box::new(col("a"))),
        right: None,
    };
    assert!(binary_operands(&half).is_none());
    assert!(binary_operands(&binary(col("a"), lit_int(1))).is_some());
}

#[test]
fn a_column_name_is_not_split_at_dots() {
    assert_eq!(expr_to_expression(&col("a.b")), Some(kcol("a.b")));
}

#[test]
fn literals_become_scalars_of_their_declared_type() {
    let scalar = |value, id| literal_to_scalar(&literal(value, id));
    assert_eq!(
        scalar(Value::BoolVal(true), type_id::BOOL),
        Some(Scalar::Boolean(true))
    );
    assert_eq!(
        scalar(Value::ByteVal(-3), type_id::INT8),
        Some(Scalar::Byte(-3))
    );
    assert_eq!(
        scalar(Value::ShortVal(300), type_id::INT16),
        Some(Scalar::Short(300))
    );
    assert_eq!(
        scalar(Value::IntVal(10), type_id::INT32),
        Some(Scalar::Integer(10))
    );
    assert_eq!(
        scalar(Value::LongVal(1 << 40), type_id::INT64),
        Some(Scalar::Long(1 << 40))
    );
    assert_eq!(
        scalar(Value::FloatVal(Scalar::Float(1.5)), type_id::FLOAT),
        Some(Scalar::Float(1.5))
    );
    assert_eq!(
        scalar(Value::DoubleVal(Scalar::Double(2.5)), type_id::DOUBLE),
        Some(Scalar::Double(2.5))
    );
    assert_eq!(
        scalar(Value::StringVal("x".to_string()), type_id::STRING),
        Some(Scalar::String("x".to_string()))
    );
}

#[test]
fn bytes_and_shorts_that_do_not_fit_become_nothing() {
    let byte = |v| literal_to_scalar(&literal(Value::ByteVal(v), type_id::INT8));
    assert_eq!(byte(300), None);
    assert_eq!(byte(128), None);
    assert_eq!(byte(-129), None);
    assert_eq!(byte(127), Some(Scalar::Byte(127)));
    assert_eq!(byte(-128), Some(Scalar::Byte(-128)));
    let short = |v| literal_to_scalar(&literal(Value::ShortVal(v), type_id::INT16));
    assert_eq!(short(32768), None);
    assert_eq!(short(-32769), None);
    assert_eq!(short(32767), Some(Scalar::Short(32767)));
    assert_eq!(short(-32768), Some(Scalar::Short(-32768)));
}

#[test]
fn floating_point_values_of_another_width_become_nothing() {
    assert_eq!(
        literal_to_scalar(&literal(
            Value::FloatVal(Scalar::Double(1.5)),
            type_id::FLOAT
        )),
        None
    );
    assert_eq!(
        literal_to_scalar(&literal(
            Value::DoubleVal(Scalar::Float(1.5)),
            type_id::DOUBLE
        )),
        None
    );
    assert_eq!(
        literal_to_scalar(&literal(Value::FloatVal(Scalar::Long(1)), type_id::FLOAT)),
        None
    );
}

#[test]
fn mismatched_null_and_incomplete_literals_become_nothing() {
    assert_eq!(
        literal_to_scalar(&literal(Value::IntVal(1), type_id::INT64)),
        None
    );
    assert_eq!(
        literal_to_scalar(&literal(Value::LongVal(1), type_id::INT32)),
        None
    );
    assert_eq!(
        literal_to_scalar(&literal(
            Value::FloatVal(Scalar::Float(1.0)),
            type_id::DOUBLE
        )),
        None
    );
    assert_eq!(
        literal_to_scalar(&literal(Value::Other, type_id::STRING)),
        None
    );
    let mut null = literal(Value::IntVal(1), type_id::INT32);
    null.is_null = true;
    assert_eq!(literal_to_scalar(&null), None);
    let mut untyped = literal(Value::IntVal(1), type_id::INT32);
    untyped.datatype = None;
    assert_eq!(literal_to_scalar(&untyped), None);
    let mut empty = literal(Value::IntVal(1), type_id::INT32);
    empty.value = None;
    assert_eq!(literal_to_scalar(&empty), None);
}
