//! Spark filter expressions, with the parts that filter push-down looks at.

use vstd::prelude::*;

use delta_kernel::expressions::Scalar;

verus! {

/// A Spark expression. `None` is an expression whose kind was not given.
#[derive(Debug)]
pub struct Expr {
    pub expr_struct: Option<ExprStruct>,
}

/// The kind of an expression, with its operands.
#[derive(Debug)]
pub enum ExprStruct {
    /// A column reference by name. Scan filters arrive without binding, so every column does.
    Unbound(UnboundReference),
    Literal(Literal),
    Eq(Box<BinaryExpr>),
    Neq(Box<BinaryExpr>),
    Gt(Box<BinaryExpr>),
    GtEq(Box<BinaryExpr>),
    Lt(Box<BinaryExpr>),
    LtEq(Box<BinaryExpr>),
    And(Box<BinaryExpr>),
    Or(Box<BinaryExpr>),
    Not(Box<UnaryExpr>),
    IsNull(Box<UnaryExpr>),
    IsNotNull(Box<UnaryExpr>),
    Like(Box<BinaryExpr>),
    /// Any other expression. No part of it is looked at.
    Other,
}

#[derive(Debug)]
pub struct UnaryExpr {
    pub child: Option<Box<Expr>>,
}

#[derive(Debug)]
pub struct BinaryExpr {
    pub left: Option<Box<Expr>>,
    pub right: Option<Box<Expr>>,
}

#[derive(Clone, Debug)]
pub struct UnboundReference {
    pub name: String,
    pub datatype: Option<DataType>,
}

/// A literal: its value, the type that it declares, and whether it is NULL.
#[derive(Clone, Debug)]
pub struct Literal {
    pub value: Option<Value>,
    pub datatype: Option<DataType>,
    pub is_null: bool,
}

/// The value of a literal, by the field that carries it. Bytes and shorts are carried in 32 bits.
/// A floating-point value is carried as the kernel scalar that stands for it, which is looked at
/// only to tell whether it is of that width.
#[derive(Clone, Debug)]
pub enum Value {
    BoolVal(bool),
    ByteVal(i32),
    ShortVal(i32),
    IntVal(i32),
    LongVal(i64),
    FloatVal(Scalar),
    DoubleVal(Scalar),
    StringVal(String),
    /// Any other value. It is not looked at.
    Other,
}

/// A Spark data type, by its id (see [`crate::type_id`]).
#[derive(Clone, Copy, Debug)]
pub struct DataType {
    pub type_id: i32,
}

} // verus!
