//! Operators of the virtual machine's instructions.

pub mod generator;
pub mod optimizer;

use vstd::prelude::*;

verus! {

/// A binary operator.
#[derive(Debug, Clone, Copy, PartialEq, Eq, Structural)]
pub enum BinaryOp {
    /// Addition (`+`).
    Add,
    /// Subtraction (`-`).
    Sub,
    /// Multiplication (`*`).
    Mul,
    /// Division (`/`).
    Div,
    /// Remainder (`%`).
    Mod,
    /// Loose equality (`==`).
    Eq,
    /// Loose inequality (`!=`).
    Neq,
    /// Strict equality (`===`).
    StrictEq,
    /// Strict inequality (`!==`).
    StrictNeq,
    /// Greater than (`>`).
    Gt,
    /// Greater or equal (`>=`).
    Gte,
    /// Less than (`<`).
    Lt,
    /// Less or equal (`<=`).
    Lte,
    /// Logical and (`&&`).
    And,
    /// Logical or (`||`).
    Or,
    /// Bitwise and (`&`).
    BitAnd,
    /// Bitwise or (`|`).
    BitOr,
    /// Bitwise xor (`^`).
    BitXor,
    /// Left shift (`<<`).
    Shl,
    /// Signed right shift (`>>`).
    Shr,
    /// Unsigned right shift (`>>>`).
    UShr,
    /// Exponentiation (`**`).
    Pow,
}

/// A unary operator.
#[derive(Debug, Clone, Copy, PartialEq, Eq, Structural)]
pub enum UnaryOp {
    /// Logical not (`!`).
    Not,
    /// Negation (`-`).
    Neg,
    /// Numeric conversion (`+`).
    Pos,
    /// Bitwise not (`~`).
    BitNot,
    /// Increment (`++`).
    Inc,
    /// Decrement (`--`).
    Dec,
    /// `typeof`.
    TypeOf,
    /// `void`.
    Void,
    /// `delete`.
    Delete,
}

} // verus!
