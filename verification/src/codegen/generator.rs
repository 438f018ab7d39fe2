//! Instructions of the virtual machine generated from the syntax tree.

use vstd::prelude::*;
use vstd::string::*;
use crate::error::TsError;
use super::{BinaryOp, UnaryOp};
use vstd::arithmetic::power2::pow2;

verus! {

/// A literal value of the syntax tree. Numbers are kept as the bit
/// pattern of their 64-bit floating-point value.
pub enum Literal {
    /// `undefined`.
    Undefined,
    /// `null`.
    Null,
    /// A boolean.
    Boolean(bool),
    /// A number, as its IEEE 754 bit pattern.
    Number(u64),
    /// A string.
    String(String),
    /// An object value.
    Object,
    /// An array value.
    Array,
}

/// An expression of the syntax tree.
pub enum Expression {
    /// A literal.
    Literal(Literal),
    /// A name.
    Identifier(String),
    /// `left op right`.
    Binary { left: Box<Expression>, op: BinaryOp, right: Box<Expression> },
    /// `op expr`.
    Unary { op: UnaryOp, expr: Box<Expression> },
    /// `callee(args)`.
    Call { callee: Box<Expression>, args: Vec<Expression> },
    /// `object.property`.
    Member { object: Box<Expression>, property: Box<Expression> },
    /// `object[index]`.
    Index { object: Box<Expression>, index: Box<Expression> },
    /// `{ name: value, ... }`.
    Object(Vec<(String, Expression)>),
    /// `[elements]`.
    Array(Vec<Expression>),
    /// `left = right`.
    Assignment { left: Box<Expression>, right: Box<Expression> },
    /// `test ? consequent : alternate`.
    Conditional { test: Box<Expression>, consequent: Box<Expression>, alternate: Box<Expression> },
    /// `function (params) { body }`.
    Function { params: Vec<String>, body: Vec<Statement> },
    /// `(params) => body`.
    ArrowFunction { params: Vec<String>, body: Box<Expression> },
}

/// A method of a class declaration.
pub struct Method {
    /// The method's name.
    pub name: String,
    /// The method's parameters.
    pub params: Vec<String>,
    /// The method's body.
    pub body: Vec<Statement>,
}

/// A statement of the syntax tree.
pub enum Statement {
    /// `let name = initializer;`.
    VariableDeclaration { name: String, initializer: Option<Expression> },
    /// `function name(params) { body }`.
    FunctionDeclaration { name: String, params: Vec<String>, body: Vec<Statement> },
    /// `{ statements }`.
    Block(Vec<Statement>),
    /// `if (test) consequent else alternate`.
    If { test: Expression, consequent: Box<Statement>, alternate: Option<Box<Statement>> },
    /// `while (test) body`.
    While { test: Expression, body: Box<Statement> },
    /// `for (init; test; update) body`.
    For { init: Option<Box<Statement>>, test: Option<Expression>, update: Option<Expression>, body: Box<Statement> },
    /// `return value;`.
    Return(Option<Expression>),
    /// `break;`.
    Break,
    /// `continue;`.
    Continue,
    /// `class name { methods }`.
    ClassDeclaration { name: String, methods: Vec<Method> },
    /// `interface name { ... }`.
    InterfaceDeclaration { name: String },
    /// `type name = ...;`.
    TypeAlias { name: String },
    /// An expression evaluated for its effect.
    Expression(Expression),
}

/// An instruction of the virtual machine. Numbers are kept as the bit
/// pattern of their 64-bit floating-point value.
pub enum Instruction {
    /// Push `undefined`.
    PushUndefined,
    /// Push `null`.
    PushNull,
    /// Push a boolean.
    PushBoolean(bool),
    /// Push a number given by its bit pattern.
    PushNumber(u64),
    /// Push a string.
    PushString(String),
    /// Push a variable's value.
    LoadVariable(String),
    /// Pop into a variable.
    StoreVariable(String),
    /// Push a new object.
    CreateObject,
    /// Read a property.
    GetProperty,
    /// Write a property.
    SetProperty,
    /// Push a new array.
    CreateArray,
    /// Read an element.
    GetElement,
    /// Write an element.
    SetElement,
    /// Call with this many arguments.
    Call(u32),
    /// Apply a binary operator.
    BinaryOp(BinaryOp),
    /// Apply a unary operator.
    UnaryOp(UnaryOp),
    /// Jump forward by this many instructions.
    Jump(u32),
    /// Pop and jump forward by this many instructions when false.
    JumpIfFalse(u32),
    /// Drop the top of the stack.
    Pop,
    /// Create a function of this name taking this many parameters.
    CreateFunction(String, u32),
    /// The body of the function just created.
    SetFunctionBody(Vec<Instruction>),
    /// Return from the current function.
    Return,
    /// Create a class of this name.
    CreateClass(String),
    /// Add a method of this name to the class being built.
    AddMethod(String),
    /// The body of the class just created.
    SetClassBody(Vec<Instruction>),
    /// Declare a type alias.
    CreateTypeAlias(String),
    /// Declare an interface.
    CreateInterface(String),
    /// Leave (`1`) or restart (`0`) the enclosing loop.
    JumpLoop(u32),
    /// Push the value of a local slot.
    LoadLocal(usize),
    /// Pop into a local slot.
    StoreLocal(usize),
    /// Push a copy of the top of the stack.
    Dup,
    /// Exchange the two values on top of the stack.
    Swap,
    /// Throw the value on top of the stack.
    Throw,
    /// Enter a protected region.
    TryStart { handler_ip: usize, finally_ip: Option<usize>, exception_var: Option<String> },
    /// Leave the innermost protected region.
    TryEnd,
    /// Import a module.
    ImportModule { name: String, alias: Option<String> },
    /// Export a name.
    Export { name: String },
}

/// An instruction as a mathematical value: nested bodies are sequences.
pub enum Op {
    /// Push `undefined`.
    PushUndefined,
    /// Push `null`.
    PushNull,
    /// Push a boolean.
    PushBoolean(bool),
    /// Push a number given by its bit pattern.
    PushNumber(u64),
    /// Push a string.
    PushString(Seq<char>),
    /// Push a variable's value.
    LoadVariable(Seq<char>),
    /// Pop into a variable.
    StoreVariable(Seq<char>),
    /// Push a new object.
    CreateObject,
    /// Read a property.
    GetProperty,
    /// Write a property.
    SetProperty,
    /// Push a new array.
    CreateArray,
    /// Read an element.
    GetElement,
    /// Write an element.
    SetElement,
    /// Call with this many arguments.
    Call(u32),
    /// Apply a binary operator.
    BinaryOp(BinaryOp),
    /// Apply a unary operator.
    UnaryOp(UnaryOp),
    /// Jump forward by this many instructions.
    Jump(u32),
    /// Pop and jump forward by this many instructions when false.
    JumpIfFalse(u32),
    /// Drop the top of the stack.
    Pop,
    /// Create a function.
    CreateFunction(Seq<char>, u32),
    /// A function body.
    SetFunctionBody(Seq<Op>),
    /// Return.
    Return,
    /// Create a class.
    CreateClass(Seq<char>),
    /// Add a method.
    AddMethod(Seq<char>),
    /// A class body.
    SetClassBody(Seq<Op>),
    /// Declare a type alias.
    CreateTypeAlias(Seq<char>),
    /// Declare an interface.
    CreateInterface(Seq<char>),
    /// Leave or restart the enclosing loop.
    JumpLoop(u32),
    /// Push the value of a local slot.
    LoadLocal(usize),
    /// Pop into a local slot.
    StoreLocal(usize),
    /// Duplicate the top of the stack.
    Dup,
    /// Exchange the two values on top of the stack.
    Swap,
    /// Throw the value on top of the stack.
    Throw,
    /// Enter a protected region.
    TryStart(usize, Option<usize>, Option<Seq<char>>),
    /// Leave the innermost protected region.
    TryEnd,
    /// Import a module.
    ImportModule(Seq<char>, Option<Seq<char>>),
    /// Export a name.
    Export(Seq<char>),
}

/// An optional name as a value.
pub open spec fn opt_name(s: Option<String>) -> Option<Seq<char>> {
    match s {
        Some(x) => Some(x@),
        None => None,
    }
}

/// The instruction `i` as a value.
pub open spec fn op_of(i: Instruction) -> Op
    decreases i,
{
    match i {
        Instruction::PushUndefined => Op::PushUndefined,
        Instruction::PushNull => Op::PushNull,
        Instruction::PushBoolean(b) => Op::PushBoolean(b),
        Instruction::PushNumber(n) => Op::PushNumber(n),
        Instruction::PushString(s) => Op::PushString(s@),
        Instruction::LoadVariable(s) => Op::LoadVariable(s@),
        Instruction::StoreVariable(s) => Op::StoreVariable(s@),
        Instruction::CreateObject => Op::CreateObject,
        Instruction::GetProperty => Op::GetProperty,
        Instruction::SetProperty => Op::SetProperty,
        Instruction::CreateArray => Op::CreateArray,
        Instruction::GetElement => Op::GetElement,
        Instruction::SetElement => Op::SetElement,
        Instruction::Call(n) => Op::Call(n),
        Instruction::BinaryOp(o) => Op::BinaryOp(o),
        Instruction::UnaryOp(o) => Op::UnaryOp(o),
        Instruction::Jump(n) => Op::Jump(n),
        Instruction::JumpIfFalse(n) => Op::JumpIfFalse(n),
        Instruction::Pop => Op::Pop,
        Instruction::CreateFunction(s, n) => Op::CreateFunction(s@, n),
        Instruction::SetFunctionBody(v) => Op::SetFunctionBody(ops_of(v@)),
        Instruction::Return => Op::Return,
        Instruction::CreateClass(s) => Op::CreateClass(s@),
        Instruction::AddMethod(s) => Op::AddMethod(s@),
        Instruction::SetClassBody(v) => Op::SetClassBody(ops_of(v@)),
        Instruction::CreateTypeAlias(s) => Op::CreateTypeAlias(s@),
        Instruction::CreateInterface(s) => Op::CreateInterface(s@),
        Instruction::JumpLoop(n) => Op::JumpLoop(n),
        Instruction::LoadLocal(k) => Op::LoadLocal(k),
        Instruction::StoreLocal(k) => Op::StoreLocal(k),
        Instruction::Dup => Op::Dup,
        Instruction::Swap => Op::Swap,
        Instruction::Throw => Op::Throw,
        Instruction::TryStart { handler_ip, finally_ip, exception_var } => Op::TryStart(handler_ip, finally_ip, opt_name(exception_var)),
        Instruction::TryEnd => Op::TryEnd,
        Instruction::ImportModule { name, alias } => Op::ImportModule(name@, opt_name(alias)),
        Instruction::Export { name } => Op::Export(name@),
    }
}

/// The instructions `s` as values.
pub open spec fn ops_of(s: Seq<Instruction>) -> Seq<Op>
    decreases s,
{
    if s.len() == 0 { Seq::empty() } else { ops_of(s.drop_last()).push(op_of(s.last())) }
}

/// Viewing keeps the length.
pub proof fn lemma_ops_len(s: Seq<Instruction>)
    ensures
        ops_of(s).len() == s.len(),
    decreases s.len(),
{
    if s.len() > 0 {
        lemma_ops_len(s.drop_last());
    }
}

/// Viewing a pushed sequence pushes the view.
pub proof fn lemma_ops_push(s: Seq<Instruction>, x: Instruction)
    ensures
        ops_of(s.push(x)) == ops_of(s).push(op_of(x)),
{
    assert(s.push(x).drop_last() =~= s);
}

/// Viewing an updated sequence updates the view.
pub proof fn lemma_ops_update(s: Seq<Instruction>, k: int, x: Instruction)
    requires
        0 <= k < s.len(),
    ensures
        ops_of(s.update(k, x)) == ops_of(s).update(k, op_of(x)),
    decreases s.len(),
{
    lemma_ops_len(s);
    lemma_ops_len(s.update(k, x));
    if k == s.len() - 1 {
        assert(s.update(k, x).drop_last() =~= s.drop_last());
        lemma_ops_len(s.drop_last());
        assert(ops_of(s.update(k, x)) =~= ops_of(s).update(k, op_of(x)));
    } else {
        lemma_ops_update(s.drop_last(), k, x);
        assert(s.update(k, x).drop_last() =~= s.drop_last().update(k, x));
        assert(ops_of(s.update(k, x)) =~= ops_of(s).update(k, op_of(x)));
    }
}

/// Viewing a sequence with an element removed removes its view.
pub proof fn lemma_ops_remove(s: Seq<Instruction>, k: int)
    requires
        0 <= k < s.len(),
    ensures
        ops_of(s.remove(k)) == ops_of(s).remove(k),
{
    lemma_ops_map(s);
    lemma_ops_map(s.remove(k));
    assert(ops_of(s.remove(k)) =~= ops_of(s).remove(k));
}

/// Viewing a sequence views each element.
pub proof fn lemma_ops_map(s: Seq<Instruction>)
    ensures
        ops_of(s) == s.map_values(|x: Instruction| op_of(x)),
    decreases s.len(),
{
    if s.len() > 0 {
        lemma_ops_map(s.drop_last());
        assert(ops_of(s) =~= s.map_values(|x: Instruction| op_of(x)));
    } else {
        assert(ops_of(s) =~= s.map_values(|x: Instruction| op_of(x)));
    }
}

/// Viewing an element gives the element's view.
pub proof fn lemma_ops_index(s: Seq<Instruction>, k: int)
    requires
        0 <= k < s.len(),
    ensures
        ops_of(s)[k] == op_of(s[k]),
    decreases s.len(),
{
    lemma_ops_len(s.drop_last());
    if k < s.len() - 1 {
        lemma_ops_index(s.drop_last(), k);
    }
}

/// The slot of the last binding of `name` among `locals`.
pub open spec fn slot_of(locals: Seq<(Seq<char>, usize)>, name: Seq<char>) -> Option<usize>
    decreases locals.len(),
{
    if locals.len() == 0 {
        None
    } else if locals.last().0 == name {
        Some(locals.last().1)
    } else {
        slot_of(locals.drop_last(), name)
    }
}

/// The bindings of local slots `locals` as values.
pub open spec fn locals_view(locals: Seq<(String, usize)>) -> Seq<(Seq<char>, usize)> {
    locals.map_values(|b: (String, usize)| (b.0@, b.1))
}

/// Each parameter bound to its position.
pub open spec fn param_slots(params: Seq<String>) -> Seq<(Seq<char>, usize)> {
    Seq::new(params.len(), |i: int| (params[i]@, i as usize))
}

/// The bindings inside a function with `params`: the enclosing ones and
/// then the parameters; none where the code uses no local slots.
pub open spec fn nested_locals(loc: Option<Seq<(Seq<char>, usize)>>, params: Seq<String>) -> Option<Seq<(Seq<char>, usize)>> {
    match loc {
        Some(l) => Some(l + param_slots(params)),
        None => None,
    }
}

/// The instruction that reads the variable `name`: from its local slot
/// where it has one.
pub open spec fn load_code(name: Seq<char>, loc: Option<Seq<(Seq<char>, usize)>>) -> Op {
    match loc {
        Some(l) => match slot_of(l, name) {
            Some(k) => Op::LoadLocal(k),
            None => Op::LoadVariable(name),
        },
        None => Op::LoadVariable(name),
    }
}

/// The instruction that writes the variable `name`: to its local slot
/// where it has one.
pub open spec fn store_code(name: Seq<char>, loc: Option<Seq<(Seq<char>, usize)>>) -> Op {
    match loc {
        Some(l) => match slot_of(l, name) {
            Some(k) => Op::StoreLocal(k),
            None => Op::StoreVariable(name),
        },
        None => Op::StoreVariable(name),
    }
}

/// The local slots of `locals` as values, or none.
pub open spec fn loc_of(locals: Option<&Vec<(String, usize)>>) -> Option<Seq<(Seq<char>, usize)>> {
    match locals {
        Some(v) => Some(locals_view(v@)),
        None => None,
    }
}

/// The instruction that pushes a literal.
pub open spec fn literal_code(l: Literal) -> Op {
    match l {
        Literal::Undefined => Op::PushUndefined,
        Literal::Null => Op::PushNull,
        Literal::Boolean(b) => Op::PushBoolean(b),
        Literal::Number(n) => Op::PushNumber(n),
        Literal::String(s) => Op::PushString(s@),
        Literal::Object => Op::CreateObject,
        Literal::Array => Op::CreateArray,
    }
}

/// The code of an expression: it leaves the expression's value on the
/// stack.
pub open spec fn expr_code(e: Expression, loc: Option<Seq<(Seq<char>, usize)>>) -> Seq<Op>
    decreases e,
{
    match e {
        Expression::Literal(l) => seq![literal_code(l)],
        Expression::Identifier(n) => seq![load_code(n@, loc)],
        Expression::Binary { left, op, right } => expr_code(*left, loc) + expr_code(*right, loc) + seq![Op::BinaryOp(op)],
        Expression::Unary { op, expr } => expr_code(*expr, loc) + seq![Op::UnaryOp(op)],
        Expression::Call { callee, args } => {
            args_code(args@, loc) + expr_code(*callee, loc) + seq![Op::Call(args@.len() as u32)]
        },
        Expression::Member { object, property } => expr_code(*object, loc) + match *property {
            Expression::Identifier(n) => seq![Op::PushString(n@)],
            p => expr_code(p, loc),
        } + seq![Op::GetProperty],
        Expression::Index { object, index } => expr_code(*object, loc) + expr_code(*index, loc) + seq![Op::GetElement],
        Expression::Object(props) => seq![Op::CreateObject] + props_code(props@, loc),
        Expression::Array(elements) => seq![Op::CreateArray] + elements_code(elements@, loc),
        Expression::Assignment { left, right } => expr_code(*right, loc) + match *left {
            Expression::Identifier(n) => seq![store_code(n@, loc)],
            Expression::Member { object, property } => expr_code(*object, loc) + expr_code(*property, loc)
                + seq![Op::SetProperty],
            Expression::Index { object, index } => expr_code(*object, loc) + expr_code(*index, loc)
                + seq![Op::SetElement],
            _ => seq![Op::Pop],
        },
        Expression::Conditional { test, consequent, alternate } => {
            let c = expr_code(*consequent, loc);
            let a = expr_code(*alternate, loc);
            expr_code(*test, loc) + seq![Op::JumpIfFalse((c.len() + 1 + a.len()) as u32)] + c
                + seq![Op::Jump(a.len() as u32)] + a
        },
        Expression::Function { params, body } => seq![
            Op::CreateFunction("anonymous"@, params@.len() as u32),
            Op::SetFunctionBody(stmts_code(body@, nested_locals(loc, params@)).push(Op::Return)),
        ],
        Expression::ArrowFunction { params, body } => seq![
            Op::CreateFunction("arrow"@, params@.len() as u32),
            Op::SetFunctionBody(expr_code(*body, nested_locals(loc, params@)).push(Op::Return)),
        ],
    }
}

/// The offset of a backward jump over `n` instructions, as the generator
/// computes it: the start minus the current length, wrapped to `u32`.
pub open spec fn back_offset(n: nat) -> u32 {
    if n == 0 { 0 } else { (0x1_0000_0000 - n) as u32 }
}

/// The loop of a `for` statement, from the code of its test (with the
/// exit jump), its body and its update (with the pop): the three in order
/// and a jump back to the start. Where there is a test, the instruction at
/// index 1, when it is an exit jump, is set to leave the loop.
pub open spec fn for_loop_code(t: Seq<Op>, b: Seq<Op>, u: Seq<Op>, has_test: bool) -> Seq<Op> {
    let l = t + b + u + seq![Op::Jump(back_offset(t.len() + b.len() + u.len()))];
    if has_test && l[1] is JumpIfFalse {
        l.update(1, Op::JumpIfFalse((l.len() - 2) as u32))
    } else {
        l
    }
}

/// The code of a statement.
pub open spec fn stmt_code(s: Statement, loc: Option<Seq<(Seq<char>, usize)>>) -> Seq<Op>
    decreases s,
{
    match s {
        Statement::VariableDeclaration { name, initializer } => (match initializer {
            Some(e) => expr_code(e, loc),
            None => seq![Op::PushUndefined],
        }) + seq![store_code(name@, loc)],
        Statement::FunctionDeclaration { name, params, body } => seq![
            Op::CreateFunction(name@, params@.len() as u32),
            Op::StoreVariable(name@),
            Op::SetFunctionBody(stmts_code(body@, None).push(Op::Return)),
        ],
        Statement::Block(statements) => stmts_code(statements@, loc),
        Statement::If { test, consequent, alternate } => {
            let c = stmt_code(*consequent, loc);
            let a = match alternate {
                Some(x) => stmt_code(*x, loc),
                None => Seq::empty(),
            };
            expr_code(test, loc) + seq![Op::JumpIfFalse((c.len() + 1 + a.len()) as u32)] + c
                + seq![Op::Jump(a.len() as u32)] + a
        },
        Statement::While { test, body } => {
            let t = expr_code(test, loc);
            let b = stmt_code(*body, loc);
            t + seq![Op::JumpIfFalse((b.len() + 1) as u32)] + b + seq![Op::Jump(back_offset(t.len() + 1 + b.len()))]
        },
        Statement::For { init, test, update, body } => (match init {
            Some(x) => stmt_code(*x, loc),
            None => Seq::empty(),
        }) + for_loop_code(
            match test {
                Some(e) => expr_code(e, loc) + seq![Op::JumpIfFalse(0)],
                None => Seq::empty(),
            },
            stmt_code(*body, loc),
            match update {
                Some(e) => expr_code(e, loc) + seq![Op::Pop],
                None => Seq::empty(),
            },
            test is Some,
        ),
        Statement::Return(value) => (match value {
            Some(e) => expr_code(e, loc),
            None => seq![Op::PushUndefined],
        }) + seq![Op::Return],
        Statement::Break => seq![Op::JumpLoop(1)],
        Statement::Continue => seq![Op::JumpLoop(0)],
        Statement::ClassDeclaration { name, methods } => seq![
            Op::CreateClass(name@),
            Op::StoreVariable(name@),
            Op::SetClassBody(methods_code(methods@)),
        ],
        Statement::InterfaceDeclaration { name } => seq![Op::CreateInterface(name@)],
        Statement::TypeAlias { name } => seq![Op::CreateTypeAlias(name@)],
        Statement::Expression(e) => expr_code(e, loc) + seq![Op::Pop],
    }
}

/// The code of statements, in order.
pub open spec fn stmts_code(statements: Seq<Statement>, loc: Option<Seq<(Seq<char>, usize)>>) -> Seq<Op>
    decreases statements,
{
    if statements.len() == 0 {
        Seq::empty()
    } else {
        stmts_code(statements.drop_last(), loc) + stmt_code(statements.last(), loc)
    }
}

/// The code of a class body: each method's name and body.
pub open spec fn methods_code(methods: Seq<Method>) -> Seq<Op>
    decreases methods,
{
    if methods.len() == 0 {
        Seq::empty()
    } else {
        methods_code(methods.drop_last()) + seq![
            Op::AddMethod(methods.last().name@),
            Op::SetFunctionBody(stmts_code(methods.last().body@, None).push(Op::Return)),
        ]
    }
}

/// Whether every function, method and class body nested in `e` has code
/// short enough for its jump offsets to be computed in `u32`.
pub open spec fn expr_fits(e: Expression, loc: Option<Seq<(Seq<char>, usize)>>) -> bool
    decreases e,
{
    match e {
        Expression::Literal(_) => true,
        Expression::Identifier(_) => true,
        Expression::Binary { left, op, right } => expr_fits(*left, loc) && expr_fits(*right, loc),
        Expression::Unary { op, expr } => expr_fits(*expr, loc),
        Expression::Call { callee, args } => expr_fits(*callee, loc)
            && forall|i: int| 0 <= i < args@.len() ==> expr_fits(#[trigger] args@[i], loc),
        Expression::Member { object, property } => expr_fits(*object, loc) && expr_fits(*property, loc),
        Expression::Index { object, index } => expr_fits(*object, loc) && expr_fits(*index, loc),
        Expression::Object(props) => forall|i: int| 0 <= i < props@.len() ==> expr_fits(#[trigger] props@[i].1, loc),
        Expression::Array(elements) => forall|i: int| 0 <= i < elements@.len() ==> expr_fits(#[trigger] elements@[i], loc),
        Expression::Assignment { left, right } => expr_fits(*left, loc) && expr_fits(*right, loc),
        Expression::Conditional { test, consequent, alternate } => expr_fits(*test, loc) && expr_fits(*consequent, loc)
            && expr_fits(*alternate, loc),
        Expression::Function { params, body } => stmts_code(body@, nested_locals(loc, params@)).len() < u32::MAX
            && forall|i: int| 0 <= i < body@.len() ==> stmt_fits(#[trigger] body@[i], nested_locals(loc, params@)),
        Expression::ArrowFunction { params, body } => expr_code(*body, nested_locals(loc, params@)).len() < u32::MAX
            && expr_fits(*body, nested_locals(loc, params@)),
    }
}

/// Whether every body nested in `s` fits (see `expr_fits`).
pub open spec fn stmt_fits(s: Statement, loc: Option<Seq<(Seq<char>, usize)>>) -> bool
    decreases s,
{
    match s {
        Statement::VariableDeclaration { name, initializer } => match initializer {
            Some(e) => expr_fits(e, loc),
            None => true,
        },
        Statement::FunctionDeclaration { name, params, body } => stmts_code(body@, None).len() < u32::MAX
            && forall|i: int| 0 <= i < body@.len() ==> stmt_fits(#[trigger] body@[i], None),
        Statement::Block(statements) => forall|i: int| 0 <= i < statements@.len() ==> stmt_fits(#[trigger] statements@[i], loc),
        Statement::If { test, consequent, alternate } => expr_fits(test, loc) && stmt_fits(*consequent, loc) && (match alternate {
            Some(x) => stmt_fits(*x, loc),
            None => true,
        }),
        Statement::While { test, body } => expr_fits(test, loc) && stmt_fits(*body, loc),
        Statement::For { init, test, update, body } => stmt_fits(*body, loc) && (match init {
            Some(x) => stmt_fits(*x, loc),
            None => true,
        }) && (match test {
            Some(e) => expr_fits(e, loc),
            None => true,
        }) && (match update {
            Some(e) => expr_fits(e, loc),
            None => true,
        }),
        Statement::Return(value) => match value {
            Some(e) => expr_fits(e, loc),
            None => true,
        },
        Statement::ClassDeclaration { name, methods } => (forall|i: int| 0 <= i < methods@.len()
            ==> stmts_code(#[trigger] methods@[i].body@, None).len() < u32::MAX)
            && forall|i: int, j: int| 0 <= i < methods@.len() && 0 <= j < methods@[i].body@.len()
                ==> stmt_fits(#[trigger] methods@[i].body@[j], None),
        Statement::Expression(e) => expr_fits(e, loc),
        _ => true,
    }
}

/// The code of call arguments, in order.
pub open spec fn args_code(args: Seq<Expression>, loc: Option<Seq<(Seq<char>, usize)>>) -> Seq<Op>
    decreases args,
{
    if args.len() == 0 {
        Seq::empty()
    } else {
        args_code(args.drop_last(), loc) + expr_code(args.last(), loc)
    }
}

/// The code of object properties: each value, its name, then the store.
pub open spec fn props_code(props: Seq<(String, Expression)>, loc: Option<Seq<(Seq<char>, usize)>>) -> Seq<Op>
    decreases props,
{
    if props.len() == 0 {
        Seq::empty()
    } else {
        props_code(props.drop_last(), loc) + expr_code(props.last().1, loc)
            + seq![Op::PushString(props.last().0@), Op::SetProperty]
    }
}

/// The exponent of the highest set bit of `i` (zero for `i < 2`).
pub open spec fn log2_floor(i: nat) -> nat
    decreases i,
{
    if i < 2 { 0 } else { 1 + log2_floor(i / 2) }
}

/// The IEEE 754 double-precision bit pattern of the whole number `i`,
/// exact below `2^53`: zero for zero; otherwise the biased exponent
/// `1023 + e` in bits 52 to 62 and the bits of `i` below its highest one,
/// `i - 2^e`, aligned to the top of the 52-bit fraction.
pub open spec fn index_bits(i: usize) -> u64 {
    if i == 0 {
        0
    } else {
        let e = log2_floor(i as nat);
        ((1023 + e) * pow2(52) + (i - pow2(e)) * pow2((52 - e) as nat)) as u64
    }
}

/// The code of array elements: each value, its index, then the store.
pub open spec fn elements_code(elements: Seq<Expression>, loc: Option<Seq<(Seq<char>, usize)>>) -> Seq<Op>
    decreases elements,
{
    if elements.len() == 0 {
        Seq::empty()
    } else {
        elements_code(elements.drop_last(), loc) + expr_code(elements.last(), loc)
            + seq![Op::PushNumber(index_bits((elements.len() - 1) as usize)), Op::SetElement]
    }
}

/// The largest array index whose floating-point value is exact.
pub const MAX_EXACT_INDEX: u64 = 0x1f_ffff_ffff_ffff;

/// The bit pattern of the floating-point value of the index `i`.
pub(crate) fn index_float_bits(i: usize) -> (b: u64)
    requires
        i as u64 <= MAX_EXACT_INDEX,
    ensures
        b == index_bits(i),
{
    if i == 0 {
        return 0;
    }
    proof {
        vstd::arithmetic::power2::lemma2_to64();
    }
    let ghost i0 = i as nat;
    let mut x: u64 = i as u64;
    let mut e: u64 = 0;
    let mut p: u64 = 1;
    while x >= 2
        invariant
            1 <= x,
            1 <= i0 <= MAX_EXACT_INDEX,
            i0 == i,
            p as nat == pow2(e as nat),
            p >= 1,
            x as nat == i0 / (p as nat),
            e + log2_floor(x as nat) == log2_floor(i0),
            p <= i0,
            e <= 52,
            p * x <= i0,
        decreases x,
    {
        proof {
            vstd::arithmetic::power2::lemma_pow2_unfold((e + 1) as nat);
            vstd::arithmetic::div_mod::lemma_div_denominator(i0 as int, p as int, 2);
            assert(p * 2 * (x / 2) <= p * x) by (nonlinear_arith)
                requires
                    x >= 2,
            ;
            assert(p * 2 <= i0) by (nonlinear_arith)
                requires
                    p * x <= i0,
                    x >= 2,
            ;
            vstd::arithmetic::power2::lemma2_to64();
            vstd::arithmetic::power2::lemma2_to64_rest();
            if e + 1 > 53 {
                vstd::arithmetic::power2::lemma_pow2_strictly_increases(53, (e + 1) as nat);
            }
        }
        x = x / 2;
        e = e + 1;
        p = p * 2;
    }
    proof {
        assert(x == 1);
        vstd::arithmetic::power2::lemma2_to64();
        vstd::arithmetic::power2::lemma2_to64_rest();
        vstd::arithmetic::power2::lemma_pow2_subtracts(e as nat, 52);
        assert(pow2(52) == 0x10_0000_0000_0000);
        assert(i0 < 2 * p) by (nonlinear_arith)
            requires
                i0 / (p as nat) == 1,
                p > 0,
        ;
    }
    let q = 0x10_0000_0000_0000u64 / p;
    assert((i as u64 - p) * q < 0x10_0000_0000_0000) by (nonlinear_arith)
        requires
            (i as u64) < 2 * p,
            p <= i,
            q == 0x10_0000_0000_0000u64 / p,
            p > 0,
    ;
    (1023 + e) * 0x10_0000_0000_0000 + (i as u64 - p) * q
}

/// Every expression's code holds at least one instruction.
pub proof fn lemma_expr_code_nonempty(e: Expression, loc: Option<Seq<(Seq<char>, usize)>>)
    ensures
        expr_code(e, loc).len() >= 1,
{
}

/// Each array element takes at least three instructions.
proof fn lemma_elements_code_len(s: Seq<Expression>, loc: Option<Seq<(Seq<char>, usize)>>)
    ensures
        elements_code(s, loc).len() >= 3 * s.len(),
    decreases s.len(),
{
    if s.len() > 0 {
        lemma_elements_code_len(s.drop_last(), loc);
        lemma_expr_code_nonempty(s.last(), loc);
    }
}

/// The code of a prefix of the arguments is no longer than the whole.
proof fn lemma_args_prefix(s: Seq<Expression>, k: int, loc: Option<Seq<(Seq<char>, usize)>>)
    requires
        0 <= k <= s.len(),
    ensures
        args_code(s.take(k), loc).len() <= args_code(s, loc).len(),
    decreases s.len() - k,
{
    if k == s.len() {
        assert(s.take(k) =~= s);
    } else {
        lemma_args_prefix(s.drop_last(), k, loc);
        assert(s.drop_last().take(k) =~= s.take(k));
    }
}

/// The code of a prefix of the properties is no longer than the whole.
proof fn lemma_props_prefix(s: Seq<(String, Expression)>, k: int, loc: Option<Seq<(Seq<char>, usize)>>)
    requires
        0 <= k <= s.len(),
    ensures
        props_code(s.take(k), loc).len() <= props_code(s, loc).len(),
    decreases s.len() - k,
{
    if k == s.len() {
        assert(s.take(k) =~= s);
    } else {
        lemma_props_prefix(s.drop_last(), k, loc);
        assert(s.drop_last().take(k) =~= s.take(k));
    }
}

/// The code of a prefix of the elements is no longer than the whole.
proof fn lemma_elements_prefix(s: Seq<Expression>, k: int, loc: Option<Seq<(Seq<char>, usize)>>)
    requires
        0 <= k <= s.len(),
    ensures
        elements_code(s.take(k), loc).len() <= elements_code(s, loc).len(),
    decreases s.len() - k,
{
    if k == s.len() {
        assert(s.take(k) =~= s);
    } else {
        lemma_elements_prefix(s.drop_last(), k, loc);
        assert(s.drop_last().take(k) =~= s.take(k));
    }
}

/// The instruction that pushes `l`.
fn literal_instruction(l: &Literal) -> (i: Instruction)
    ensures
        op_of(i) == literal_code(*l),
{
    match l {
        Literal::Undefined => Instruction::PushUndefined,
        Literal::Null => Instruction::PushNull,
        Literal::Boolean(b) => Instruction::PushBoolean(*b),
        Literal::Number(n) => Instruction::PushNumber(*n),
        Literal::String(s) => Instruction::PushString(s.clone()),
        Literal::Object => Instruction::CreateObject,
        Literal::Array => Instruction::CreateArray,
    }
}

/// Appends `x` to `instructions`.
fn emit(instructions: &mut Vec<Instruction>, x: Instruction)
    ensures
        final(instructions)@ == old(instructions)@.push(x),
        ops_of(final(instructions)@) == ops_of(old(instructions)@).push(op_of(x)),
{
    proof {
        lemma_ops_push(instructions@, x);
    }
    instructions.push(x);
}

/// The slot of the last binding of `name` among `locals`.
fn find_slot(locals: &Vec<(String, usize)>, name: &String) -> (r: Option<usize>)
    ensures
        r == slot_of(locals_view(locals@), name@),
{
    let ghost lv = locals_view(locals@);
    let mut i: usize = locals.len();
    assert(lv.take(i as int) =~= lv);
    while i > 0
        invariant
            i <= locals@.len(),
            lv == locals_view(locals@),
            slot_of(lv, name@) == slot_of(lv.take(i as int), name@),
        decreases i,
    {
        proof {
            assert(lv.take(i as int).drop_last() =~= lv.take(i - 1));
        }
        if locals[i - 1].0 == *name {
            return Some(locals[i - 1].1);
        }
        i = i - 1;
    }
    None
}

/// The instruction that reads the variable `name`.
fn load_instruction(name: &String, locals: Option<&Vec<(String, usize)>>) -> (i: Instruction)
    ensures
        op_of(i) == load_code(name@, loc_of(locals)),
{
    match locals {
        Some(l) => match find_slot(l, name) {
            Some(k) => Instruction::LoadLocal(k),
            None => Instruction::LoadVariable(name.clone()),
        },
        None => Instruction::LoadVariable(name.clone()),
    }
}

/// The instruction that writes the variable `name`.
fn store_instruction(name: &String, locals: Option<&Vec<(String, usize)>>) -> (i: Instruction)
    ensures
        op_of(i) == store_code(name@, loc_of(locals)),
{
    match locals {
        Some(l) => match find_slot(l, name) {
            Some(k) => Instruction::StoreLocal(k),
            None => Instruction::StoreVariable(name.clone()),
        },
        None => Instruction::StoreVariable(name.clone()),
    }
}

/// The bindings inside a function with `params`: a copy of `locals`, then
/// each parameter bound to its position.
fn extend_locals(locals: &Vec<(String, usize)>, params: &Vec<String>) -> (r: Vec<(String, usize)>)
    ensures
        locals_view(r@) == locals_view(locals@) + param_slots(params@),
{
    let mut r: Vec<(String, usize)> = Vec::new();
    let mut i: usize = 0;
    assert(locals_view(r@) =~= locals_view(locals@).take(0));
    while i < locals.len()
        invariant
            i <= locals@.len(),
            locals_view(r@) == locals_view(locals@).take(i as int),
        decreases locals@.len() - i,
    {
        let ghost prev = r@;
        let name = locals[i].0.clone();
        r.push((name, locals[i].1));
        proof {
            assert(locals_view(r@) =~= locals_view(prev).push((name@, locals@[i as int].1)));
            assert(locals_view(r@) =~= locals_view(locals@).take(i + 1));
        }
        i = i + 1;
    }
    let mut j: usize = 0;
    assert(locals_view(r@) =~= locals_view(locals@) + param_slots(params@).take(0));
    while j < params.len()
        invariant
            j <= params@.len(),
            locals_view(r@) == locals_view(locals@) + param_slots(params@).take(j as int),
        decreases params@.len() - j,
    {
        let ghost prev = r@;
        let name = params[j].clone();
        r.push((name, j));
        proof {
            assert(locals_view(r@) =~= locals_view(prev).push((name@, j)));
            assert(param_slots(params@).take(j + 1) =~= param_slots(params@).take(j as int).push((params@[j as int]@, j)));
            assert(locals_view(r@) =~= locals_view(locals@) + param_slots(params@).take(j + 1));
        }
        j = j + 1;
    }
    assert(param_slots(params@).take(params@.len() as int) =~= param_slots(params@));
    r
}

/// Appends the code of `expr` to `instructions`.
#[verifier::rlimit(100)]
#[verifier::spinoff_prover]
fn emit_expression(expr: &Expression, instructions: &mut Vec<Instruction>, locals: Option<&Vec<(String, usize)>>)
    requires
        old(instructions)@.len() + expr_code(*expr, loc_of(locals)).len() <= u32::MAX,
        expr_fits(*expr, loc_of(locals)),
    ensures
        ops_of(final(instructions)@) == ops_of(old(instructions)@) + expr_code(*expr, loc_of(locals)),
        final(instructions)@.len() == old(instructions)@.len() + expr_code(*expr, loc_of(locals)).len(),
    decreases expr, 0nat,
{
    let ghost start = instructions@;
    proof {
        lemma_ops_len(start);
    }
    match expr {
        Expression::Literal(l) => {
            emit(instructions, literal_instruction(l));
        },
        Expression::Identifier(name) => {
            emit(instructions, load_instruction(name, locals));
        },
        Expression::Binary { left, op, right } => {
            emit_expression(left, instructions, locals);
            emit_expression(right, instructions, locals);
            emit(instructions, Instruction::BinaryOp(*op));
        },
        Expression::Unary { op, expr: inner } => {
            emit_expression(inner, instructions, locals);
            emit(instructions, Instruction::UnaryOp(*op));
        },
        Expression::Call { callee, args } => {
            let mut i: usize = 0;
            assert(args@.take(0) =~= Seq::<Expression>::empty());
            while i < args.len()
                invariant
                    i <= args@.len(),
                    ops_of(instructions@) == ops_of(start) + args_code(args@.take(i as int), loc_of(locals)),
                    instructions@.len() == start.len() + args_code(args@.take(i as int), loc_of(locals)).len(),
                    start.len() + expr_code(*expr, loc_of(locals)).len() <= u32::MAX,
                    *expr == (Expression::Call { callee: *callee, args: *args }),
                    expr_fits(*expr, loc_of(locals)),
                decreases args@.len() - i,
            {
                proof {
                    lemma_args_prefix(args@, i + 1, loc_of(locals));
                    assert(args@.take(i + 1).drop_last() =~= args@.take(i as int));
                    assert(decreases_to!(*expr => args@[i as int]));
                }
                emit_expression(&args[i], instructions, locals);
                i = i + 1;
            }
            assert(args@.take(args@.len() as int) =~= args@);
            emit_expression(callee, instructions, locals);
            emit(instructions, Instruction::Call(args.len() as u32));
        },
        Expression::Member { object, property } => {
            emit_expression(object, instructions, locals);
            match &**property {
                Expression::Identifier(name) => {
                    emit(instructions, Instruction::PushString(name.clone()));
                },
                _ => {
                    emit_expression(property, instructions, locals);
                },
            }
            emit(instructions, Instruction::GetProperty);
        },
        Expression::Index { object, index } => {
            emit_expression(object, instructions, locals);
            emit_expression(index, instructions, locals);
            emit(instructions, Instruction::GetElement);
        },
        Expression::Object(props) => {
            emit(instructions, Instruction::CreateObject);
            let ghost base = instructions@;
            let mut i: usize = 0;
            assert(props@.take(0) =~= Seq::<(String, Expression)>::empty());
            while i < props.len()
                invariant
                    i <= props@.len(),
                    ops_of(base) == ops_of(start).push(Op::CreateObject),
                    base.len() == start.len() + 1,
                    ops_of(instructions@) == ops_of(base) + props_code(props@.take(i as int), loc_of(locals)),
                    instructions@.len() == base.len() + props_code(props@.take(i as int), loc_of(locals)).len(),
                    start.len() + expr_code(*expr, loc_of(locals)).len() <= u32::MAX,
                    *expr == Expression::Object(*props),
                    expr_fits(*expr, loc_of(locals)),
                decreases props@.len() - i,
            {
                proof {
                    lemma_props_prefix(props@, i + 1, loc_of(locals));
                    assert(props@.take(i + 1).drop_last() =~= props@.take(i as int));
                    assert(decreases_to!(*expr => props@[i as int].1));
                }
                emit_expression(&props[i].1, instructions, locals);
                emit(instructions, Instruction::PushString(props[i].0.clone()));
                emit(instructions, Instruction::SetProperty);
                i = i + 1;
            }
            assert(props@.take(props@.len() as int) =~= props@);
        },
        Expression::Array(elements) => {
            emit(instructions, Instruction::CreateArray);
            let ghost base = instructions@;
            let mut i: usize = 0;
            proof {
                lemma_elements_code_len(elements@, loc_of(locals));
            }
            assert(elements@.take(0) =~= Seq::<Expression>::empty());
            while i < elements.len()
                invariant
                    i <= elements@.len(),
                    ops_of(base) == ops_of(start).push(Op::CreateArray),
                    base.len() == start.len() + 1,
                    ops_of(instructions@) == ops_of(base) + elements_code(elements@.take(i as int), loc_of(locals)),
                    instructions@.len() == base.len() + elements_code(elements@.take(i as int), loc_of(locals)).len(),
                    start.len() + expr_code(*expr, loc_of(locals)).len() <= u32::MAX,
                    *expr == Expression::Array(*elements),
                    expr_fits(*expr, loc_of(locals)),
                    3 * elements@.len() <= elements_code(elements@, loc_of(locals)).len(),
                decreases elements@.len() - i,
            {
                proof {
                    lemma_elements_prefix(elements@, i + 1, loc_of(locals));
                    assert(elements@.take(i + 1).drop_last() =~= elements@.take(i as int));
                    assert(decreases_to!(*expr => elements@[i as int]));
                }
                emit_expression(&elements[i], instructions, locals);
                let bits = index_float_bits(i);
                emit(instructions, Instruction::PushNumber(bits));
                emit(instructions, Instruction::SetElement);
                i = i + 1;
            }
            assert(elements@.take(elements@.len() as int) =~= elements@);
        },
        Expression::Assignment { left, right } => {
            emit_expression(right, instructions, locals);
            match &**left {
                Expression::Identifier(name) => {
                    emit(instructions, store_instruction(name, locals));
                },
                Expression::Member { object, property } => {
                    assert(expr_fits(**left, loc_of(locals)));
                    assert(expr_fits(**object, loc_of(locals)) && expr_fits(**property, loc_of(locals)));
                    emit_expression(object, instructions, locals);
                    emit_expression(property, instructions, locals);
                    emit(instructions, Instruction::SetProperty);
                },
                Expression::Index { object, index } => {
                    assert(expr_fits(**left, loc_of(locals)));
                    assert(expr_fits(**object, loc_of(locals)) && expr_fits(**index, loc_of(locals)));
                    emit_expression(object, instructions, locals);
                    emit_expression(index, instructions, locals);
                    emit(instructions, Instruction::SetElement);
                },
                _ => {
                    emit(instructions, Instruction::Pop);
                },
            }
        },
        Expression::Conditional { test, consequent, alternate } => {
            emit_expression(test, instructions, locals);
            let else_offset = instructions.len() as u32 + 1;
            emit(instructions, Instruction::JumpIfFalse(0));
            emit_expression(consequent, instructions, locals);
            let end_offset = instructions.len() as u32 + 1;
            emit(instructions, Instruction::Jump(0));
            emit_expression(alternate, instructions, locals);
            let instructions_len = instructions.len() as u32;
            let ghost before = instructions@;
            instructions.set((else_offset - 1) as usize, Instruction::JumpIfFalse(instructions_len - else_offset));
            let ghost mid = instructions@;
            instructions.set((end_offset - 1) as usize, Instruction::Jump(instructions_len - end_offset));
            proof {
                lemma_ops_update(before, (else_offset - 1) as int, Instruction::JumpIfFalse((instructions_len - else_offset) as u32));
                lemma_ops_update(mid, (end_offset - 1) as int, Instruction::Jump((instructions_len - end_offset) as u32));
                let t = expr_code(**test, loc_of(locals));
                let c = expr_code(**consequent, loc_of(locals));
                let a = expr_code(**alternate, loc_of(locals));
                assert(ops_of(instructions@) =~= ops_of(start) + (t + seq![Op::JumpIfFalse((c.len() + 1 + a.len()) as u32)] + c
                    + seq![Op::Jump(a.len() as u32)] + a));
            }
        },
        Expression::Function { params, body } => {
            emit(instructions, Instruction::CreateFunction(String::from_str("anonymous"), params.len() as u32));
            let code = match locals {
                Some(l) => {
                    let nested = extend_locals(l, params);
                    emit_body(body, Some(&nested))
                },
                None => emit_body(body, None),
            };
            emit(instructions, Instruction::SetFunctionBody(code));
        },
        Expression::ArrowFunction { params, body } => {
            emit(instructions, Instruction::CreateFunction(String::from_str("arrow"), params.len() as u32));
            let mut code: Vec<Instruction> = Vec::new();
            proof {
                lemma_ops_len(code@);
                assert(ops_of(code@) =~= Seq::<Op>::empty());
            }
            match locals {
                Some(l) => {
                    let nested = extend_locals(l, params);
                    emit_expression(body, &mut code, Some(&nested));
                },
                None => emit_expression(body, &mut code, None),
            }
            emit(&mut code, Instruction::Return);
            emit(instructions, Instruction::SetFunctionBody(code));
        },
    }
    proof {
        lemma_expr_code_nonempty(*expr, loc_of(locals));
    }
    assert(ops_of(instructions@) =~= ops_of(start) + expr_code(*expr, loc_of(locals)));
}

/// Appends the instructions of `expr` to `instructions`: code that leaves
/// the expression's value on the stack, reading every variable by name.
pub fn generate_expression_instructions(expr: &Expression, instructions: &mut Vec<Instruction>) -> (r: Result<(), TsError>)
    requires
        old(instructions)@.len() + expr_code(*expr, None).len() <= u32::MAX,
        expr_fits(*expr, None),
    ensures
        r is Ok,
        ops_of(final(instructions)@) == ops_of(old(instructions)@) + expr_code(*expr, None),
{
    emit_expression(expr, instructions, None);
    Ok(())
}

/// Appends the instructions of `expr` to `instructions`, reading and
/// writing the variables bound in `local_indices` (the last binding of a
/// name counts) through their local slots; inside a function, its
/// parameters are bound to their positions as well.
pub fn generate_expression_with_locals(
    expr: &Expression,
    instructions: &mut Vec<Instruction>,
    local_indices: &Vec<(String, usize)>,
) -> (r: Result<(), TsError>)
    requires
        old(instructions)@.len() + expr_code(*expr, Some(locals_view(local_indices@))).len() <= u32::MAX,
        expr_fits(*expr, Some(locals_view(local_indices@))),
    ensures
        r is Ok,
        ops_of(final(instructions)@) == ops_of(old(instructions)@) + expr_code(*expr, Some(locals_view(local_indices@))),
{
    emit_expression(expr, instructions, Some(local_indices));
    Ok(())
}

/// The code of a prefix of the statements is no longer than the whole.
proof fn lemma_stmts_prefix(s: Seq<Statement>, k: int, loc: Option<Seq<(Seq<char>, usize)>>)
    requires
        0 <= k <= s.len(),
    ensures
        stmts_code(s.take(k), loc).len() <= stmts_code(s, loc).len(),
    decreases s.len() - k,
{
    if k == s.len() {
        assert(s.take(k) =~= s);
    } else {
        lemma_stmts_prefix(s.drop_last(), k, loc);
        assert(s.drop_last().take(k) =~= s.take(k));
    }
}

/// Appends the code of `statements` to `instructions`.
fn emit_statements(statements: &Vec<Statement>, instructions: &mut Vec<Instruction>, locals: Option<&Vec<(String, usize)>>)
    requires
        old(instructions)@.len() + stmts_code(statements@, loc_of(locals)).len() <= u32::MAX,
        forall|i: int| 0 <= i < statements@.len() ==> stmt_fits(#[trigger] statements@[i], loc_of(locals)),
    ensures
        ops_of(final(instructions)@) == ops_of(old(instructions)@) + stmts_code(statements@, loc_of(locals)),
        final(instructions)@.len() == old(instructions)@.len() + stmts_code(statements@, loc_of(locals)).len(),
    decreases statements, 0nat,
{
    let ghost start = instructions@;
    proof {
        lemma_ops_len(start);
    }
    let mut i: usize = 0;
    assert(statements@.take(0) =~= Seq::<Statement>::empty());
    while i < statements.len()
        invariant
            i <= statements@.len(),
            ops_of(instructions@) == ops_of(start) + stmts_code(statements@.take(i as int), loc_of(locals)),
            instructions@.len() == start.len() + stmts_code(statements@.take(i as int), loc_of(locals)).len(),
            start.len() + stmts_code(statements@, loc_of(locals)).len() <= u32::MAX,
            forall|j: int| 0 <= j < statements@.len() ==> stmt_fits(#[trigger] statements@[j], loc_of(locals)),
        decreases statements@.len() - i,
    {
        proof {
            lemma_stmts_prefix(statements@, i + 1, loc_of(locals));
            assert(statements@.take(i + 1).drop_last() =~= statements@.take(i as int));
            assert(decreases_to!(*statements => statements@[i as int]));
        }
        emit_statement(&statements[i], instructions, locals);
        i = i + 1;
    }
    assert(statements@.take(statements@.len() as int) =~= statements@);
}

/// The body of a function: the code of `statements` followed by a return.
fn emit_body(statements: &Vec<Statement>, locals: Option<&Vec<(String, usize)>>) -> (code: Vec<Instruction>)
    requires
        stmts_code(statements@, loc_of(locals)).len() < u32::MAX,
        forall|i: int| 0 <= i < statements@.len() ==> stmt_fits(#[trigger] statements@[i], loc_of(locals)),
    ensures
        ops_of(code@) == stmts_code(statements@, loc_of(locals)).push(Op::Return),
    decreases statements, 1nat,
{
    let mut code: Vec<Instruction> = Vec::new();
    proof {
        lemma_ops_len(code@);
        assert(ops_of(code@) =~= Seq::<Op>::empty());
    }
    emit_statements(statements, &mut code, locals);
    emit(&mut code, Instruction::Return);
    assert(ops_of(code@) =~= stmts_code(statements@, loc_of(locals)).push(Op::Return));
    code
}

/// The body of a class: each method's name and body.
fn emit_methods(methods: &Vec<Method>) -> (code: Vec<Instruction>)
    requires
        forall|i: int| 0 <= i < methods@.len() ==> stmts_code(#[trigger] methods@[i].body@, None).len() < u32::MAX,
        forall|i: int, j: int| 0 <= i < methods@.len() && 0 <= j < methods@[i].body@.len()
            ==> stmt_fits(#[trigger] methods@[i].body@[j], None),
    ensures
        ops_of(code@) == methods_code(methods@),
    decreases methods, 0nat,
{
    let mut code: Vec<Instruction> = Vec::new();
    let mut i: usize = 0;
    assert(methods@.take(0) =~= Seq::<Method>::empty());
    while i < methods.len()
        invariant
            i <= methods@.len(),
            ops_of(code@) == methods_code(methods@.take(i as int)),
            forall|k: int| 0 <= k < methods@.len() ==> stmts_code(#[trigger] methods@[k].body@, None).len() < u32::MAX,
            forall|k: int, j: int| 0 <= k < methods@.len() && 0 <= j < methods@[k].body@.len()
                ==> stmt_fits(#[trigger] methods@[k].body@[j], None),
        decreases methods@.len() - i,
    {
        proof {
            assert(methods@.take(i + 1).drop_last() =~= methods@.take(i as int));
            assert(decreases_to!(*methods => methods@[i as int].body));
            assert forall|j: int| 0 <= j < methods@[i as int].body@.len() implies stmt_fits(
                #[trigger] methods@[i as int].body@[j], None) by {
                assert(stmt_fits(methods@[i as int].body@[j], None));
            }
        }
        emit(&mut code, Instruction::AddMethod(methods[i].name.clone()));
        let body = emit_body(&methods[i].body, None);
        emit(&mut code, Instruction::SetFunctionBody(body));
        proof {
            assert(ops_of(code@) =~= methods_code(methods@.take(i + 1)));
        }
        i = i + 1;
    }
    assert(methods@.take(methods@.len() as int) =~= methods@);
    code
}

/// Appends the code of `stmt` to `instructions`.
#[verifier::rlimit(100)]
#[verifier::spinoff_prover]
fn emit_statement(stmt: &Statement, instructions: &mut Vec<Instruction>, locals: Option<&Vec<(String, usize)>>)
    requires
        old(instructions)@.len() + stmt_code(*stmt, loc_of(locals)).len() <= u32::MAX,
        stmt_fits(*stmt, loc_of(locals)),
    ensures
        ops_of(final(instructions)@) == ops_of(old(instructions)@) + stmt_code(*stmt, loc_of(locals)),
        final(instructions)@.len() == old(instructions)@.len() + stmt_code(*stmt, loc_of(locals)).len(),
    decreases stmt, 1nat,
{
    let ghost start = instructions@;
    proof {
        lemma_ops_len(start);
    }
    match stmt {
        Statement::VariableDeclaration { name, initializer } => {
            match initializer {
                Some(init) => emit_expression(init, instructions, locals),
                None => emit(instructions, Instruction::PushUndefined),
            }
            emit(instructions, store_instruction(name, locals));
        },
        Statement::FunctionDeclaration { name, params, body } => {
            emit(instructions, Instruction::CreateFunction(name.clone(), params.len() as u32));
            emit(instructions, Instruction::StoreVariable(name.clone()));
            let code = emit_body(body, None);
            emit(instructions, Instruction::SetFunctionBody(code));
        },
        Statement::Block(statements) => {
            emit_statements(statements, instructions, locals);
        },
        Statement::If { .. } => emit_if(stmt, instructions, locals),
        Statement::While { .. } => emit_while(stmt, instructions, locals),
        Statement::For { .. } => emit_for(stmt, instructions, locals),
        Statement::Return(value) => {
            match value {
                Some(e) => emit_expression(e, instructions, locals),
                None => emit(instructions, Instruction::PushUndefined),
            }
            emit(instructions, Instruction::Return);
        },
        Statement::Break => {
            emit(instructions, Instruction::JumpLoop(1));
        },
        Statement::Continue => {
            emit(instructions, Instruction::JumpLoop(0));
        },
        Statement::ClassDeclaration { name, methods } => {
            emit(instructions, Instruction::CreateClass(name.clone()));
            emit(instructions, Instruction::StoreVariable(name.clone()));
            let code = emit_methods(methods);
            emit(instructions, Instruction::SetClassBody(code));
        },
        Statement::InterfaceDeclaration { name } => {
            emit(instructions, Instruction::CreateInterface(name.clone()));
        },
        Statement::TypeAlias { name } => {
            emit(instructions, Instruction::CreateTypeAlias(name.clone()));
        },
        Statement::Expression(e) => {
            emit_expression(e, instructions, locals);
            emit(instructions, Instruction::Pop);
        },
    }
    assert(ops_of(instructions@) =~= ops_of(start) + stmt_code(*stmt, loc_of(locals)));
}

/// Appends the code of a conditional statement `stmt` to `instructions`.
#[verifier::rlimit(100)]
#[verifier::spinoff_prover]
fn emit_if(stmt: &Statement, instructions: &mut Vec<Instruction>, locals: Option<&Vec<(String, usize)>>)
    requires
        stmt is If,
        old(instructions)@.len() + stmt_code(*stmt, loc_of(locals)).len() <= u32::MAX,
        stmt_fits(*stmt, loc_of(locals)),
    ensures
        ops_of(final(instructions)@) == ops_of(old(instructions)@) + stmt_code(*stmt, loc_of(locals)),
        final(instructions)@.len() == old(instructions)@.len() + stmt_code(*stmt, loc_of(locals)).len(),
    decreases stmt, 0nat,
{
    let ghost start = instructions@;
    proof {
        lemma_ops_len(start);
    }
    match stmt {
        Statement::If { test, consequent, alternate } => {
            emit_expression(test, instructions, locals);
            let else_offset = instructions.len() as u32 + 1;
            emit(instructions, Instruction::JumpIfFalse(0));
            emit_statement(consequent, instructions, locals);
            let end_offset = instructions.len() as u32 + 1;
            emit(instructions, Instruction::Jump(0));
            match alternate {
                Some(alt) => emit_statement(alt, instructions, locals),
                None => {},
            }
            let instructions_len = instructions.len() as u32;
            let ghost before = instructions@;
            instructions.set((else_offset - 1) as usize, Instruction::JumpIfFalse(instructions_len - else_offset));
            let ghost mid = instructions@;
            instructions.set((end_offset - 1) as usize, Instruction::Jump(instructions_len - end_offset));
            proof {
                lemma_ops_update(before, (else_offset - 1) as int, Instruction::JumpIfFalse((instructions_len - else_offset) as u32));
                lemma_ops_update(mid, (end_offset - 1) as int, Instruction::Jump((instructions_len - end_offset) as u32));
                let t = expr_code(*test, loc_of(locals));
                let c = stmt_code(**consequent, loc_of(locals));
                let a = match alternate {
                    Some(x) => stmt_code(**x, loc_of(locals)),
                    None => Seq::empty(),
                };
                assert(ops_of(instructions@) =~= ops_of(start) + (t + seq![Op::JumpIfFalse((c.len() + 1 + a.len()) as u32)] + c
                    + seq![Op::Jump(a.len() as u32)] + a));
            }
        },
        _ => {},
    }
    assert(ops_of(instructions@) =~= ops_of(start) + stmt_code(*stmt, loc_of(locals)));
}

/// Appends the code of a `while` loop `stmt` to `instructions`.
#[verifier::rlimit(100)]
#[verifier::spinoff_prover]
fn emit_while(stmt: &Statement, instructions: &mut Vec<Instruction>, locals: Option<&Vec<(String, usize)>>)
    requires
        stmt is While,
        old(instructions)@.len() + stmt_code(*stmt, loc_of(locals)).len() <= u32::MAX,
        stmt_fits(*stmt, loc_of(locals)),
    ensures
        ops_of(final(instructions)@) == ops_of(old(instructions)@) + stmt_code(*stmt, loc_of(locals)),
        final(instructions)@.len() == old(instructions)@.len() + stmt_code(*stmt, loc_of(locals)).len(),
    decreases stmt, 0nat,
{
    let ghost start = instructions@;
    proof {
        lemma_ops_len(start);
    }
    match stmt {
        Statement::While { test, body } => {
            let loop_start = instructions.len() as u32;
            emit_expression(test, instructions, locals);
            let loop_end = instructions.len() as u32 + 1;
            emit(instructions, Instruction::JumpIfFalse(0));
            emit_statement(body, instructions, locals);
            let back = loop_start.wrapping_sub(instructions.len() as u32);
            emit(instructions, Instruction::Jump(back));
            let instructions_len = instructions.len() as u32;
            let ghost before = instructions@;
            instructions.set((loop_end - 1) as usize, Instruction::JumpIfFalse(instructions_len - loop_end));
            proof {
                lemma_ops_update(before, (loop_end - 1) as int, Instruction::JumpIfFalse((instructions_len - loop_end) as u32));
                let t = expr_code(*test, loc_of(locals));
                let b = stmt_code(**body, loc_of(locals));
                assert(back == back_offset(t.len() + 1 + b.len()));
                assert(ops_of(instructions@) =~= ops_of(start) + (t + seq![Op::JumpIfFalse((b.len() + 1) as u32)] + b
                    + seq![Op::Jump(back_offset(t.len() + 1 + b.len()))]));
            }
        },
        _ => {},
    }
    assert(ops_of(instructions@) =~= ops_of(start) + stmt_code(*stmt, loc_of(locals)));
}

/// Appends the code of a `for` loop `stmt` to `instructions`.
#[verifier::rlimit(100)]
#[verifier::spinoff_prover]
fn emit_for(stmt: &Statement, instructions: &mut Vec<Instruction>, locals: Option<&Vec<(String, usize)>>)
    requires
        stmt is For,
        old(instructions)@.len() + stmt_code(*stmt, loc_of(locals)).len() <= u32::MAX,
        stmt_fits(*stmt, loc_of(locals)),
    ensures
        ops_of(final(instructions)@) == ops_of(old(instructions)@) + stmt_code(*stmt, loc_of(locals)),
        final(instructions)@.len() == old(instructions)@.len() + stmt_code(*stmt, loc_of(locals)).len(),
    decreases stmt, 0nat,
{
    let ghost start = instructions@;
    proof {
        lemma_ops_len(start);
    }
    match stmt {
        Statement::For { init, test, update, body } => {
            let ghost i_code = match init {
                Some(x) => stmt_code(**x, loc_of(locals)),
                None => Seq::<Op>::empty(),
            };
            let ghost t = match test {
                Some(e) => expr_code(*e, loc_of(locals)) + seq![Op::JumpIfFalse(0)],
                None => Seq::<Op>::empty(),
            };
            let ghost b = stmt_code(**body, loc_of(locals));
            let ghost u = match update {
                Some(e) => expr_code(*e, loc_of(locals)) + seq![Op::Pop],
                None => Seq::<Op>::empty(),
            };
            let ghost l = t + b + u + seq![Op::Jump(back_offset(t.len() + b.len() + u.len()))];
            assert(stmt_code(*stmt, loc_of(locals)) == i_code + for_loop_code(t, b, u, test is Some));
            assert(for_loop_code(t, b, u, test is Some).len() == l.len());
            match init {
                Some(x) => emit_statement(x, instructions, locals),
                None => {},
            }
            let ghost after_init = instructions@;
            assert(ops_of(after_init) == ops_of(start) + i_code);
            let loop_start = instructions.len() as u32;
            match test {
                Some(e) => {
                    emit_expression(e, instructions, locals);
                    emit(instructions, Instruction::JumpIfFalse(0));
                },
                None => {},
            }
            assert(ops_of(instructions@) =~= ops_of(after_init) + t);
            emit_statement(body, instructions, locals);
            assert(ops_of(instructions@) =~= ops_of(after_init) + (t + b));
            match update {
                Some(e) => {
                    emit_expression(e, instructions, locals);
                    emit(instructions, Instruction::Pop);
                },
                None => {},
            }
            assert(ops_of(instructions@) =~= ops_of(after_init) + (t + b + u));
            let back = loop_start.wrapping_sub(instructions.len() as u32);
            assert(back == back_offset(t.len() + b.len() + u.len()));
            emit(instructions, Instruction::Jump(back));
            let ghost unpatched = instructions@;
            assert(ops_of(unpatched) =~= ops_of(after_init) + l);
            proof {
                lemma_ops_len(unpatched);
            }
            if test.is_some() {
                let instructions_len = instructions.len() as u32;
                let loop_end = loop_start + 2;
                proof {
                    lemma_ops_index(unpatched, (loop_end - 1) as int);
                    assert(ops_of(unpatched)[(loop_end - 1) as int] == l[1]);
                }
                let is_jump = match &instructions[(loop_end - 1) as usize] {
                    Instruction::JumpIfFalse(_) => true,
                    _ => false,
                };
                if is_jump {
                    instructions.set((loop_end - 1) as usize, Instruction::JumpIfFalse(instructions_len - loop_end));
                    proof {
                        lemma_ops_update(unpatched, (loop_end - 1) as int, Instruction::JumpIfFalse((instructions_len - loop_end) as u32));
                        assert(ops_of(instructions@) =~= ops_of(after_init) + l.update(1, Op::JumpIfFalse((l.len() - 2) as u32)));
                    }
                }
            }
            assert(ops_of(instructions@) =~= ops_of(after_init) + for_loop_code(t, b, u, test is Some));
        },
        _ => {},
    }
    assert(ops_of(instructions@) =~= ops_of(start) + stmt_code(*stmt, loc_of(locals)));
}

/// Appends the instructions of `statement` to `instructions`, reading
/// every variable by name.
pub fn generate_statement_instructions(statement: &Statement, instructions: &mut Vec<Instruction>) -> (r: Result<(), TsError>)
    requires
        old(instructions)@.len() + stmt_code(*statement, None).len() <= u32::MAX,
        stmt_fits(*statement, None),
    ensures
        r is Ok,
        ops_of(final(instructions)@) == ops_of(old(instructions)@) + stmt_code(*statement, None),
{
    emit_statement(statement, instructions, None);
    Ok(())
}

/// Appends the instructions of `statement` to `instructions`, reading and
/// writing the variables bound in `local_indices` through their local
/// slots. Function, class, interface and type declarations are generated
/// as by `generate_statement_instructions`.
pub fn generate_statement_with_locals(
    statement: &Statement,
    instructions: &mut Vec<Instruction>,
    local_indices: &Vec<(String, usize)>,
) -> (r: Result<(), TsError>)
    requires
        old(instructions)@.len() + stmt_code(*statement, Some(locals_view(local_indices@))).len() <= u32::MAX,
        stmt_fits(*statement, Some(locals_view(local_indices@))),
    ensures
        r is Ok,
        ops_of(final(instructions)@) == ops_of(old(instructions)@) + stmt_code(*statement, Some(locals_view(local_indices@))),
{
    emit_statement(statement, instructions, Some(local_indices));
    Ok(())
}


/// The code of statements one after another is the code of the first
/// statements followed by the code of the rest.
pub proof fn lemma_stmts_concat(a: Seq<Statement>, b: Seq<Statement>, loc: Option<Seq<(Seq<char>, usize)>>)
    ensures
        stmts_code(a + b, loc) == stmts_code(a, loc) + stmts_code(b, loc),
    decreases b.len(),
{
    if b.len() == 0 {
        assert(a + b =~= a);
        assert(stmts_code(a, loc) + stmts_code(b, loc) =~= stmts_code(a, loc));
    } else {
        lemma_stmts_concat(a, b.drop_last(), loc);
        assert((a + b).drop_last() =~= a + b.drop_last());
        assert((a + b).last() == b.last());
        assert(stmts_code(a + b, loc) =~= stmts_code(a, loc) + stmts_code(b, loc));
    }
}

/// A block's code is the code of its statements, each in turn: the code of
/// its first statements followed by the code of its last one.
pub proof fn lemma_block_code(v: Vec<Statement>, k: int, loc: Option<Seq<(Seq<char>, usize)>>)
    requires
        0 <= k <= v@.len(),
    ensures
        stmt_code(Statement::Block(v), loc) == stmts_code(v@.take(k), loc) + stmts_code(v@.skip(k), loc),
        v@.len() > 0 ==> stmts_code(v@, loc) == stmts_code(v@.drop_last(), loc) + stmt_code(v@.last(), loc),
{
    lemma_stmts_concat(v@.take(k), v@.skip(k), loc);
    assert(v@.take(k) + v@.skip(k) =~= v@);
}

/// Whether no function expression in `e`, at any depth, has parameters.
pub open spec fn params_free_expr(e: Expression) -> bool
    decreases e,
{
    match e {
        Expression::Literal(_) => true,
        Expression::Identifier(_) => true,
        Expression::Binary { left, op, right } => params_free_expr(*left) && params_free_expr(*right),
        Expression::Unary { op, expr } => params_free_expr(*expr),
        Expression::Call { callee, args } => params_free_expr(*callee)
            && forall|i: int| 0 <= i < args@.len() ==> params_free_expr(#[trigger] args@[i]),
        Expression::Member { object, property } => params_free_expr(*object) && params_free_expr(*property),
        Expression::Index { object, index } => params_free_expr(*object) && params_free_expr(*index),
        Expression::Object(props) => forall|i: int| 0 <= i < props@.len() ==> params_free_expr(#[trigger] props@[i].1),
        Expression::Array(elements) => forall|i: int| 0 <= i < elements@.len() ==> params_free_expr(#[trigger] elements@[i]),
        Expression::Assignment { left, right } => params_free_expr(*left) && params_free_expr(*right),
        Expression::Conditional { test, consequent, alternate } => params_free_expr(*test)
            && params_free_expr(*consequent) && params_free_expr(*alternate),
        Expression::Function { params, body } => params@.len() == 0
            && forall|i: int| 0 <= i < body@.len() ==> params_free_stmt(#[trigger] body@[i]),
        Expression::ArrowFunction { params, body } => params@.len() == 0 && params_free_expr(*body),
    }
}

/// Whether no function expression in `s`, at any depth where local slots
/// are used, has parameters.
pub open spec fn params_free_stmt(s: Statement) -> bool
    decreases s,
{
    match s {
        Statement::VariableDeclaration { name, initializer } => match initializer {
            Some(e) => params_free_expr(e),
            None => true,
        },
        Statement::Block(statements) => forall|i: int| 0 <= i < statements@.len()
            ==> params_free_stmt(#[trigger] statements@[i]),
        Statement::If { test, consequent, alternate } => params_free_expr(test) && params_free_stmt(*consequent)
            && match alternate {
            Some(x) => params_free_stmt(*x),
            None => true,
        },
        Statement::While { test, body } => params_free_expr(test) && params_free_stmt(*body),
        Statement::For { init, test, update, body } => params_free_stmt(*body) && match init {
            Some(x) => params_free_stmt(*x),
            None => true,
        } && match test {
            Some(e) => params_free_expr(e),
            None => true,
        } && match update {
            Some(e) => params_free_expr(e),
            None => true,
        },
        Statement::Return(value) => match value {
            Some(e) => params_free_expr(e),
            None => true,
        },
        Statement::Expression(e) => params_free_expr(e),
        _ => true,
    }
}

/// Generating with no local bindings gives the code generated without
/// local slots, where no function expression has parameters.
pub proof fn lemma_no_locals_expr(e: Expression)
    requires
        params_free_expr(e),
    ensures
        expr_code(e, Some(Seq::empty())) == expr_code(e, None),
    decreases e, 1nat, 0nat,
{
    let l = Some(Seq::<(Seq<char>, usize)>::empty());
    match e {
        Expression::Binary { left, op, right } => {
            lemma_no_locals_expr(*left);
            lemma_no_locals_expr(*right);
        },
        Expression::Unary { op, expr } => {
            lemma_no_locals_expr(*expr);
        },
        Expression::Call { callee, args } => {
            lemma_no_locals_expr(*callee);
            assert forall|i: int| 0 <= i < args@.len() implies decreases_to!(e => #[trigger] args@[i]) by {
                assert(decreases_to!(e => args));
                assert(decreases_to!(args => args@));
                assert(decreases_to!(args@ => args@[i]));
            }
            lemma_no_locals_args(args@, e);
        },
        Expression::Member { object, property } => {
            lemma_no_locals_expr(*object);
            lemma_no_locals_expr(*property);
        },
        Expression::Index { object, index } => {
            lemma_no_locals_expr(*object);
            lemma_no_locals_expr(*index);
        },
        Expression::Object(props) => {
            assert forall|i: int| 0 <= i < props@.len() implies decreases_to!(e => #[trigger] props@[i].1) by {
                assert(decreases_to!(e => props));
                assert(decreases_to!(props => props@));
                assert(decreases_to!(props@ => props@[i]));
                assert(decreases_to!(props@[i] => props@[i].1));
            }
            lemma_no_locals_props(props@, e);
        },
        Expression::Array(elements) => {
            assert forall|i: int| 0 <= i < elements@.len() implies decreases_to!(e => #[trigger] elements@[i]) by {
                assert(decreases_to!(e => elements));
                assert(decreases_to!(elements => elements@));
                assert(decreases_to!(elements@ => elements@[i]));
            }
            lemma_no_locals_elements(elements@, e);
        },
        Expression::Assignment { left, right } => {
            lemma_no_locals_expr(*left);
            lemma_no_locals_expr(*right);
            match *left {
                Expression::Member { object, property } => {
                    assert(decreases_to!(e => *left));
                    assert(decreases_to!(*left => object));
                    assert(decreases_to!(*left => property));
                    assert(params_free_expr(*left));
                    assert(params_free_expr(*object) && params_free_expr(*property));
                    lemma_no_locals_expr(*object);
                    lemma_no_locals_expr(*property);
                },
                Expression::Index { object, index } => {
                    assert(decreases_to!(e => *left));
                    assert(decreases_to!(*left => object));
                    assert(decreases_to!(*left => index));
                    assert(params_free_expr(*left));
                    assert(params_free_expr(*object) && params_free_expr(*index));
                    lemma_no_locals_expr(*object);
                    lemma_no_locals_expr(*index);
                },
                _ => {},
            }
        },
        Expression::Conditional { test, consequent, alternate } => {
            lemma_no_locals_expr(*test);
            lemma_no_locals_expr(*consequent);
            lemma_no_locals_expr(*alternate);
        },
        Expression::Function { params, body } => {
            assert(Seq::<(Seq<char>, usize)>::empty() + param_slots(params@) =~= Seq::<(Seq<char>, usize)>::empty());
            assert(nested_locals(l, params@) == l);
            assert forall|i: int| 0 <= i < body@.len() implies decreases_to!(e => #[trigger] body@[i]) by {
                assert(decreases_to!(e => body));
                assert(decreases_to!(body => body@));
                assert(decreases_to!(body@ => body@[i]));
            }
            lemma_no_locals_body(body@, e);
        },
        Expression::ArrowFunction { params, body } => {
            assert(Seq::<(Seq<char>, usize)>::empty() + param_slots(params@) =~= Seq::<(Seq<char>, usize)>::empty());
            assert(nested_locals(l, params@) == l);
            lemma_no_locals_expr(*body);
        },
        _ => {},
    }
}

/// `lemma_no_locals_expr` for call arguments taken from `whole`.
proof fn lemma_no_locals_args(args: Seq<Expression>, whole: Expression)
    requires
        forall|i: int| 0 <= i < args.len() ==> params_free_expr(#[trigger] args[i]),
        forall|i: int| 0 <= i < args.len() ==> decreases_to!(whole => #[trigger] args[i]),
    ensures
        args_code(args, Some(Seq::empty())) == args_code(args, None),
    decreases whole, 0nat, args.len(),
{
    if args.len() > 0 {
        lemma_no_locals_args(args.drop_last(), whole);
        assert(decreases_to!(whole => args[args.len() - 1]));
        lemma_no_locals_expr(args.last());
    }
}

/// `lemma_no_locals_expr` for object properties taken from `whole`.
proof fn lemma_no_locals_props(props: Seq<(String, Expression)>, whole: Expression)
    requires
        forall|i: int| 0 <= i < props.len() ==> params_free_expr(#[trigger] props[i].1),
        forall|i: int| 0 <= i < props.len() ==> decreases_to!(whole => #[trigger] props[i].1),
    ensures
        props_code(props, Some(Seq::empty())) == props_code(props, None),
    decreases whole, 0nat, props.len(),
{
    if props.len() > 0 {
        lemma_no_locals_props(props.drop_last(), whole);
        assert(decreases_to!(whole => props[props.len() - 1].1));
        lemma_no_locals_expr(props.last().1);
    }
}

/// `lemma_no_locals_expr` for array elements taken from `whole`.
proof fn lemma_no_locals_elements(elements: Seq<Expression>, whole: Expression)
    requires
        forall|i: int| 0 <= i < elements.len() ==> params_free_expr(#[trigger] elements[i]),
        forall|i: int| 0 <= i < elements.len() ==> decreases_to!(whole => #[trigger] elements[i]),
    ensures
        elements_code(elements, Some(Seq::empty())) == elements_code(elements, None),
    decreases whole, 0nat, elements.len(),
{
    if elements.len() > 0 {
        lemma_no_locals_elements(elements.drop_last(), whole);
        assert(decreases_to!(whole => elements[elements.len() - 1]));
        lemma_no_locals_expr(elements.last());
    }
}

/// `lemma_no_locals_stmt` for the body of the function expression `whole`.
proof fn lemma_no_locals_body(v: Seq<Statement>, whole: Expression)
    requires
        forall|i: int| 0 <= i < v.len() ==> params_free_stmt(#[trigger] v[i]),
        forall|i: int| 0 <= i < v.len() ==> decreases_to!(whole => #[trigger] v[i]),
    ensures
        stmts_code(v, Some(Seq::empty())) == stmts_code(v, None),
    decreases whole, 0nat, v.len(),
{
    if v.len() > 0 {
        lemma_no_locals_body(v.drop_last(), whole);
        assert(decreases_to!(whole => v[v.len() - 1]));
        lemma_no_locals_stmt(v.last());
    }
}

/// `lemma_no_locals_stmt` for the statements of the block `whole`.
proof fn lemma_no_locals_block(v: Seq<Statement>, whole: Statement)
    requires
        forall|i: int| 0 <= i < v.len() ==> params_free_stmt(#[trigger] v[i]),
        forall|i: int| 0 <= i < v.len() ==> decreases_to!(whole => #[trigger] v[i]),
    ensures
        stmts_code(v, Some(Seq::empty())) == stmts_code(v, None),
    decreases whole, 0nat, v.len(),
{
    if v.len() > 0 {
        lemma_no_locals_block(v.drop_last(), whole);
        assert(decreases_to!(whole => v[v.len() - 1]));
        lemma_no_locals_stmt(v.last());
    }
}

/// Generating a statement with no local bindings gives the code generated
/// without local slots, where no function expression has parameters.
pub proof fn lemma_no_locals_stmt(s: Statement)
    requires
        params_free_stmt(s),
    ensures
        stmt_code(s, Some(Seq::empty())) == stmt_code(s, None),
    decreases s, 1nat, 0nat,
{
    match s {
        Statement::VariableDeclaration { name, initializer } => {
            match initializer {
                Some(e) => lemma_no_locals_expr(e),
                None => {},
            }
        },
        Statement::Block(statements) => {
            assert forall|i: int| 0 <= i < statements@.len() implies decreases_to!(s => #[trigger] statements@[i]) by {
                assert(decreases_to!(s => statements));
                assert(decreases_to!(statements => statements@));
                assert(decreases_to!(statements@ => statements@[i]));
            }
            lemma_no_locals_block(statements@, s);
        },
        Statement::If { test, consequent, alternate } => {
            lemma_no_locals_expr(test);
            lemma_no_locals_stmt(*consequent);
            match alternate {
                Some(x) => lemma_no_locals_stmt(*x),
                None => {},
            }
        },
        Statement::While { test, body } => {
            lemma_no_locals_expr(test);
            lemma_no_locals_stmt(*body);
        },
        Statement::For { init, test, update, body } => {
            lemma_no_locals_stmt(*body);
            match init {
                Some(x) => lemma_no_locals_stmt(*x),
                None => {},
            }
            match test {
                Some(e) => lemma_no_locals_expr(e),
                None => {},
            }
            match update {
                Some(e) => lemma_no_locals_expr(e),
                None => {},
            }
        },
        Statement::Return(value) => {
            match value {
                Some(e) => lemma_no_locals_expr(e),
                None => {},
            }
        },
        Statement::Expression(e) => {
            lemma_no_locals_expr(e);
        },
        _ => {},
    }
}


/// Generating with an empty list of local bindings gives the same code as
/// generating without local slots, where no function expression has
/// parameters.
pub proof fn lemma_empty_locals_same_code(e: Expression, s: Statement, v: Seq<(String, usize)>)
    requires
        v.len() == 0,
    ensures
        params_free_expr(e) ==> expr_code(e, Some(locals_view(v))) == expr_code(e, None),
        params_free_stmt(s) ==> stmt_code(s, Some(locals_view(v))) == stmt_code(s, None),
{
    assert(locals_view(v) =~= Seq::<(Seq<char>, usize)>::empty());
    if params_free_expr(e) {
        lemma_no_locals_expr(e);
    }
    if params_free_stmt(s) {
        lemma_no_locals_stmt(s);
    }
}

} // verus!
