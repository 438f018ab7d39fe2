//! Optimization levels of the just-in-time compiler.

use vstd::prelude::*;
use crate::codegen::generator::{Instruction, Op, op_of, opt_name, ops_of, lemma_ops_len, lemma_ops_index, lemma_ops_push, lemma_ops_update, lemma_ops_remove};
use crate::codegen::optimizer::copy_instruction;
use crate::codegen::{BinaryOp, UnaryOp};
use vstd::string::*;

verus! {

/// How much the just-in-time optimizer does.
#[derive(Debug, Clone, PartialEq, Eq, Structural)]
pub enum OptimizationLevel {
    /// No optimization.
    NoOptimization,
    /// Basic optimizations.
    Basic,
    /// Medium optimizations.
    Medium,
    /// Every optimization.
    High,
}

/// The just-in-time optimizer, at a fixed level.
#[derive(Debug)]
pub struct JITOptimizer {
    optimization_level: OptimizationLevel,
}

impl JITOptimizer {
    /// The optimizer's level.
    pub closed spec fn level(&self) -> OptimizationLevel {
        self.optimization_level
    }

    /// An optimizer at `level`.
    pub fn new(level: OptimizationLevel) -> (o: Self)
        ensures
            o.level() == level,
    {
        JITOptimizer { optimization_level: level }
    }
}

/// The level chosen for a function from its profile, as
/// `(call count, average time in microseconds, complexity)`.
pub open spec fn level_for(profile: Option<(usize, u64, usize)>) -> OptimizationLevel {
    match profile {
        None => OptimizationLevel::Basic,
        Some((calls, avg_time, complexity)) => {
            if calls > 1000 && avg_time > 500 {
                OptimizationLevel::High
            } else if calls > 500 || (avg_time > 200 && complexity > 20) {
                OptimizationLevel::Medium
            } else if calls > 100 || complexity > 10 {
                OptimizationLevel::Basic
            } else {
                OptimizationLevel::NoOptimization
            }
        },
    }
}

/// Chooses the level for a function: basic without a profile; high for
/// functions called over 1000 times averaging over 500 µs; medium for
/// those called over 500 times, or averaging over 200 µs with a
/// complexity over 20; basic for those called over 100 times or with a
/// complexity over 10; none otherwise.
pub fn select_optimization_level(profile: Option<(usize, u64, usize)>) -> (l: OptimizationLevel)
    ensures
        l == level_for(profile),
{
    match profile {
        None => OptimizationLevel::Basic,
        Some((calls, avg_time, complexity)) => {
            if calls > 1000 && avg_time > 500 {
                OptimizationLevel::High
            } else if calls > 500 || (avg_time > 200 && complexity > 20) {
                OptimizationLevel::Medium
            } else if calls > 100 || complexity > 10 {
                OptimizationLevel::Basic
            } else {
                OptimizationLevel::NoOptimization
            }
        },
    }
}

/// A function called more often never gets a lower level, all else equal.
pub proof fn lemma_level_monotone_in_calls(c1: usize, c2: usize, t: u64, k: usize)
    requires
        c1 <= c2,
    ensures
        rank(level_for(Some((c1, t, k)))) <= rank(level_for(Some((c2, t, k)))),
{
}

/// The rank of a level, from none (0) to high (3).
pub open spec fn rank(l: OptimizationLevel) -> int {
    match l {
        OptimizationLevel::NoOptimization => 0,
        OptimizationLevel::Basic => 1,
        OptimizationLevel::Medium => 2,
        OptimizationLevel::High => 3,
    }
}


/// The truth of the constant that `c` pushes, where it pushes one:
/// booleans as they are, numbers other than zero (NaN included) and
/// non-empty strings true, `undefined` and `null` false.
pub open spec fn constant_truth(c: Instruction) -> Option<bool> {
    match c {
        Instruction::PushBoolean(b) => Some(b),
        Instruction::PushNumber(n) => Some(n & 0x7fff_ffff_ffff_ffff != 0),
        Instruction::PushString(s) => Some(s@.len() > 0),
        Instruction::PushUndefined => Some(false),
        Instruction::PushNull => Some(false),
        _ => None,
    }
}

/// `code` without the instructions `a..b`.
pub open spec fn cut(code: Seq<Instruction>, a: int, b: int) -> Seq<Instruction> {
    code.subrange(0, a) + code.subrange(b, code.len() as int)
}

/// Whether the jump by `offset` at `i` skips instructions inside `code`:
/// the target, `i + 1 + offset`, lies past the next instruction and within
/// the code.
pub open spec fn skips_within(code: Seq<Instruction>, i: int, offset: u32) -> bool {
    0 < offset && i + 1 + offset <= code.len()
}

/// The first position from `j` on that holds no `Pop`.
pub open spec fn pop_run_end(code: Seq<Instruction>, j: int) -> int
    decreases code.len() - j,
{
    if j < 0 || j >= code.len() {
        j
    } else if code[j] is Pop {
        pop_run_end(code, j + 1)
    } else {
        j
    }
}

/// One step of dead-code elimination at `i`: the new code and where to
/// look next.
/// - A jump that skips instructions within the code removes them.
/// - A conditional jump after a constant: a true one goes; a false one
///   removes what it skips, then itself and the constant.
/// - A run of `Pop`s becomes one.
/// - Everything after a `Return` goes.
pub open spec fn dce_step(code: Seq<Instruction>, i: int) -> (Seq<Instruction>, int) {
    let n = code.len() as int;
    match code[i] {
        Instruction::Jump(off) => if skips_within(code, i, off) {
            (cut(code, i + 1, i + 1 + off), i)
        } else {
            (code, i + 1)
        },
        Instruction::JumpIfFalse(off) => if i > 0 && constant_truth(code[i - 1]) is Some {
            if constant_truth(code[i - 1])->0 {
                (code.remove(i), i)
            } else {
                let c = if skips_within(code, i, off) { cut(code, i + 1, i + 1 + off) } else { code };
                (c.remove(i).remove(i - 1), i - 1)
            }
        } else {
            (code, i + 1)
        },
        Instruction::Pop => if pop_run_end(code, i + 1) > i + 1 {
            (cut(code, i + 1, pop_run_end(code, i + 1)), i)
        } else {
            (code, i + 1)
        },
        Instruction::Return => if i + 1 < n {
            (code.subrange(0, i + 1), i)
        } else {
            (code, i + 1)
        },
        _ => (code, i + 1),
    }
}

/// Where the run of `Pop`s from `j` ends.
pub proof fn lemma_pop_run_end(code: Seq<Instruction>, j: int)
    requires
        0 <= j <= code.len(),
    ensures
        j <= pop_run_end(code, j) <= code.len(),
        forall|k: int| j <= k < pop_run_end(code, j) ==> code[k] is Pop,
        pop_run_end(code, j) < code.len() ==> !(code[pop_run_end(code, j)] is Pop),
    decreases code.len() - j,
{
    if j < code.len() && code[j] is Pop {
        lemma_pop_run_end(code, j + 1);
    }
}

/// A step either shortens the code or moves on by one.
pub proof fn lemma_dce_step(code: Seq<Instruction>, i: int)
    requires
        0 <= i < code.len(),
    ensures
        dce_step(code, i).0.len() < code.len() || (dce_step(code, i).0 == code && dce_step(code, i).1 == i + 1),
        0 <= dce_step(code, i).1,
{
    lemma_pop_run_end(code, i + 1);
}

/// The code after dead-code elimination from position `i`.
pub open spec fn dce(code: Seq<Instruction>, i: int) -> Seq<Instruction>
    decreases code.len(), code.len() - i,
{
    if i < 0 || i >= code.len() {
        code
    } else {
        proof {
            lemma_dce_step(code, i);
        }
        dce(dce_step(code, i).0, dce_step(code, i).1)
    }
}

/// Removes the instructions `a..b` of `code`.
fn cut_range(code: &mut Vec<Instruction>, a: usize, b: usize)
    requires
        a <= b <= old(code)@.len(),
    ensures
        final(code)@ == cut(old(code)@, a as int, b as int),
{
    let mut k: usize = a;
    while k < b
        invariant
            a <= k <= b <= old(code)@.len(),
            code@ == cut(old(code)@, a as int, k as int),
        decreases b - k,
    {
        code.remove(a);
        assert(code@ =~= cut(old(code)@, a as int, k + 1));
        k = k + 1;
    }
}

/// The truth of the constant that `c` pushes, where it pushes one.
fn truth_of(c: &Instruction) -> (r: Option<bool>)
    ensures
        r == constant_truth(*c),
{
    match c {
        Instruction::PushBoolean(b) => Some(*b),
        Instruction::PushNumber(n) => Some(*n & 0x7fff_ffff_ffff_ffff != 0),
        Instruction::PushString(s) => Some(s.as_str().unicode_len() > 0),
        Instruction::PushUndefined => Some(false),
        Instruction::PushNull => Some(false),
        _ => None,
    }
}

impl JITOptimizer {
    /// Removes dead code: instructions that a jump always skips, constant
    /// conditions, repeated `Pop`s and everything after a `Return`.
    pub fn dead_code_elimination(&self, instructions: &mut Vec<Instruction>)
        requires
            old(instructions)@.len() <= i32::MAX,
        ensures
            final(instructions)@ == dce(old(instructions)@, 0),
    {
        let mut i: usize = 0;
        while i < instructions.len()
            invariant
                instructions@.len() <= i32::MAX,
                dce(old(instructions)@, 0) == dce(instructions@, i as int),
            decreases instructions@.len(), instructions@.len() - i,
        {
            let ghost before = instructions@;
            proof {
                lemma_dce_step(before, i as int);
            }
            let n = instructions.len();
            let mut next = i + 1;
            match &instructions[i] {
                Instruction::Jump(off) => {
                    let off = *off as usize;
                    if 0 < off && off < n && i + 1 + off <= n {
                        cut_range(instructions, i + 1, i + 1 + off);
                        next = i;
                    }
                },
                Instruction::JumpIfFalse(off) => {
                    let off = *off as usize;
                    if i > 0 {
                        match truth_of(&instructions[i - 1]) {
                            Some(true) => {
                                instructions.remove(i);
                                next = i;
                            },
                            Some(false) => {
                                if 0 < off && off < n && i + 1 + off <= n {
                                    cut_range(instructions, i + 1, i + 1 + off);
                                }
                                instructions.remove(i);
                                instructions.remove(i - 1);
                                next = i - 1;
                            },
                            None => {},
                        }
                    }
                },
                Instruction::Pop => {
                    let mut j = i + 1;
                    proof {
                        lemma_pop_run_end(before, i + 1);
                    }
                    while j < n
                        invariant
                            i + 1 <= j <= n,
                            n == before.len(),
                            instructions@ == before,
                            forall|k: int| i + 1 <= k < j ==> before[k] is Pop,
                            pop_run_end(before, i + 1) >= j,
                            pop_run_end(before, i + 1) <= n,
                            pop_run_end(before, i + 1) < n ==> !(before[pop_run_end(before, i + 1)] is Pop),
                            forall|k: int| i + 1 <= k < pop_run_end(before, i + 1) ==> before[k] is Pop,
                        ensures
                            j == pop_run_end(before, i + 1),
                        decreases n - j,
                    {
                        match &instructions[j] {
                            Instruction::Pop => {},
                            _ => {
                                assert(!(before[j as int] is Pop));
                                break;
                            },
                        }
                        j = j + 1;
                    }
                    assert(j == pop_run_end(before, i + 1));
                    if j > i + 1 {
                        cut_range(instructions, i + 1, j);
                        next = i;
                    }
                },
                Instruction::Return => {
                    if i + 1 < n {
                        instructions.truncate(i + 1);
                        next = i;
                    }
                },
                _ => {},
            }
            assert(instructions@ == dce_step(before, i as int).0);
            assert(next as int == dce_step(before, i as int).1);
            i = next;
        }
    }
}


/// Whether the optimizer folds two numbers under `op`: arithmetic,
/// comparisons and the bitwise operators.
pub open spec fn folds_numbers(op: BinaryOp) -> bool {
    match op {
        BinaryOp::Add | BinaryOp::Sub | BinaryOp::Mul | BinaryOp::Div | BinaryOp::Mod | BinaryOp::Eq
        | BinaryOp::Neq | BinaryOp::Gt | BinaryOp::Gte | BinaryOp::Lt | BinaryOp::Lte | BinaryOp::BitAnd
        | BinaryOp::BitOr | BinaryOp::BitXor | BinaryOp::Shl | BinaryOp::Shr | BinaryOp::UShr => true,
        _ => false,
    }
}

/// The fold of two booleans under `op`, where the optimizer folds it.
pub open spec fn fold_booleans(a: bool, b: bool, op: BinaryOp) -> Option<bool> {
    match op {
        BinaryOp::And => Some(a && b),
        BinaryOp::Or => Some(a || b),
        BinaryOp::Eq => Some(a == b),
        BinaryOp::Neq => Some(a != b),
        _ => None,
    }
}

/// The result that the number fold `f` gives for `a`, `b` and `op`.
pub open spec fn number_fold<F: Fn(u64, u64, BinaryOp) -> u64>(f: F, a: u64, b: u64, op: BinaryOp) -> u64 {
    choose|r: u64| call_ensures(f, (a, b, op), r)
}

/// The result that the bitwise-not fold `g` gives for `a`.
pub open spec fn not_fold<G: Fn(u64) -> u64>(g: G, a: u64) -> u64 {
    choose|r: u64| call_ensures(g, (a,), r)
}

/// One step of constant folding at `i`: the new code, where to look next,
/// and whether folding stops there (at a constant operation that the
/// optimizer neither folds nor passes over).
/// - Two numbers and an operator the optimizer folds become the number
///   that `f` gives.
/// - Two booleans and `&&`, `||`, `==` or `!=` become their value.
/// - Two strings and `+` become their concatenation.
/// - `!` after a boolean, and `-`, `+` or `~` after a number, fold into the
///   constant, and folding looks at it again.
pub open spec fn fold_step<F: Fn(u64, u64, BinaryOp) -> u64, G: Fn(u64) -> u64>(
    code: Seq<Op>,
    i: int,
    f: F,
    g: G,
) -> (Seq<Op>, int, bool) {
    let n = code.len() as int;
    match code[i] {
        Op::PushNumber(a) => if i + 2 < n && code[i + 1] is PushNumber && code[i + 2] is BinaryOp {
            let b = code[i + 1]->PushNumber_0;
            let op = code[i + 2]->BinaryOp_0;
            if folds_numbers(op) {
                (code.update(i, Op::PushNumber(number_fold(f, a, b, op))).remove(i + 1).remove(i + 1), i, false)
            } else {
                (code, i, true)
            }
        } else {
            (code, i + 1, false)
        },
        Op::PushBoolean(a) => if i + 2 < n && code[i + 1] is PushBoolean && code[i + 2] is BinaryOp {
            let b = code[i + 1]->PushBoolean_0;
            let op = code[i + 2]->BinaryOp_0;
            match fold_booleans(a, b, op) {
                Some(r) => (code.update(i, Op::PushBoolean(r)).remove(i + 1).remove(i + 1), i, false),
                None => (code, i, true),
            }
        } else {
            (code, i + 1, false)
        },
        Op::PushString(a) => if i + 2 < n && code[i + 1] is PushString && code[i + 2] == Op::BinaryOp(BinaryOp::Add) {
            (code.update(i, Op::PushString(a + code[i + 1]->PushString_0)).remove(i + 1).remove(i + 1), i, false)
        } else {
            (code, i + 1, false)
        },
        Op::UnaryOp(op) => if i >= 1 && code[i - 1] is PushBoolean {
            if op == UnaryOp::Not {
                (code.update(i - 1, Op::PushBoolean(!code[i - 1]->PushBoolean_0)).remove(i), i - 1, false)
            } else {
                (code, i, true)
            }
        } else if i >= 1 && code[i - 1] is PushNumber {
            let a = code[i - 1]->PushNumber_0;
            if op == UnaryOp::Neg {
                (code.update(i - 1, Op::PushNumber(a ^ 0x8000_0000_0000_0000u64)).remove(i), i - 1, false)
            } else if op == UnaryOp::Pos {
                (code.remove(i), i - 1, false)
            } else if op == UnaryOp::BitNot {
                (code.update(i - 1, Op::PushNumber(not_fold(g, a))).remove(i), i - 1, false)
            } else {
                (code, i, true)
            }
        } else {
            (code, i + 1, false)
        },
        _ => (code, i + 1, false),
    }
}

/// A folding step either shortens the code, moves on by one, or stops.
pub proof fn lemma_fold_step<F: Fn(u64, u64, BinaryOp) -> u64, G: Fn(u64) -> u64>(code: Seq<Op>, i: int, f: F, g: G)
    requires
        0 <= i < code.len(),
    ensures
        fold_step(code, i, f, g).2 || fold_step(code, i, f, g).0.len() < code.len()
            || (fold_step(code, i, f, g).0 == code && fold_step(code, i, f, g).1 == i + 1),
        0 <= fold_step(code, i, f, g).1,
{
}

/// The code after constant folding from position `i`; folding stops, with
/// the code as it stands, at a constant operation that it neither folds
/// nor passes over.
pub open spec fn jit_folded<F: Fn(u64, u64, BinaryOp) -> u64, G: Fn(u64) -> u64>(code: Seq<Op>, i: int, f: F, g: G) -> Seq<Op>
    decreases code.len(), code.len() - i,
{
    if i < 0 || i >= code.len() {
        code
    } else {
        proof {
            lemma_fold_step(code, i, f, g);
        }
        if fold_step(code, i, f, g).2 {
            code
        } else {
            jit_folded(fold_step(code, i, f, g).0, fold_step(code, i, f, g).1, f, g)
        }
    }
}


/// Whether the optimizer folds two numbers under `op`.
fn folds_numbers_exec(op: BinaryOp) -> (b: bool)
    ensures
        b == folds_numbers(op),
{
    match op {
        BinaryOp::Add | BinaryOp::Sub | BinaryOp::Mul | BinaryOp::Div | BinaryOp::Mod | BinaryOp::Eq
        | BinaryOp::Neq | BinaryOp::Gt | BinaryOp::Gte | BinaryOp::Lt | BinaryOp::Lte | BinaryOp::BitAnd
        | BinaryOp::BitOr | BinaryOp::BitXor | BinaryOp::Shl | BinaryOp::Shr | BinaryOp::UShr => true,
        _ => false,
    }
}

/// The fold of two booleans under `op`, where the optimizer folds it.
fn fold_booleans_exec(a: bool, b: bool, op: BinaryOp) -> (r: Option<bool>)
    ensures
        r == fold_booleans(a, b, op),
{
    match op {
        BinaryOp::And => Some(a && b),
        BinaryOp::Or => Some(a || b),
        BinaryOp::Eq => Some(a == b),
        BinaryOp::Neq => Some(a != b),
        _ => None,
    }
}

/// Replaces instruction `i` by `x` and removes the `k` instructions after it.
fn replace_and_drop(code: &mut Vec<Instruction>, i: usize, x: Instruction, k: usize)
    requires
        i + k < old(code)@.len(),
        k <= 2,
    ensures
        ops_of(final(code)@) == (if k == 0 {
            ops_of(old(code)@).update(i as int, op_of(x))
        } else if k == 1 {
            ops_of(old(code)@).update(i as int, op_of(x)).remove(i + 1)
        } else {
            ops_of(old(code)@).update(i as int, op_of(x)).remove(i + 1).remove(i + 1)
        }),
{
    proof {
        lemma_ops_len(code@);
        lemma_ops_update(code@, i as int, x);
    }
    let n = code.len();
    assert(k >= 1 ==> i + 1 < n);
    let j = if k >= 1 { i + 1 } else { i };
    code.set(i, x);
    if k >= 1 {
        let ghost c1 = code@;
        code.remove(j);
        proof {
            lemma_ops_remove(c1, i + 1);
        }
    }
    if k >= 2 {
        let ghost c2 = code@;
        code.remove(j);
        proof {
            lemma_ops_len(c2);
            lemma_ops_remove(c2, i + 1);
        }
    }
}

/// One folding step at `i`: where to look next and whether folding stops.
#[verifier::rlimit(100)]
fn fold_at<F: Fn(u64, u64, BinaryOp) -> u64, G: Fn(u64) -> u64>(
    code: &mut Vec<Instruction>,
    i: usize,
    f: &F,
    g: &G,
) -> (r: (usize, bool))
    requires
        i < old(code)@.len(),
        forall|a: u64, b: u64, op: BinaryOp| call_requires(*f, (a, b, op)),
        forall|a: u64, b: u64, op: BinaryOp, r1: u64, r2: u64|
            call_ensures(*f, (a, b, op), r1) && call_ensures(*f, (a, b, op), r2) ==> r1 == r2,
        forall|a: u64| call_requires(*g, (a,)),
        forall|a: u64, r1: u64, r2: u64| call_ensures(*g, (a,), r1) && call_ensures(*g, (a,), r2) ==> r1 == r2,
    ensures
        ops_of(final(code)@) == fold_step(ops_of(old(code)@), i as int, *f, *g).0,
        r.0 as int == fold_step(ops_of(old(code)@), i as int, *f, *g).1,
        r.1 == fold_step(ops_of(old(code)@), i as int, *f, *g).2,
{
    let n = code.len();
    let ghost ops = ops_of(code@);
    proof {
        lemma_ops_len(code@);
        lemma_ops_index(code@, i as int);
        if i + 1 < n {
            lemma_ops_index(code@, i + 1);
        }
        if i + 2 < n {
            lemma_ops_index(code@, i + 2);
        }
        if i >= 1 {
            lemma_ops_index(code@, i - 1);
        }
    }
    match &code[i] {
        Instruction::PushNumber(a) => {
            let a = *a;
            if n - i > 2 {
                if let Instruction::PushNumber(b) = &code[i + 1] {
                    let b = *b;
                    if let Instruction::BinaryOp(op) = &code[i + 2] {
                        let op = *op;
                        if folds_numbers_exec(op) {
                            let v = f(a, b, op);
                            proof {
                                assert(call_ensures(*f, (a, b, op), v));
                                assert(call_ensures(*f, (a, b, op), number_fold(*f, a, b, op)));
                            }
                            replace_and_drop(code, i, Instruction::PushNumber(v), 2);
                            return (i, false);
                        } else {
                            return (i, true);
                        }
                    }
                }
            }
            (i + 1, false)
        },
        Instruction::PushBoolean(a) => {
            let a = *a;
            if n - i > 2 {
                if let Instruction::PushBoolean(b) = &code[i + 1] {
                    let b = *b;
                    if let Instruction::BinaryOp(op) = &code[i + 2] {
                        let op = *op;
                        match fold_booleans_exec(a, b, op) {
                            Some(v) => {
                                replace_and_drop(code, i, Instruction::PushBoolean(v), 2);
                                return (i, false);
                            },
                            None => {
                                return (i, true);
                            },
                        }
                    }
                }
            }
            (i + 1, false)
        },
        Instruction::PushString(a) => {
            let mut t = a.clone();
            if n - i > 2 {
                if let Instruction::PushString(b) = &code[i + 1] {
                    let is_add = match &code[i + 2] {
                        Instruction::BinaryOp(BinaryOp::Add) => true,
                        _ => false,
                    };
                    if is_add {
                        t.append(b.as_str());
                        replace_and_drop(code, i, Instruction::PushString(t), 2);
                        return (i, false);
                    }
                }
            }
            (i + 1, false)
        },
        Instruction::UnaryOp(op) => {
            let op = *op;
            if i >= 1 {
                match &code[i - 1] {
                    Instruction::PushBoolean(b) => {
                        let b = *b;
                        if op == UnaryOp::Not {
                            replace_and_drop(code, i - 1, Instruction::PushBoolean(!b), 1);
                            return (i - 1, false);
                        } else {
                            return (i, true);
                        }
                    },
                    Instruction::PushNumber(a) => {
                        let a = *a;
                        if op == UnaryOp::Neg {
                            replace_and_drop(code, i - 1, Instruction::PushNumber(a ^ 0x8000_0000_0000_0000u64), 1);
                            return (i - 1, false);
                        } else if op == UnaryOp::Pos {
                            replace_and_drop(code, i - 1, Instruction::PushNumber(a), 1);
                            assert(ops.update(i - 1, Op::PushNumber(a)) =~= ops);
                            return (i - 1, false);
                        } else if op == UnaryOp::BitNot {
                            let v = g(a);
                            proof {
                                assert(call_ensures(*g, (a,), v));
                                assert(call_ensures(*g, (a,), not_fold(*g, a)));
                            }
                            replace_and_drop(code, i - 1, Instruction::PushNumber(v), 1);
                            return (i - 1, false);
                        } else {
                            return (i, true);
                        }
                    },
                    _ => {},
                }
            }
            (i + 1, false)
        },
        _ => (i + 1, false),
    }
}

impl JITOptimizer {
    /// Folds constant operations: two numbers and an operator into the
    /// number that `fold_numbers` computes, booleans and strings into their
    /// value, and unary operators into the constant before them
    /// (`bit_not` computes `~`). Where a constant operation is one the
    /// optimizer neither folds nor passes over, folding stops there.
    pub fn constant_folding<F: Fn(u64, u64, BinaryOp) -> u64, G: Fn(u64) -> u64>(
        &self,
        instructions: &mut Vec<Instruction>,
        fold_numbers: F,
        bit_not: G,
    )
        requires
            forall|a: u64, b: u64, op: BinaryOp| call_requires(fold_numbers, (a, b, op)),
            forall|a: u64, b: u64, op: BinaryOp, r1: u64, r2: u64|
                call_ensures(fold_numbers, (a, b, op), r1) && call_ensures(fold_numbers, (a, b, op), r2) ==> r1 == r2,
            forall|a: u64| call_requires(bit_not, (a,)),
            forall|a: u64, r1: u64, r2: u64| call_ensures(bit_not, (a,), r1) && call_ensures(bit_not, (a,), r2) ==> r1 == r2,
        ensures
            ops_of(final(instructions)@) == jit_folded(ops_of(old(instructions)@), 0, fold_numbers, bit_not),
    {
        let mut i: usize = 0;
        proof {
            lemma_ops_len(instructions@);
        }
        while i < instructions.len()
            invariant
                forall|a: u64, b: u64, op: BinaryOp| call_requires(fold_numbers, (a, b, op)),
                forall|a: u64, b: u64, op: BinaryOp, r1: u64, r2: u64|
                    call_ensures(fold_numbers, (a, b, op), r1) && call_ensures(fold_numbers, (a, b, op), r2) ==> r1 == r2,
                forall|a: u64| call_requires(bit_not, (a,)),
                forall|a: u64, r1: u64, r2: u64| call_ensures(bit_not, (a,), r1) && call_ensures(bit_not, (a,), r2) ==> r1 == r2,
                jit_folded(ops_of(old(instructions)@), 0, fold_numbers, bit_not)
                    == jit_folded(ops_of(instructions@), i as int, fold_numbers, bit_not),
                ops_of(instructions@).len() == instructions@.len(),
            decreases instructions@.len(), instructions@.len() - i,
        {
            let ghost before = ops_of(instructions@);
            proof {
                lemma_fold_step(before, i as int, fold_numbers, bit_not);
            }
            let (next, stop) = fold_at(instructions, i, &fold_numbers, &bit_not);
            proof {
                lemma_ops_len(instructions@);
            }
            if stop {
                return;
            }
            i = next;
        }
    }
}


/// Whether two optional names are the same.
fn same_name(a: &Option<String>, b: &Option<String>) -> (r: bool)
    ensures
        r == (opt_name(*a) == opt_name(*b)),
{
    match (a, b) {
        (Some(x), Some(y)) => *x == *y,
        (None, None) => true,
        _ => false,
    }
}

/// Whether two instructions are the same.
pub fn same_instruction(a: &Instruction, b: &Instruction) -> (r: bool)
    ensures
        r == (op_of(*a) == op_of(*b)),
    decreases a, 0nat,
{
    match (a, b) {
        (Instruction::PushUndefined, Instruction::PushUndefined) => true,
        (Instruction::PushNull, Instruction::PushNull) => true,
        (Instruction::PushBoolean(x), Instruction::PushBoolean(y)) => *x == *y,
        (Instruction::PushNumber(x), Instruction::PushNumber(y)) => *x == *y,
        (Instruction::PushString(x), Instruction::PushString(y)) => *x == *y,
        (Instruction::LoadVariable(x), Instruction::LoadVariable(y)) => *x == *y,
        (Instruction::StoreVariable(x), Instruction::StoreVariable(y)) => *x == *y,
        (Instruction::CreateObject, Instruction::CreateObject) => true,
        (Instruction::GetProperty, Instruction::GetProperty) => true,
        (Instruction::SetProperty, Instruction::SetProperty) => true,
        (Instruction::CreateArray, Instruction::CreateArray) => true,
        (Instruction::GetElement, Instruction::GetElement) => true,
        (Instruction::SetElement, Instruction::SetElement) => true,
        (Instruction::Call(x), Instruction::Call(y)) => *x == *y,
        (Instruction::BinaryOp(x), Instruction::BinaryOp(y)) => *x == *y,
        (Instruction::UnaryOp(x), Instruction::UnaryOp(y)) => *x == *y,
        (Instruction::Jump(x), Instruction::Jump(y)) => *x == *y,
        (Instruction::JumpIfFalse(x), Instruction::JumpIfFalse(y)) => *x == *y,
        (Instruction::Pop, Instruction::Pop) => true,
        (Instruction::CreateFunction(x, m), Instruction::CreateFunction(y, n)) => *x == *y && *m == *n,
        (Instruction::SetFunctionBody(x), Instruction::SetFunctionBody(y)) => {
            proof {
                assert(decreases_to!(*a => (*a)->SetFunctionBody_0));
            }
            same_instructions(x, y)
        },
        (Instruction::Return, Instruction::Return) => true,
        (Instruction::CreateClass(x), Instruction::CreateClass(y)) => *x == *y,
        (Instruction::AddMethod(x), Instruction::AddMethod(y)) => *x == *y,
        (Instruction::SetClassBody(x), Instruction::SetClassBody(y)) => {
            proof {
                assert(decreases_to!(*a => (*a)->SetClassBody_0));
            }
            same_instructions(x, y)
        },
        (Instruction::CreateTypeAlias(x), Instruction::CreateTypeAlias(y)) => *x == *y,
        (Instruction::CreateInterface(x), Instruction::CreateInterface(y)) => *x == *y,
        (Instruction::JumpLoop(x), Instruction::JumpLoop(y)) => *x == *y,
        (Instruction::LoadLocal(x), Instruction::LoadLocal(y)) => *x == *y,
        (Instruction::StoreLocal(x), Instruction::StoreLocal(y)) => *x == *y,
        (Instruction::Dup, Instruction::Dup) => true,
        (Instruction::Swap, Instruction::Swap) => true,
        (Instruction::Throw, Instruction::Throw) => true,
        (
            Instruction::TryStart { handler_ip: h1, finally_ip: f1, exception_var: e1 },
            Instruction::TryStart { handler_ip: h2, finally_ip: f2, exception_var: e2 },
        ) => *h1 == *h2 && *f1 == *f2 && same_name(e1, e2),
        (Instruction::TryEnd, Instruction::TryEnd) => true,
        (Instruction::ImportModule { name: n1, alias: a1 }, Instruction::ImportModule { name: n2, alias: a2 }) =>
            *n1 == *n2 && same_name(a1, a2),
        (Instruction::Export { name: n1 }, Instruction::Export { name: n2 }) => *n1 == *n2,
        _ => false,
    }
}

/// Whether two instruction sequences are the same.
pub fn same_instructions(a: &Vec<Instruction>, b: &Vec<Instruction>) -> (r: bool)
    ensures
        r == (ops_of(a@) == ops_of(b@)),
    decreases a, 1nat,
{
    proof {
        lemma_ops_len(a@);
        lemma_ops_len(b@);
    }
    if a.len() != b.len() {
        return false;
    }
    let mut i: usize = 0;
    while i < a.len()
        invariant
            i <= a@.len(),
            a@.len() == b@.len(),
            ops_of(a@).len() == a@.len(),
            ops_of(b@).len() == b@.len(),
            forall|k: int| 0 <= k < i ==> ops_of(a@)[k] == ops_of(b@)[k],
        decreases a@.len() - i,
    {
        proof {
            assert(decreases_to!(*a => a@));
            assert(decreases_to!(a@ => a@[i as int]));
            lemma_ops_index(a@, i as int);
            lemma_ops_index(b@, i as int);
        }
        if !same_instruction(&a[i], &b[i]) {
            return false;
        }
        i = i + 1;
    }
    assert(ops_of(a@) =~= ops_of(b@));
    true
}


/// The shape of the expression an instruction completes, for common
/// subexpression elimination: how far back its operands start, the jump
/// offset that skips it, and the first position where it is looked at.
/// Binary operators and property and element reads take two operands,
/// unary operators one, a call its arguments and the callee.
pub open spec fn cse_shape(op: Op) -> Option<(int, u32, int)> {
    match op {
        Op::BinaryOp(_) | Op::GetProperty | Op::GetElement => Some((2int, 2u32, 2int)),
        Op::UnaryOp(_) => Some((1int, 1u32, 1int)),
        Op::Call(n) => Some((n as int, (n + 1) as u32, n + 1)),
        _ => None,
    }
}

/// The code with the expression ending at `i` (operands from `i - w`)
/// replaced by a jump of `off`, pops, and a copy of the top of the stack.
pub open spec fn cse_rewrite(code: Seq<Op>, i: int, w: int, off: u32) -> Seq<Op> {
    Seq::new(code.len(), |k: int| cse_rewritten(code, i, w, off, k))
}

/// The instruction at `k` after the rewrite of `cse_rewrite`.
pub open spec fn cse_rewritten(code: Seq<Op>, i: int, w: int, off: u32, k: int) -> Op {
    if k == i {
        Op::Dup
    } else if k == i - w {
        Op::Jump(off)
    } else if i - w < k < i {
        Op::Pop
    } else {
        code[k]
    }
}

/// Common subexpression elimination from position `i` on, with the
/// expressions `seen` met before: an expression whose instructions (the
/// operands and the operation) equal those of one met before is
/// rewritten by `cse_rewrite`; one not met before is remembered.
pub open spec fn cse_from(code: Seq<Op>, seen: Seq<Seq<Op>>, i: int) -> Seq<Op>
    decreases code.len() - i,
{
    if i < 0 || i >= code.len() {
        code
    } else {
        match cse_shape(code[i]) {
            Some((w, off, min)) if i >= min => {
                let win = code.subrange(i - w, i + 1);
                if seen.contains(win) {
                    let next = cse_rewrite(code, i, w, off);
                    proof { assert(next.len() == code.len()); }
                    cse_from(next, seen, i + 1)
                } else {
                    cse_from(code, seen.push(win), i + 1)
                }
            },
            _ => cse_from(code, seen, i + 1),
        }
    }
}

/// The remembered expressions as values.
pub open spec fn seen_view(seen: Seq<Vec<Instruction>>) -> Seq<Seq<Op>> {
    seen.map_values(|v: Vec<Instruction>| ops_of(v@))
}

/// A copy of the instructions `code[lo..hi]`.
fn copy_range(code: &Vec<Instruction>, lo: usize, hi: usize) -> (r: Vec<Instruction>)
    requires
        lo <= hi <= code@.len(),
    ensures
        ops_of(r@) == ops_of(code@).subrange(lo as int, hi as int),
{
    let mut r: Vec<Instruction> = Vec::new();
    let mut k: usize = lo;
    proof {
        lemma_ops_len(code@);
        assert(ops_of(r@) =~= ops_of(code@).subrange(lo as int, lo as int));
    }
    while k < hi
        invariant
            lo <= k <= hi <= code@.len(),
            ops_of(code@).len() == code@.len(),
            ops_of(r@) == ops_of(code@).subrange(lo as int, k as int),
        decreases hi - k,
    {
        let x = copy_instruction(&code[k]);
        let ghost prev = r@;
        r.push(x);
        proof {
            lemma_ops_push(prev, x);
            lemma_ops_index(code@, k as int);
            assert(ops_of(r@) =~= ops_of(code@).subrange(lo as int, k + 1));
        }
        k = k + 1;
    }
    r
}

/// Whether `seen` holds the instructions `win`.
fn seen_holds(seen: &Vec<Vec<Instruction>>, win: &Vec<Instruction>) -> (b: bool)
    ensures
        b == seen_view(seen@).contains(ops_of(win@)),
{
    let mut k: usize = 0;
    while k < seen.len()
        invariant
            k <= seen@.len(),
            forall|j: int| 0 <= j < k ==> seen_view(seen@)[j] != ops_of(win@),
        decreases seen@.len() - k,
    {
        if same_instructions(&seen[k], win) {
            assert(seen_view(seen@)[k as int] == ops_of(win@));
            return true;
        }
        k = k + 1;
    }
    false
}

impl JITOptimizer {
    /// Common subexpression elimination, as `cse_from` from the start with
    /// nothing met: a binary operation, property or element read, unary
    /// operation or call whose instructions repeat an earlier one's is
    /// replaced by a jump over pops and a copy of the top of the stack.
    pub fn common_subexpression_elimination(&self, instructions: &mut Vec<Instruction>)
        requires
            old(instructions)@.len() <= u32::MAX,
        ensures
            ops_of(final(instructions)@) == cse_from(ops_of(old(instructions)@), Seq::empty(), 0),
    {
        let mut seen: Vec<Vec<Instruction>> = Vec::new();
        let mut i: usize = 0;
        assert(seen_view(seen@) =~= Seq::<Seq<Op>>::empty());
        while i < instructions.len()
            invariant
                i <= instructions@.len() <= u32::MAX,
                instructions@.len() == old(instructions)@.len(),
                cse_from(ops_of(instructions@), seen_view(seen@), i as int)
                    == cse_from(ops_of(old(instructions)@), Seq::empty(), 0),
            decreases instructions@.len() - i,
        {
            let ghost pre = ops_of(instructions@);
            let ghost sv = seen_view(seen@);
            proof {
                lemma_ops_len(instructions@);
                lemma_ops_index(instructions@, i as int);
            }
            let shape: Option<(usize, usize)> = match &instructions[i] {
                Instruction::BinaryOp(_) | Instruction::GetProperty | Instruction::GetElement => Some((2, 2)),
                Instruction::UnaryOp(_) => Some((1, 1)),
                Instruction::Call(n) => {
                    let n = *n as usize;
                    if n < i { Some((n, n + 1)) } else { None }
                },
                _ => None,
            };
            match shape {
                Some((w, min)) if i >= min => {
                    let off: u32 = if min == w { w as u32 } else { (w + 1) as u32 };
                    assert(cse_shape(pre[i as int]) == Some((w as int, off, min as int)));
                    let win = copy_range(instructions, i - w, i + 1);
                    if seen_holds(&seen, &win) {
                        let lo = i - w;
                        let mut k: usize = lo;
                        while k <= i
                            invariant
                                lo == i - w,
                                lo <= k <= i + 1,
                                i < instructions@.len() <= u32::MAX,
                                pre.len() == instructions@.len(),
                                ops_of(instructions@) == Seq::new(pre.len(), |t: int|
                                    if lo <= t < k { cse_rewritten(pre, i as int, w as int, off, t) } else { pre[t] }),
                            decreases i + 1 - k,
                        {
                            let x = if k == i {
                                Instruction::Dup
                            } else if k == lo {
                                Instruction::Jump(off)
                            } else {
                                Instruction::Pop
                            };
                            let ghost before = instructions@;
                            instructions.set(k, x);
                            proof {
                                lemma_ops_update(before, k as int, x);
                                assert(ops_of(instructions@) =~= Seq::new(pre.len(), |t: int|
                                    if lo <= t < k + 1 { cse_rewritten(pre, i as int, w as int, off, t) } else { pre[t] }));
                            }
                            k = k + 1;
                        }
                        assert(ops_of(instructions@) =~= cse_rewrite(pre, i as int, w as int, off));
                    } else {
                        seen.push(win);
                        assert(seen_view(seen@) =~= sv.push(pre.subrange(i - w, i + 1)));
                    }
                },
                _ => {},
            }
            i = i + 1;
        }
        proof {
            lemma_ops_len(instructions@);
        }
    }
}


/// Whether `code[lo..hi]` stores into local slot `idx`.
pub open spec fn local_stored(code: Seq<Op>, idx: usize, lo: int, hi: int) -> bool {
    exists|k: int| lo <= k < hi && #[trigger] code[k] == Op::StoreLocal(idx)
}

/// Whether the instruction at `pos` computes the same value on every run
/// of the loop `code[lo..hi]`: a variable read, a constant, a read of a
/// local slot the loop does not store into, or a unary or binary
/// operation whose operands (the instructions just before) are such.
pub open spec fn invariant_at(code: Seq<Op>, pos: int, lo: int, hi: int) -> bool
    decreases pos,
{
    if pos < 0 || pos >= code.len() {
        false
    } else {
        match code[pos] {
            Op::LoadVariable(_) => true,
            Op::LoadLocal(idx) => !local_stored(code, idx, lo, hi),
            Op::PushUndefined | Op::PushNull | Op::PushBoolean(_) | Op::PushNumber(_) | Op::PushString(_) => true,
            Op::BinaryOp(_) => pos >= 2 && invariant_at(code, pos - 1, lo, hi) && invariant_at(code, pos - 2, lo, hi),
            Op::UnaryOp(_) => pos >= 1 && invariant_at(code, pos - 1, lo, hi),
            _ => false,
        }
    }
}

/// The instructions of `code[lo..j]` that are loop-invariant for the loop
/// `code[lo..hi]` (when `want`), or those that are not, in order.
pub open spec fn picked(code: Seq<Op>, lo: int, hi: int, j: int, want: bool) -> Seq<Op>
    decreases j - lo,
{
    if j <= lo {
        Seq::empty()
    } else if invariant_at(code, j - 1, lo, hi) == want {
        picked(code, lo, hi, j - 1, want).push(code[j - 1])
    } else {
        picked(code, lo, hi, j - 1, want)
    }
}

/// Appends to `r` the instructions of `code[lo..hi]` whose flag is `want`,
/// in order; `flags` says which are loop-invariant.
fn append_picked(code: &Vec<Instruction>, flags: &Vec<bool>, lo: usize, hi: usize, want: bool, r: &mut Vec<Instruction>)
    requires
        lo <= hi <= code@.len(),
        flags@.len() == hi - lo,
        forall|k: int| 0 <= k < flags@.len() ==> flags@[k] == invariant_at(ops_of(code@), lo + k, lo as int, hi as int),
    ensures
        ops_of(final(r)@) == ops_of(old(r)@) + picked(ops_of(code@), lo as int, hi as int, hi as int, want),
{
    let ghost c = ops_of(code@);
    let ghost base = ops_of(r@);
    proof {
        lemma_ops_len(code@);
    }
    let mut j: usize = lo;
    assert(base =~= base + picked(c, lo as int, hi as int, lo as int, want));
    while j < hi
        invariant
            lo <= j <= hi <= code@.len(),
            c == ops_of(code@),
            c.len() == code@.len(),
            flags@.len() == hi - lo,
            forall|k: int| 0 <= k < flags@.len() ==> flags@[k] == invariant_at(c, lo + k, lo as int, hi as int),
            ops_of(r@) == base + picked(c, lo as int, hi as int, j as int, want),
        decreases hi - j,
    {
        if flags[j - lo] == want {
            let x = copy_instruction(&code[j]);
            let ghost prev = r@;
            r.push(x);
            proof {
                lemma_ops_push(prev, x);
                lemma_ops_index(code@, j as int);
                assert(ops_of(r@) =~= base + picked(c, lo as int, hi as int, j + 1, want));
            }
        } else {
            assert(picked(c, lo as int, hi as int, j + 1, want) == picked(c, lo as int, hi as int, j as int, want));
        }
        j = j + 1;
    }
}

/// The code with the loop body `code[lo..hi]` reordered: its
/// loop-invariant instructions first, then the others, each in order.
pub open spec fn hoisted(code: Seq<Op>, lo: int, hi: int) -> Seq<Op> {
    code.subrange(0, lo) + picked(code, lo, hi, hi, true) + picked(code, lo, hi, hi, false)
        + code.subrange(hi, code.len() as int)
}

/// Where the jump at `i` with offset `off` (read as a signed number) goes.
pub open spec fn jump_target(i: int, off: u32) -> int {
    i + 1 + (off as i32) as int
}

/// The invariant and the other instructions of a stretch add up to it.
pub proof fn lemma_picked_len(code: Seq<Op>, lo: int, hi: int, j: int)
    requires
        lo <= j,
    ensures
        picked(code, lo, hi, j, true).len() + picked(code, lo, hi, j, false).len() == j - lo,
    decreases j - lo,
{
    if j > lo {
        lemma_picked_len(code, lo, hi, j - 1);
    }
}

/// Loop-invariant code motion from position `i` on: at each backward
/// jump (a loop from its target to the jump), the loop body is
/// reordered by `hoisted`.
pub open spec fn licm_from(code: Seq<Op>, i: int) -> Seq<Op>
    decreases code.len() - i,
{
    if i < 0 || i >= code.len() {
        code
    } else {
        match code[i] {
            Op::Jump(off) => {
                let t = jump_target(i, off);
                if 0 <= t < i {
                    let next = hoisted(code, t, i);
                    proof {
                        lemma_picked_len(code, t, i, i);
                    }
                    licm_from(next, i + 1)
                } else {
                    licm_from(code, i + 1)
                }
            },
            _ => licm_from(code, i + 1),
        }
    }
}

/// Whether `code[lo..hi]` stores into local slot `idx`.
fn stores_local(code: &Vec<Instruction>, idx: usize, lo: usize, hi: usize) -> (b: bool)
    requires
        lo <= hi <= code@.len(),
    ensures
        b == local_stored(ops_of(code@), idx, lo as int, hi as int),
{
    let mut k: usize = lo;
    while k < hi
        invariant
            lo <= k <= hi <= code@.len(),
            forall|j: int| lo <= j < k ==> ops_of(code@)[j] != Op::StoreLocal(idx),
        decreases hi - k,
    {
        proof {
            lemma_ops_index(code@, k as int);
        }
        if let Instruction::StoreLocal(j) = &code[k] {
            if *j == idx {
                return true;
            }
        }
        k = k + 1;
    }
    false
}

/// Whether the instruction at `pos` is loop-invariant for `code[lo..hi]`.
fn is_invariant(code: &Vec<Instruction>, pos: usize, lo: usize, hi: usize) -> (b: bool)
    requires
        pos < code@.len(),
        lo <= hi <= code@.len(),
    ensures
        b == invariant_at(ops_of(code@), pos as int, lo as int, hi as int),
    decreases pos,
{
    proof {
        lemma_ops_len(code@);
        lemma_ops_index(code@, pos as int);
    }
    match &code[pos] {
        Instruction::LoadVariable(_) => true,
        Instruction::LoadLocal(idx) => !stores_local(code, *idx, lo, hi),
        Instruction::PushUndefined | Instruction::PushNull | Instruction::PushBoolean(_) | Instruction::PushNumber(_)
        | Instruction::PushString(_) => true,
        Instruction::BinaryOp(_) => pos >= 2 && is_invariant(code, pos - 1, lo, hi) && is_invariant(code, pos - 2, lo, hi),
        Instruction::UnaryOp(_) => pos >= 1 && is_invariant(code, pos - 1, lo, hi),
        _ => false,
    }
}

/// The code with the loop body `code[lo..hi]` reordered by `hoisted`.
fn hoist(code: &Vec<Instruction>, lo: usize, hi: usize) -> (r: Vec<Instruction>)
    requires
        lo <= hi <= code@.len(),
    ensures
        ops_of(r@) == hoisted(ops_of(code@), lo as int, hi as int),
{
    let ghost c = ops_of(code@);
    proof {
        lemma_ops_len(code@);
    }
    let mut flags: Vec<bool> = Vec::new();
    let mut j: usize = lo;
    while j < hi
        invariant
            lo <= j <= hi <= code@.len(),
            c == ops_of(code@),
            flags@.len() == j - lo,
            forall|k: int| 0 <= k < flags@.len() ==> flags@[k] == invariant_at(c, lo + k, lo as int, hi as int),
        decreases hi - j,
    {
        flags.push(is_invariant(code, j, lo, hi));
        j = j + 1;
    }
    let mut r = copy_range(code, 0, lo);
    append_picked(code, &flags, lo, hi, true, &mut r);
    append_picked(code, &flags, lo, hi, false, &mut r);
    let ghost mid = ops_of(r@);
    let tail = copy_range(code, hi, code.len());
    let mut k: usize = 0;
    proof {
        lemma_ops_len(tail@);
        assert(ops_of(r@) =~= mid + ops_of(tail@).subrange(0, 0));
    }
    while k < tail.len()
        invariant
            k <= tail@.len(),
            ops_of(tail@).len() == tail@.len(),
            ops_of(r@) == mid + ops_of(tail@).subrange(0, k as int),
        decreases tail@.len() - k,
    {
        let x = copy_instruction(&tail[k]);
        let ghost prev = r@;
        r.push(x);
        proof {
            lemma_ops_push(prev, x);
            lemma_ops_index(tail@, k as int);
            assert(ops_of(r@) =~= mid + ops_of(tail@).subrange(0, k + 1));
        }
        k = k + 1;
    }
    assert(ops_of(r@) =~= hoisted(c, lo as int, hi as int));
    r
}

impl JITOptimizer {
    /// Loop-invariant code motion, as `licm_from` from the start: in each
    /// loop (a backward jump and the code from its target), the
    /// instructions whose value the loop cannot change move to the front
    /// of the loop, in order, before the others.
    pub fn loop_invariant_code_motion(&self, instructions: &mut Vec<Instruction>)
        requires
            old(instructions)@.len() <= i32::MAX,
        ensures
            ops_of(final(instructions)@) == licm_from(ops_of(old(instructions)@), 0),
    {
        let mut i: usize = 0;
        proof {
            lemma_ops_len(instructions@);
        }
        while i < instructions.len()
            invariant
                i <= instructions@.len() <= i32::MAX,
                licm_from(ops_of(instructions@), i as int) == licm_from(ops_of(old(instructions)@), 0),
            decreases instructions@.len() - i,
        {
            let ghost pre = ops_of(instructions@);
            proof {
                lemma_ops_len(instructions@);
                lemma_ops_index(instructions@, i as int);
            }
            if let Instruction::Jump(off) = &instructions[i] {
                let off = *off;
                let t: i64 = i as i64 + 1 + (off as i32) as i64;
                if 0 <= t && t < i as i64 {
                    let lo = t as usize;
                    let next = hoist(instructions, lo, i);
                    proof {
                        lemma_picked_len(pre, lo as int, i as int, i as int);
                        lemma_ops_len(next@);
                    }
                    *instructions = next;
                }
            }
            i = i + 1;
        }
        proof {
            lemma_ops_len(instructions@);
        }
    }
}


/// How many instructions equal to `x` follow one another from `i` on.
pub open spec fn run_len(code: Seq<Op>, i: int, x: Op) -> int
    decreases code.len() - i,
{
    if 0 <= i < code.len() && code[i] == x { 1 + run_len(code, i + 1, x) } else { 0 }
}

/// Stack-operation optimization from `i` on: a run of pops becomes one
/// pop, a run of three or more copies of the top becomes one copy, and
/// every other instruction stays.
pub open spec fn stack_opt_from(code: Seq<Op>, i: int) -> Seq<Op>
    decreases code.len() - i,
{
    if i < 0 || i >= code.len() {
        Seq::empty()
    } else if code[i] == Op::Pop {
        let r = run_len(code, i, Op::Pop);
        proof { lemma_run_len_bounds(code, i, Op::Pop); }
        seq![Op::Pop] + stack_opt_from(code, i + r)
    } else if code[i] == Op::Dup && run_len(code, i, Op::Dup) > 2 {
        let r = run_len(code, i, Op::Dup);
        proof { lemma_run_len_bounds(code, i, Op::Dup); }
        seq![Op::Dup] + stack_opt_from(code, i + r)
    } else {
        seq![code[i]] + stack_opt_from(code, i + 1)
    }
}

/// A run is never longer than what is left of the code, and is at least
/// one long where it starts with its instruction.
pub proof fn lemma_run_len_bounds(code: Seq<Op>, i: int, x: Op)
    ensures
        0 <= run_len(code, i, x),
        0 <= i ==> run_len(code, i, x) <= if i <= code.len() { code.len() - i } else { 0 },
        0 <= i < code.len() && code[i] == x ==> run_len(code, i, x) >= 1,
    decreases code.len() - i,
{
    if 0 <= i < code.len() && code[i] == x {
        lemma_run_len_bounds(code, i + 1, x);
    }
}

/// Where the run of `x` starting at `i` ends.
fn run_end(code: &Vec<Instruction>, i: usize, pop: bool) -> (j: usize)
    requires
        i <= code@.len(),
    ensures
        j as int == i + run_len(ops_of(code@), i as int, if pop { Op::Pop } else { Op::Dup }),
        i <= j <= code@.len(),
{
    let ghost c = ops_of(code@);
    let ghost x = if pop { Op::Pop } else { Op::Dup };
    proof {
        lemma_ops_len(code@);
    }
    let mut j: usize = i;
    while j < code.len()
        invariant
            i <= j <= code@.len(),
            c == ops_of(code@),
            c.len() == code@.len(),
            x == (if pop { Op::Pop } else { Op::Dup }),
            run_len(c, i as int, x) == (j - i) + run_len(c, j as int, x),
        decreases code@.len() - j,
    {
        proof {
            lemma_ops_index(code@, j as int);
        }
        let same = match &code[j] {
            Instruction::Pop => pop,
            Instruction::Dup => !pop,
            _ => false,
        };
        assert(c[j as int] == op_of(code@[j as int]));
        assert(same == (c[j as int] == x));
        if !same {
            return j;
        }
        assert(run_len(c, j as int, x) == 1 + run_len(c, j + 1, x));
        j = j + 1;
    }
    j
}

impl JITOptimizer {
    /// Stack-operation optimization, as `stack_opt_from` from the start.
    pub fn optimize_stack_operations(&self, instructions: &mut Vec<Instruction>)
        ensures
            ops_of(final(instructions)@) == stack_opt_from(ops_of(old(instructions)@), 0),
    {
        let ghost c = ops_of(instructions@);
        proof {
            lemma_ops_len(instructions@);
        }
        let mut out: Vec<Instruction> = Vec::new();
        let mut i: usize = 0;
        let n = instructions.len();
        while i < n
            invariant
                i <= n == instructions@.len(),
                c == ops_of(instructions@),
                c.len() == n,
                ops_of(out@) + stack_opt_from(c, i as int) == stack_opt_from(c, 0),
            decreases n - i,
        {
            proof {
                lemma_ops_index(instructions@, i as int);
            }
            let ghost prev = out@;
            let next: usize;
            match &instructions[i] {
                Instruction::Pop => {
                    let j = run_end(instructions, i, true);
                    out.push(Instruction::Pop);
                    next = j;
                },
                Instruction::Dup => {
                    let j = run_end(instructions, i, false);
                    out.push(Instruction::Dup);
                    if j - i > 2 { next = j; } else { next = i + 1; }
                },
                _ => {
                    let x = copy_instruction(&instructions[i]);
                    out.push(x);
                    next = i + 1;
                },
            }
            proof {
                lemma_ops_push(prev, out@.last());
                assert(out@.drop_last() =~= prev);
                lemma_run_len_bounds(c, i as int, Op::Pop);
                lemma_run_len_bounds(c, i as int, Op::Dup);
                assert(ops_of(out@) + stack_opt_from(c, next as int) =~= ops_of(prev) + stack_opt_from(c, i as int));
            }
            i = next;
        }
        *instructions = out;
        proof {
            assert(ops_of(instructions@) =~= ops_of(instructions@) + stack_opt_from(c, n as int));
        }
    }

    /// Register allocation: the instructions are regrouped for parallel
    /// execution (which leaves their order as it is) and the stack
    /// operations are optimized; the assignment of variables to registers
    /// that it works out is not kept in the code.
    pub fn register_allocation(&self, instructions: &mut Vec<Instruction>)
        ensures
            ops_of(final(instructions)@) == stack_opt_from(ops_of(old(instructions)@), 0),
    {
        self.optimize_stack_operations(instructions);
    }
}


/// The truth of a pushed constant, as dead code elimination reads it: a
/// number is false exactly when it is +0 or -0; a boolean is itself; a
/// string is true exactly when it is not empty; `undefined` and `null` are
/// false; nothing else is a constant.
pub proof fn lemma_constant_truth(c: Instruction)
    ensures
        c matches Instruction::PushNumber(n) ==> constant_truth(c) == Some(n != 0 && n != 0x8000_0000_0000_0000u64),
        c matches Instruction::PushBoolean(b) ==> constant_truth(c) == Some(b),
        c matches Instruction::PushString(t) ==> constant_truth(c) == Some(t@.len() > 0),
        (c is PushUndefined || c is PushNull) ==> constant_truth(c) == Some(false),
        !(c is PushNumber || c is PushBoolean || c is PushString || c is PushUndefined || c is PushNull)
            ==> constant_truth(c) is None,
{
    if let Instruction::PushNumber(n) = c {
        assert((n & 0x7fff_ffff_ffff_ffffu64 != 0) <==> (n != 0 && n != 0x8000_0000_0000_0000u64)) by (bit_vector);
    }
}

/// A conditional jump right after a constant: when the constant is false
/// (such as the number zero), the constant, the jump and the code it skips
/// all go; when it is true, only the jump goes. Everything else stays in
/// order.
pub proof fn lemma_dce_constant_branch(code: Seq<Instruction>, i: int, off: u32)
    requires
        0 < i < code.len(),
        code[i] == Instruction::JumpIfFalse(off),
        0 < off,
        i + 1 + off <= code.len(),
    ensures
        (code[i - 1] == Instruction::PushNumber(0) || code[i - 1] == Instruction::PushNumber(0x8000_0000_0000_0000u64)
            || code[i - 1] == Instruction::PushBoolean(false) || code[i - 1] is PushUndefined || code[i - 1] is PushNull)
            ==> dce_step(code, i).0 == code.subrange(0, i - 1) + code.subrange(i + 1 + off, code.len() as int),
        (code[i - 1] == Instruction::PushBoolean(true)
            || (code[i - 1] matches Instruction::PushNumber(n) && n != 0 && n != 0x8000_0000_0000_0000u64))
            ==> dce_step(code, i).0 == code.subrange(0, i) + code.subrange(i + 1, code.len() as int),
{
    lemma_constant_truth(code[i - 1]);
    let c = cut(code, i + 1, i + 1 + off);
    assert(c.remove(i).remove(i - 1) =~= code.subrange(0, i - 1) + code.subrange(i + 1 + off, code.len() as int));
    assert(code.remove(i) =~= code.subrange(0, i) + code.subrange(i + 1, code.len() as int));
}

/// Folding two boolean constants: `&&` gives their conjunction, `||` their
/// disjunction, `==` whether they are equal and `!=` whether they differ;
/// no other operator folds.
pub proof fn lemma_boolean_folds(a: bool, b: bool, op: BinaryOp)
    ensures
        op == BinaryOp::And ==> fold_booleans(a, b, op) == Some(a && b),
        op == BinaryOp::Or ==> fold_booleans(a, b, op) == Some(a || b),
        op == BinaryOp::Eq ==> fold_booleans(a, b, op) == Some(a == b),
        op == BinaryOp::Neq ==> fold_booleans(a, b, op) == Some(a != b),
        !(op == BinaryOp::And || op == BinaryOp::Or || op == BinaryOp::Eq || op == BinaryOp::Neq)
            ==> fold_booleans(a, b, op) is None,
{
}

/// Two boolean constants followed by `&&` fold, wherever they stand, into
/// the one constant `a && b` (and `||` into `a || b`), the rest of the code
/// unchanged.
pub proof fn lemma_boolean_fold_step<F: Fn(u64, u64, BinaryOp) -> u64, G: Fn(u64) -> u64>(
    code: Seq<Op>,
    i: int,
    a: bool,
    b: bool,
    op: BinaryOp,
    f: F,
    g: G,
)
    requires
        0 <= i,
        i + 2 < code.len(),
        code[i] == Op::PushBoolean(a),
        code[i + 1] == Op::PushBoolean(b),
        code[i + 2] == Op::BinaryOp(op),
        op == BinaryOp::And || op == BinaryOp::Or,
    ensures
        fold_step(code, i, f, g).0 == code.subrange(0, i)
            + seq![Op::PushBoolean(if op == BinaryOp::And { a && b } else { a || b })]
            + code.subrange(i + 3, code.len() as int),
        !fold_step(code, i, f, g).2,
{
    let r = if op == BinaryOp::And { a && b } else { a || b };
    assert(code.update(i, Op::PushBoolean(r)).remove(i + 1).remove(i + 1) =~= code.subrange(0, i)
        + seq![Op::PushBoolean(r)] + code.subrange(i + 3, code.len() as int));
}

/// The whole of `a && b` (or `a || b`) on constants folds to its value.
pub proof fn lemma_boolean_fold_whole<F: Fn(u64, u64, BinaryOp) -> u64, G: Fn(u64) -> u64>(
    a: bool,
    b: bool,
    op: BinaryOp,
    f: F,
    g: G,
)
    requires
        op == BinaryOp::And || op == BinaryOp::Or,
    ensures
        jit_folded(seq![Op::PushBoolean(a), Op::PushBoolean(b), Op::BinaryOp(op)], 0, f, g)
            == seq![Op::PushBoolean(if op == BinaryOp::And { a && b } else { a || b })],
{
    let code = seq![Op::PushBoolean(a), Op::PushBoolean(b), Op::BinaryOp(op)];
    let r = if op == BinaryOp::And { a && b } else { a || b };
    lemma_boolean_fold_step(code, 0, a, b, op, f, g);
    let c1 = fold_step(code, 0, f, g).0;
    assert(c1 =~= seq![Op::PushBoolean(r)]);
    assert(fold_step(code, 0, f, g).1 == 0);
    assert(jit_folded(code, 0, f, g) == jit_folded(c1, 0, f, g));
    assert(fold_step(c1, 0, f, g) == (c1, 1int, false));
    assert(jit_folded(c1, 0, f, g) == jit_folded(c1, 1, f, g));
}

/// Which instructions of a loop `code[lo..hi]` are loop-invariant: variable
/// reads and constants are; a read of local slot `idx` is exactly when no
/// instruction of the loop stores into that slot; a binary operation is
/// exactly when both its operands (the two instructions before it) are; a
/// unary operation exactly when its operand is; nothing else is.
pub proof fn lemma_invariance_rules(code: Seq<Op>, pos: int, lo: int, hi: int)
    requires
        0 <= pos < code.len(),
    ensures
        code[pos] is LoadVariable ==> invariant_at(code, pos, lo, hi),
        (code[pos] is PushUndefined || code[pos] is PushNull || code[pos] is PushBoolean || code[pos] is PushNumber
            || code[pos] is PushString) ==> invariant_at(code, pos, lo, hi),
        code[pos] matches Op::LoadLocal(idx) ==> (invariant_at(code, pos, lo, hi)
            <==> !(exists|k: int| lo <= k < hi && code[k] == Op::StoreLocal(idx))),
        code[pos] is BinaryOp ==> (invariant_at(code, pos, lo, hi)
            <==> (pos >= 2 && invariant_at(code, pos - 1, lo, hi) && invariant_at(code, pos - 2, lo, hi))),
        code[pos] is UnaryOp ==> (invariant_at(code, pos, lo, hi)
            <==> (pos >= 1 && invariant_at(code, pos - 1, lo, hi))),
        !(code[pos] is LoadVariable || code[pos] is PushUndefined || code[pos] is PushNull || code[pos] is PushBoolean
            || code[pos] is PushNumber || code[pos] is PushString || code[pos] is LoadLocal || code[pos] is BinaryOp
            || code[pos] is UnaryOp) ==> !invariant_at(code, pos, lo, hi),
{
}

/// An operation that uses the value of a local slot the loop stores into
/// is never loop-invariant, so it is never moved ahead of that read: a
/// binary operation whose first or second operand reads such a slot, or a
/// unary operation whose operand does.
pub proof fn lemma_stored_local_operand_stays(code: Seq<Op>, pos: int, lo: int, hi: int, idx: usize, k: int)
    requires
        0 <= pos < code.len(),
        lo <= k < hi,
        k < code.len(),
        code[k] == Op::StoreLocal(idx),
        (code[pos] is BinaryOp && pos >= 2 && (code[pos - 1] == Op::LoadLocal(idx) || code[pos - 2] == Op::LoadLocal(idx)))
            || (code[pos] is UnaryOp && pos >= 1 && code[pos - 1] == Op::LoadLocal(idx)),
    ensures
        !invariant_at(code, pos, lo, hi),
{
    if pos >= 1 && code[pos - 1] == Op::LoadLocal(idx) {
        assert(local_stored(code, idx, lo, hi));
        assert(!invariant_at(code, pos - 1, lo, hi));
    }
    if pos >= 2 && code[pos - 2] == Op::LoadLocal(idx) {
        assert(local_stored(code, idx, lo, hi));
        assert(!invariant_at(code, pos - 2, lo, hi));
    }
}

} // verus!
