//! Constant folding over generated instructions.
//!
//! The value of a folded operation is floating-point arithmetic on the
//! language's values, which the caller computes: for each position, the
//! instruction that the two constants and the operator there fold into, if
//! they fold. This module finds the foldable windows and rebuilds the code.

use vstd::prelude::*;
use super::generator::{Instruction, Op, op_of, opt_name, ops_of, lemma_ops_len, lemma_ops_index, lemma_ops_push};

verus! {

/// Whether `op` pushes a constant.
pub open spec fn is_constant(op: Op) -> bool {
    op is PushUndefined || op is PushNull || op is PushBoolean || op is PushNumber || op is PushString
}

/// Whether the code at `i` is two constants and a binary operator.
pub open spec fn foldable_at(ops: Seq<Op>, i: int) -> bool {
    0 <= i && i + 3 <= ops.len() && is_constant(ops[i]) && is_constant(ops[i + 1]) && ops[i + 2] is BinaryOp
}

/// The folds as values.
pub open spec fn folds_view(folds: Seq<Option<Instruction>>) -> Seq<Option<Op>> {
    folds.map_values(|f: Option<Instruction>| match f {
        Some(x) => Some(op_of(x)),
        None => None,
    })
}

/// The optimised code from position `i`: a foldable window whose fold is
/// given becomes that one instruction; every other instruction is kept.
pub open spec fn optimized(ops: Seq<Op>, folds: Seq<Option<Op>>, i: int) -> Seq<Op>
    decreases ops.len() - i,
{
    if i < 0 || i >= ops.len() {
        Seq::empty()
    } else if foldable_at(ops, i) && i < folds.len() && folds[i] is Some {
        seq![folds[i]->0] + optimized(ops, folds, i + 3)
    } else {
        seq![ops[i]] + optimized(ops, folds, i + 1)
    }
}

/// A copy of the instructions `v`.
fn copy_instructions(v: &Vec<Instruction>) -> (r: Vec<Instruction>)
    ensures
        ops_of(r@) == ops_of(v@),
    decreases v, 1nat,
{
    let mut out: Vec<Instruction> = Vec::new();
    let mut i: usize = 0;
    proof {
        lemma_ops_len(v@);
        assert(v@.take(0) =~= Seq::<Instruction>::empty());
        assert(ops_of(out@) =~= ops_of(v@.take(0)));
    }
    while i < v.len()
        invariant
            i <= v@.len(),
            ops_of(out@) == ops_of(v@.take(i as int)),
        decreases v@.len() - i,
    {
        proof {
            assert(decreases_to!(*v => v@));
            assert(decreases_to!(v@ => v@[i as int]));
        }
        let x = copy_instruction(&v[i]);
        let ghost prev = out@;
        out.push(x);
        proof {
            lemma_ops_push(prev, x);
            lemma_ops_push(v@.take(i as int), v@[i as int]);
            assert(v@.take(i + 1) =~= v@.take(i as int).push(v@[i as int]));
        }
        i = i + 1;
    }
    assert(v@.take(v@.len() as int) =~= v@);
    out
}

/// A copy of the instruction `x`.
pub fn copy_instruction(x: &Instruction) -> (r: Instruction)
    ensures
        op_of(r) == op_of(*x),
    decreases x, 0nat,
{
    match x {
        Instruction::PushUndefined => Instruction::PushUndefined,
        Instruction::PushNull => Instruction::PushNull,
        Instruction::PushBoolean(b) => Instruction::PushBoolean(*b),
        Instruction::PushNumber(n) => Instruction::PushNumber(*n),
        Instruction::PushString(s) => Instruction::PushString(s.clone()),
        Instruction::LoadVariable(s) => Instruction::LoadVariable(s.clone()),
        Instruction::StoreVariable(s) => Instruction::StoreVariable(s.clone()),
        Instruction::CreateObject => Instruction::CreateObject,
        Instruction::GetProperty => Instruction::GetProperty,
        Instruction::SetProperty => Instruction::SetProperty,
        Instruction::CreateArray => Instruction::CreateArray,
        Instruction::GetElement => Instruction::GetElement,
        Instruction::SetElement => Instruction::SetElement,
        Instruction::Call(n) => Instruction::Call(*n),
        Instruction::BinaryOp(o) => Instruction::BinaryOp(*o),
        Instruction::UnaryOp(o) => Instruction::UnaryOp(*o),
        Instruction::Jump(n) => Instruction::Jump(*n),
        Instruction::JumpIfFalse(n) => Instruction::JumpIfFalse(*n),
        Instruction::Pop => Instruction::Pop,
        Instruction::CreateFunction(s, n) => Instruction::CreateFunction(s.clone(), *n),
        Instruction::SetFunctionBody(v) => {
            proof {
                assert(decreases_to!(*x => (*x)->SetFunctionBody_0));
            }
            Instruction::SetFunctionBody(copy_instructions(v))
        },
        Instruction::Return => Instruction::Return,
        Instruction::CreateClass(s) => Instruction::CreateClass(s.clone()),
        Instruction::AddMethod(s) => Instruction::AddMethod(s.clone()),
        Instruction::SetClassBody(v) => {
            proof {
                assert(decreases_to!(*x => (*x)->SetClassBody_0));
            }
            Instruction::SetClassBody(copy_instructions(v))
        },
        Instruction::CreateTypeAlias(s) => Instruction::CreateTypeAlias(s.clone()),
        Instruction::CreateInterface(s) => Instruction::CreateInterface(s.clone()),
        Instruction::JumpLoop(n) => Instruction::JumpLoop(*n),
        Instruction::LoadLocal(k) => Instruction::LoadLocal(*k),
        Instruction::StoreLocal(k) => Instruction::StoreLocal(*k),
        Instruction::Dup => Instruction::Dup,
        Instruction::Swap => Instruction::Swap,
        Instruction::Throw => Instruction::Throw,
        Instruction::TryStart { handler_ip, finally_ip, exception_var } => Instruction::TryStart {
            handler_ip: *handler_ip,
            finally_ip: *finally_ip,
            exception_var: copy_name(exception_var),
        },
        Instruction::TryEnd => Instruction::TryEnd,
        Instruction::ImportModule { name, alias } => Instruction::ImportModule { name: name.clone(), alias: copy_name(alias) },
        Instruction::Export { name } => Instruction::Export { name: name.clone() },
    }
}

/// A copy of an optional name.
fn copy_name(s: &Option<String>) -> (r: Option<String>)
    ensures
        opt_name(r) == opt_name(*s),
{
    match s {
        Some(x) => Some(x.clone()),
        None => None,
    }
}

/// Whether `x` pushes a constant.
fn pushes_constant(x: &Instruction) -> (b: bool)
    ensures
        b == is_constant(op_of(*x)),
{
    match x {
        Instruction::PushUndefined | Instruction::PushNull | Instruction::PushBoolean(_)
        | Instruction::PushNumber(_) | Instruction::PushString(_) => true,
        _ => false,
    }
}

/// Whether the code at `i` is two constants and a binary operator.
fn is_foldable(instructions: &Vec<Instruction>, i: usize) -> (b: bool)
    requires
        i < instructions@.len(),
    ensures
        b == foldable_at(ops_of(instructions@), i as int),
{
    proof {
        lemma_ops_len(instructions@);
    }
    if instructions.len() - i < 3 {
        return false;
    }
    proof {
        lemma_ops_index(instructions@, i as int);
        lemma_ops_index(instructions@, i + 1);
        lemma_ops_index(instructions@, i + 2);
    }
    pushes_constant(&instructions[i]) && pushes_constant(&instructions[i + 1])
        && match &instructions[i + 2] {
        Instruction::BinaryOp(_) => true,
        _ => false,
    }
}

/// Folds constants in `instructions`: where two constants and a binary
/// operator stand at a position whose fold `folds` gives, the three become
/// that instruction; every other instruction is kept, in order.
pub fn optimize_instructions(instructions: &Vec<Instruction>, folds: &Vec<Option<Instruction>>) -> (r: Vec<Instruction>)
    requires
        folds@.len() == instructions@.len(),
    ensures
        ops_of(r@) == optimized(ops_of(instructions@), folds_view(folds@), 0),
{
    let ghost ops = ops_of(instructions@);
    let ghost fv = folds_view(folds@);
    proof {
        lemma_ops_len(instructions@);
    }
    let mut out: Vec<Instruction> = Vec::new();
    let mut i: usize = 0;
    proof {
        lemma_ops_len(out@);
        assert(ops_of(out@) =~= Seq::<Op>::empty());
        assert(ops_of(out@) + optimized(ops, fv, 0) =~= optimized(ops, fv, 0));
    }
    while i < instructions.len()
        invariant
            i <= instructions@.len(),
            folds@.len() == instructions@.len(),
            ops == ops_of(instructions@),
            ops.len() == instructions@.len(),
            fv == folds_view(folds@),
            ops_of(out@) + optimized(ops, fv, i as int) == optimized(ops, fv, 0),
        decreases instructions@.len() - i,
    {
        let ghost prev = out@;
        let foldable = is_foldable(instructions, i);
        let folded = if foldable {
            match &folds[i] {
                Some(f) => Some(copy_instruction(f)),
                None => None,
            }
        } else {
            None
        };
        match folded {
            Some(f) => {
                out.push(f);
                proof {
                    lemma_ops_push(prev, f);
                    assert(ops_of(out@) + optimized(ops, fv, i + 3) =~= ops_of(prev) + optimized(ops, fv, i as int));
                }
                i = i + 3;
            },
            None => {
                let x = copy_instruction(&instructions[i]);
                out.push(x);
                proof {
                    lemma_ops_index(instructions@, i as int);
                    lemma_ops_push(prev, x);
                    assert(ops_of(out@) + optimized(ops, fv, i + 1) =~= ops_of(prev) + optimized(ops, fv, i as int));
                }
                i = i + 1;
            },
        }
    }
    proof {
        assert(ops_of(out@) + Seq::<Op>::empty() =~= ops_of(out@));
    }
    out
}

} // verus!
