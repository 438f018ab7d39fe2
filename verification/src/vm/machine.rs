//! The interpreter: the machine's state, the effect of each instruction,
//! and the loop that runs a sequence of instructions.
//!
//! The machine does no arithmetic: binary and unary operators leave the
//! stack as it is. Numbers are kept as the bit pattern of their 64-bit
//! floating-point value.

use vstd::prelude::*;
use vstd::string::*;
use crate::codegen::generator::{Instruction, Op, op_of, ops_of, index_bits, index_float_bits, MAX_EXACT_INDEX,
    lemma_ops_len, lemma_ops_index};
use crate::compiler::push_char;
use crate::error::TsError;
use crate::ffi::value::{Value, VValue, vview, props_view, items_view, key_index, props_set, decimal, copy_value,
    lemma_items_view, lemma_props_view, push_decimal, find_key, lemma_key_index_facts, lemma_key_index};
use crate::vm::exception::ExceptionHandler;
use crate::vm::perf::PerformanceMonitor;

verus! {

/// A call frame: its locals by name, and the slots that `LoadLocal` and
/// `StoreLocal` address.
pub struct CallFrame {
    /// The function's name.
    pub function_name: String,
    /// Where execution resumes after the function returns.
    pub return_ip: usize,
    /// The locals by name.
    pub locals: Vec<(String, Value)>,
    /// The slot of each named local.
    pub local_indices: Vec<(String, usize)>,
    /// The values of the slots.
    pub local_values: Vec<Value>,
    /// The stack height when the frame was entered.
    pub stack_base: usize,
}

/// A call frame as a value.
pub struct FrameView {
    /// Where execution resumes after the function returns.
    pub return_ip: usize,
    /// The locals by name.
    pub locals: Seq<(Seq<char>, VValue)>,
    /// The slot of each named local.
    pub indices: Seq<(Seq<char>, usize)>,
    /// The values of the slots.
    pub values: Seq<VValue>,
}

/// The state of the machine.
pub struct VmState {
    /// The operand stack.
    pub stack: Vec<Value>,
    /// The global variables.
    pub globals: Vec<(String, Value)>,
    /// The call frames, innermost last.
    pub call_stack: Vec<CallFrame>,
    /// The functions created, by name, with their parameter counts.
    pub functions: Vec<(String, u32)>,
    /// The active exception handlers, innermost last.
    pub exception_handlers: Vec<ExceptionHandler>,
    /// The performance counters.
    pub perf: PerformanceMonitor,
    /// The instruction pointer.
    pub ip: usize,
}

/// The state of the machine as a value (the counters' start time left out).
pub struct VmView {
    /// The operand stack.
    pub stack: Seq<VValue>,
    /// The global variables.
    pub globals: Seq<(Seq<char>, VValue)>,
    /// The call frames.
    pub frames: Seq<FrameView>,
    /// The functions created.
    pub functions: Seq<(Seq<char>, u32)>,
    /// The active exception handlers.
    pub handlers: Seq<ExceptionHandler>,
    /// The counters, without their start time.
    pub perf: PerformanceMonitor,
    /// The instruction pointer.
    pub ip: usize,
}

/// An error as a value.
pub enum VErr {
    /// A syntax error.
    Syntax(Seq<char>),
    /// A type error.
    Type(Seq<char>),
    /// A reference error.
    Reference(Seq<char>),
    /// A range error.
    Range(Seq<char>),
    /// Any other error.
    Other(Seq<char>),
}

/// The error `e` as a value.
pub open spec fn err_view(e: TsError) -> VErr {
    match e {
        TsError::SyntaxError(m) => VErr::Syntax(m@),
        TsError::TypeError(m) => VErr::Type(m@),
        TsError::ReferenceError(m) => VErr::Reference(m@),
        TsError::RangeError(m) => VErr::Range(m@),
        TsError::Other(m) => VErr::Other(m@),
    }
}

/// The slots of named locals as values.
pub open spec fn indices_view(v: Seq<(String, usize)>) -> Seq<(Seq<char>, usize)> {
    v.map_values(|p: (String, usize)| (p.0@, p.1))
}

/// The frame `f` as a value.
pub open spec fn frame_view(f: CallFrame) -> FrameView {
    FrameView {
        return_ip: f.return_ip,
        locals: props_view(f.locals@),
        indices: indices_view(f.local_indices@),
        values: items_view(f.local_values@),
    }
}

/// The counters without their start time.
pub open spec fn perf_view(p: PerformanceMonitor) -> PerformanceMonitor {
    PerformanceMonitor { start_time: None, ..p }
}

impl View for VmState {
    type V = VmView;

    open spec fn view(&self) -> VmView {
        VmView {
            stack: items_view(self.stack@),
            globals: props_view(self.globals@),
            frames: self.call_stack@.map_values(|f: CallFrame| frame_view(f)),
            functions: self.functions@.map_values(|p: (String, u32)| (p.0@, p.1)),
            handlers: self.exception_handlers@,
            perf: perf_view(self.perf),
            ip: self.ip,
        }
    }
}

/// The position of the first entry named `key`; the number of entries
/// where there is none.
pub open spec fn slot_index(s: Seq<(Seq<char>, usize)>, key: Seq<char>) -> int
    decreases s.len(),
{
    if s.len() == 0 {
        0
    } else if s[0].0 == key {
        0
    } else {
        1 + slot_index(s.drop_first(), key)
    }
}

/// The position of the first function named `key`; the number of
/// functions where there is none.
pub open spec fn function_index(s: Seq<(Seq<char>, u32)>, key: Seq<char>) -> int
    decreases s.len(),
{
    if s.len() == 0 {
        0
    } else if s[0].0 == key {
        0
    } else {
        1 + function_index(s.drop_first(), key)
    }
}

/// Whether every named local's slot exists.
pub open spec fn frame_wf(f: FrameView) -> bool {
    forall|i: int| 0 <= i < f.indices.len() ==> #[trigger] f.indices[i].1 < f.values.len()
}

/// Whether every frame of `s` is well formed.
pub open spec fn frames_wf(s: VmView) -> bool {
    forall|i: int| 0 <= i < s.frames.len() ==> #[trigger] frame_wf(s.frames[i])
}

/// The frame after setting the local `name` to `v`: the named local takes
/// the value, and so does its slot, which is added if it had none.
pub open spec fn frame_set_local(f: FrameView, name: Seq<char>, v: VValue) -> FrameView {
    let k = slot_index(f.indices, name);
    if k < f.indices.len() {
        FrameView { locals: props_set(f.locals, name, v), values: f.values.update(f.indices[k].1 as int, v), ..f }
    } else {
        FrameView {
            locals: props_set(f.locals, name, v),
            indices: f.indices.push((name, f.values.len() as usize)),
            values: f.values.push(v),
            ..f
        }
    }
}

/// Whether the number with bits `b` is NaN.
pub open spec fn is_nan(b: u64) -> bool {
    (b >> 52) & 0x7ff == 0x7ff && b & 0xf_ffff_ffff_ffff != 0
}

/// Whether `v` counts as true: `undefined`, `null`, `false`, zero, NaN and
/// the empty string do not; everything else does.
pub open spec fn truthy(v: VValue) -> bool {
    match v {
        VValue::Undefined => false,
        VValue::Null => false,
        VValue::Boolean(b) => b,
        VValue::Number(n) => n & 0x7fff_ffff_ffff_ffff != 0 && !is_nan(n),
        VValue::Str(s) => s.len() > 0,
        _ => true,
    }
}

/// The number with bits `b` converted to an index as `as usize` does:
/// its integer part, zero for NaN and negative numbers, and saturated at
/// the largest index.
pub open spec fn float_index(b: u64) -> usize {
    let e = (b >> 52) & 0x7ff;
    let m = (b & 0xf_ffff_ffff_ffff) | 0x10_0000_0000_0000;
    if b >> 63 == 1 {
        0
    } else if e == 0x7ff {
        if b & 0xf_ffff_ffff_ffff == 0 { usize::MAX } else { 0 }
    } else if e < 1023 {
        0
    } else if e <= 1075 {
        let v = m >> ((1075 - e) as u64);
        if v > usize::MAX { usize::MAX } else { v as usize }
    } else if e <= 1086 {
        let v = m << ((e - 1075) as u64);
        if v > usize::MAX { usize::MAX } else { v as usize }
    } else {
        usize::MAX
    }
}

/// The target of a jump by `offset` from `ip`, computed as 32-bit signed
/// numbers and converted back to an index.
pub open spec fn jump_target(ip: usize, offset: u32) -> usize {
    ((ip as i32).wrapping_add(offset as i32)) as usize
}

/// The text of a thrown value: the text of `undefined`, `null`, booleans
/// and strings, an error's message, and the kind in brackets for the rest.
pub open spec fn value_text(v: VValue) -> Seq<char> {
    match v {
        VValue::Undefined => "undefined"@,
        VValue::Null => "null"@,
        VValue::Boolean(b) => if b { "true"@ } else { "false"@ },
        VValue::Number(_) => "[number]"@,
        VValue::Str(s) => s,
        VValue::Object(_) => "[object]"@,
        VValue::Array(_) => "[array]"@,
        VValue::Error(m) => m,
        VValue::Union(_) => "[union]"@,
        VValue::Function => "[function]"@,
        VValue::Other(n) => "["@ + n + "]"@,
    }
}

/// The error of popping an empty stack.
pub open spec fn underflow() -> VErr {
    VErr::Type("Stack underflow"@)
}

/// `s` with `v` pushed.
pub open spec fn pushed(s: VmView, v: VValue) -> VmView {
    VmView { stack: s.stack.push(v), ..s }
}

/// `s` with its top value popped.
pub open spec fn popped(s: VmView) -> VmView {
    VmView { stack: s.stack.drop_last(), ..s }
}

/// `s` with one more instruction counted.
pub open spec fn counted(s: VmView) -> VmView {
    VmView {
        perf: if s.perf.enabled {
            PerformanceMonitor { instruction_count: (s.perf.instruction_count + 1) as usize, ..s.perf }
        } else {
            s.perf
        },
        ..s
    }
}

/// `s` with one more call at depth `depth` counted.
pub open spec fn call_counted(s: VmView, depth: usize) -> VmView {
    VmView {
        perf: if s.perf.enabled {
            PerformanceMonitor {
                call_count: (s.perf.call_count + 1) as usize,
                max_stack_depth: if depth > s.perf.max_stack_depth { depth } else { s.perf.max_stack_depth },
                ..s.perf
            }
        } else {
            s.perf
        },
        ..s
    }
}

/// An outcome that continues with state `s`.
pub open spec fn cont(s: VmView) -> (VmView, Result<Option<VValue>, VErr>) {
    (s, Ok(None))
}

/// An outcome that fails with `e` in state `s`.
pub open spec fn fail(s: VmView, e: VErr) -> (VmView, Result<Option<VValue>, VErr>) {
    (s, Err(e))
}

/// Reading the variable `name`: the innermost frame's local of that name,
/// else the global.
pub open spec fn load_variable(s: VmView, name: Seq<char>) -> (VmView, Result<Option<VValue>, VErr>) {
    if s.frames.len() > 0 && key_index(s.frames.last().locals, name) < s.frames.last().locals.len() {
        cont(pushed(s, s.frames.last().locals[key_index(s.frames.last().locals, name)].1))
    } else if key_index(s.globals, name) < s.globals.len() {
        cont(pushed(s, s.globals[key_index(s.globals, name)].1))
    } else {
        fail(s, VErr::Reference("Variable '"@ + name + "' is not defined"@))
    }
}

/// Writing the variable `name` with the top of the stack, which stays:
/// the innermost frame's local of that name, if it has one, else the
/// global.
pub open spec fn store_variable(s: VmView, name: Seq<char>) -> (VmView, Result<Option<VValue>, VErr>) {
    if s.stack.len() == 0 {
        fail(s, underflow())
    } else {
        let v = s.stack.last();
        if s.frames.len() > 0 && key_index(s.frames.last().locals, name) < s.frames.last().locals.len() {
            let f = frame_set_local(s.frames.last(), name, v);
            cont(VmView { frames: s.frames.update(s.frames.len() - 1, f), ..s })
        } else {
            cont(VmView { globals: props_set(s.globals, name, v), ..s })
        }
    }
}

/// Reading local slot `k` of the innermost frame.
pub open spec fn load_local(s: VmView, k: usize) -> (VmView, Result<Option<VValue>, VErr>) {
    if s.frames.len() > 0 && k < s.frames.last().values.len() {
        cont(pushed(s, s.frames.last().values[k as int]))
    } else {
        fail(s, VErr::Reference("Local variable at index "@ + decimal(k as nat) + " not found"@))
    }
}

/// Popping into local slot `k` of the innermost frame; a slot past the
/// end is left alone.
pub open spec fn store_local(s: VmView, k: usize) -> (VmView, Result<Option<VValue>, VErr>) {
    let e = VErr::Type("Failed to store local variable"@);
    if s.stack.len() == 0 {
        fail(s, e)
    } else if s.frames.len() == 0 {
        fail(popped(s), e)
    } else {
        let f = s.frames.last();
        let v = s.stack.last();
        let g = if k < f.values.len() { FrameView { values: f.values.update(k as int, v), ..f } } else { f };
        cont(VmView { frames: s.frames.update(s.frames.len() - 1, g), ..popped(s) })
    }
}

/// Reading a property: pops the property name, then the object.
pub open spec fn get_property(s: VmView) -> (VmView, Result<Option<VValue>, VErr>) {
    if s.stack.len() == 0 {
        fail(s, underflow())
    } else if s.stack.len() == 1 {
        fail(popped(s), underflow())
    } else {
        let property = s.stack.last();
        let object = s.stack[s.stack.len() - 2];
        let t = popped(popped(s));
        match (object, property) {
            (VValue::Object(props), VValue::Str(key)) => cont(pushed(t,
                if key_index(props, key) < props.len() { props[key_index(props, key)].1 } else { VValue::Undefined })),
            (VValue::Array(items), VValue::Str(key)) => if key == "length"@ {
                if items.len() <= MAX_EXACT_INDEX {
                    cont(pushed(t, VValue::Number(index_bits(items.len() as usize))))
                } else {
                    fail(t, VErr::Range("Invalid array length"@))
                }
            } else {
                fail(t, VErr::Type("Cannot get property of non-object"@))
            },
            _ => fail(t, VErr::Type("Cannot get property of non-object"@)),
        }
    }
}

/// Writing a property: pops the property name, then the value, then the
/// object, and pushes the updated object.
pub open spec fn set_property(s: VmView) -> (VmView, Result<Option<VValue>, VErr>) {
    if s.stack.len() < 3 {
        fail(VmView { stack: Seq::empty(), ..s }, underflow())
    } else {
        let property = s.stack.last();
        let value = s.stack[s.stack.len() - 2];
        let object = s.stack[s.stack.len() - 3];
        let t = popped(popped(popped(s)));
        match (object, property) {
            (VValue::Object(props), VValue::Str(key)) => cont(pushed(t, VValue::Object(props_set(props, key, value)))),
            _ => fail(t, VErr::Type("Cannot set property of non-object"@)),
        }
    }
}

/// Reading an element: pops the index, then the array (or string).
pub open spec fn get_element(s: VmView) -> (VmView, Result<Option<VValue>, VErr>) {
    if s.stack.len() == 0 {
        fail(s, underflow())
    } else if s.stack.len() == 1 {
        fail(popped(s), underflow())
    } else {
        let index = s.stack.last();
        let array = s.stack[s.stack.len() - 2];
        let t = popped(popped(s));
        match (array, index) {
            (VValue::Array(items), VValue::Number(b)) => cont(pushed(t,
                if float_index(b) < items.len() { items[float_index(b) as int] } else { VValue::Undefined })),
            (VValue::Str(text), VValue::Number(b)) => cont(pushed(t,
                if float_index(b) < text.len() { VValue::Str(seq![text[float_index(b) as int]]) } else { VValue::Undefined })),
            _ => fail(t, VErr::Type("Cannot get element of non-array"@)),
        }
    }
}

/// Writing an element: pops the index, then the value, then the array,
/// and pushes the updated array, grown with `undefined` where the index is
/// past its end.
pub open spec fn set_element(s: VmView) -> (VmView, Result<Option<VValue>, VErr>) {
    if s.stack.len() < 3 {
        fail(VmView { stack: Seq::empty(), ..s }, underflow())
    } else {
        let index = s.stack.last();
        let value = s.stack[s.stack.len() - 2];
        let array = s.stack[s.stack.len() - 3];
        let t = popped(popped(popped(s)));
        match (array, index) {
            (VValue::Array(items), VValue::Number(b)) => {
                let k = float_index(b);
                if k < items.len() {
                    cont(pushed(t, VValue::Array(items.update(k as int, value))))
                } else if k == usize::MAX {
                    fail(t, VErr::Range("Invalid array length"@))
                } else {
                    cont(pushed(t, VValue::Array(items + Seq::new((k - items.len()) as nat, |i: int| VValue::Undefined)
                        + seq![value])))
                }
            },
            _ => fail(t, VErr::Type("Cannot set element of non-array"@)),
        }
    }
}

/// Calling the function on top of the stack with `n` arguments below it:
/// they are replaced by its result, `undefined`.
pub open spec fn call(s: VmView, n: u32) -> (VmView, Result<Option<VValue>, VErr>) {
    if s.stack.len() == 0 {
        fail(s, underflow())
    } else {
        let callee = s.stack.last();
        let t = popped(s);
        if callee is Function {
            if t.stack.len() < n {
                fail(t, underflow())
            } else {
                let u = call_counted(t, t.frames.len() as usize);
                cont(VmView { stack: u.stack.take(u.stack.len() - n).push(VValue::Undefined), ..u })
            }
        } else {
            fail(t, VErr::Type("Cannot call non-function"@))
        }
    }
}

/// Returning: pops the result (`undefined` on an empty stack) and leaves
/// the innermost frame, resuming at its return address.
pub open spec fn ret(s: VmView) -> (VmView, Result<Option<VValue>, VErr>) {
    let result = if s.stack.len() > 0 { s.stack.last() } else { VValue::Undefined };
    let t = if s.stack.len() > 0 { popped(s) } else { s };
    if t.frames.len() > 0 {
        (VmView { ip: t.frames.last().return_ip, frames: t.frames.drop_last(), ..t }, Ok(Some(result)))
    } else {
        (t, Ok(Some(result)))
    }
}

/// A class object: its name and an empty prototype.
pub open spec fn class_value(name: Seq<char>) -> VValue {
    VValue::Object(seq![("name"@, VValue::Str(name)), ("prototype"@, VValue::Object(Seq::empty()))])
}

/// The functions after creating `name` with `n` parameters.
pub open spec fn functions_set(f: Seq<(Seq<char>, u32)>, name: Seq<char>, n: u32) -> Seq<(Seq<char>, u32)> {
    if function_index(f, name) < f.len() {
        f.update(function_index(f, name), (name, n))
    } else {
        f.push((name, n))
    }
}

/// What `op` does to state `s`, before the instruction is counted.
pub open spec fn effect(s: VmView, op: Op) -> (VmView, Result<Option<VValue>, VErr>) {
    match op {
        Op::PushUndefined => cont(pushed(s, VValue::Undefined)),
        Op::PushNull => cont(pushed(s, VValue::Null)),
        Op::PushBoolean(b) => cont(pushed(s, VValue::Boolean(b))),
        Op::PushNumber(n) => cont(pushed(s, VValue::Number(n))),
        Op::PushString(t) => cont(pushed(s, VValue::Str(t))),
        Op::LoadVariable(n) => load_variable(s, n),
        Op::StoreVariable(n) => store_variable(s, n),
        Op::LoadLocal(k) => load_local(s, k),
        Op::StoreLocal(k) => store_local(s, k),
        Op::CreateObject => cont(pushed(s, VValue::Object(Seq::empty()))),
        Op::GetProperty => get_property(s),
        Op::SetProperty => set_property(s),
        Op::CreateArray => cont(pushed(s, VValue::Array(Seq::empty()))),
        Op::GetElement => get_element(s),
        Op::SetElement => set_element(s),
        Op::CreateFunction(name, n) => cont(pushed(VmView { functions: functions_set(s.functions, name, n), ..s },
            VValue::Function)),
        Op::Call(n) => call(s, n),
        Op::Return => ret(s),
        Op::CreateClass(name) => cont(pushed(s, class_value(name))),
        Op::AddMethod(_) => cont(pushed(s, VValue::Function)),
        Op::Jump(offset) => cont(VmView { ip: jump_target(s.ip, offset), ..s }),
        Op::JumpIfFalse(offset) => if s.stack.len() == 0 {
            fail(s, underflow())
        } else {
            let t = popped(s);
            cont(VmView { ip: if !truthy(s.stack.last()) { jump_target(s.ip, offset) } else { (s.ip + 1) as usize }, ..t })
        },
        Op::Throw => if s.stack.len() == 0 {
            fail(s, underflow())
        } else {
            fail(popped(s), VErr::Other("Exception: "@ + value_text(s.stack.last())))
        },
        Op::TryEnd => cont(VmView { handlers: if s.handlers.len() > 0 { s.handlers.drop_last() } else { s.handlers }, ..s }),
        Op::Pop => cont(if s.stack.len() > 0 { popped(s) } else { s }),
        Op::Dup => cont(if s.stack.len() > 0 { pushed(s, s.stack.last()) } else { s }),
        Op::Swap => cont(if s.stack.len() >= 2 {
            VmView {
                stack: s.stack.update(s.stack.len() - 1, s.stack[s.stack.len() - 2]).update(
                    s.stack.len() - 2, s.stack.last()),
                ..s
            }
        } else {
            s
        }),
        _ => cont(s),
    }
}

/// The effect of executing `op` in state `s`: the new state, and either a
/// value returned, nothing (execution goes on), or an error. Jumps set the
/// instruction pointer; other instructions leave it for the caller to
/// advance. An instruction that goes on is counted.
pub open spec fn exec_step(s: VmView, op: Op) -> (VmView, Result<Option<VValue>, VErr>) {
    let r = effect(s, op);
    match r.1 {
        Ok(None) => (counted(r.0), r.1),
        _ => r,
    }
}

/// Whether `op` moves the instruction pointer itself.
pub open spec fn is_jump(op: Op) -> bool {
    op is Jump || op is JumpIfFalse
}

/// Running `code` from state `s` for at most `fuel` more instructions:
/// the final state, and the value returned or the error met; none where
/// the fuel runs out first. Running off the end returns the value on top
/// of the stack (`undefined` on an empty stack), which is popped.
pub open spec fn run(s: VmView, code: Seq<Op>, fuel: nat) -> (VmView, Option<Result<VValue, VErr>>)
    decreases fuel,
{
    if s.ip >= code.len() {
        (if s.stack.len() > 0 { popped(s) } else { s },
            Some(Ok(if s.stack.len() > 0 { s.stack.last() } else { VValue::Undefined })))
    } else if fuel == 0 {
        (s, None)
    } else {
        let op = code[s.ip as int];
        let (t, r) = exec_step(s, op);
        match r {
            Err(e) => (t, Some(Err(e))),
            Ok(Some(v)) => (t, Some(Ok(v))),
            Ok(None) => run(if is_jump(op) { t } else { VmView { ip: (t.ip + 1) as usize, ..t } }, code, (fuel - 1) as nat),
        }
    }
}

/// The state in which a run starts: empty stack, no frames, no handlers,
/// fresh counters, at the first instruction.
pub open spec fn started(s: VmView) -> VmView {
    VmView {
        stack: Seq::empty(),
        frames: Seq::empty(),
        handlers: Seq::empty(),
        perf: PerformanceMonitor {
            start_time: None,
            instruction_count: 0,
            call_count: 0,
            max_stack_depth: 0,
            memory_allocations: 0,
            memory_deallocations: 0,
            gc_count: 0,
            gc_total_time_us: 0,
            max_memory_used: 0,
            enabled: s.perf.enabled,
        },
        ip: 0,
        ..s
    }
}


/// An outcome as a value.
pub open spec fn outcome_view(r: Result<Option<Value>, TsError>) -> Result<Option<VValue>, VErr> {
    match r {
        Ok(Some(v)) => Ok(Some(vview(v))),
        Ok(None) => Ok(None),
        Err(e) => Err(err_view(e)),
    }
}

/// Pushes `v`.
fn push_value(vm: &mut VmState, v: Value)
    ensures
        final(vm)@ == pushed(old(vm)@, vview(v)),
{
    let ghost before = vm.stack@;
    vm.stack.push(v);
    proof {
        assert(vm.stack@.drop_last() =~= before);
    }
    assert(vm@.stack =~= old(vm)@.stack.push(vview(v)));
    assert(vm@ =~= pushed(old(vm)@, vview(v)));
}

/// Pops the top value, if there is one.
fn pop_value(vm: &mut VmState) -> (r: Option<Value>)
    ensures
        old(vm)@.stack.len() == 0 ==> r is None && final(vm)@ == old(vm)@,
        old(vm)@.stack.len() > 0 ==> r is Some && vview(r->0) == old(vm)@.stack.last()
            && final(vm)@ == popped(old(vm)@),
{
    proof {
        lemma_items_view(vm.stack@);
    }
    let r = vm.stack.pop();
    proof {
        if r is Some {
            assert(old(vm).stack@.drop_last() =~= vm.stack@);
            assert(vm@.stack =~= old(vm)@.stack.drop_last());
            assert(vm@ =~= popped(old(vm)@));
        }
    }
    r
}

/// Counts one instruction.
fn count_instruction(vm: &mut VmState)
    requires
        old(vm).perf.enabled ==> old(vm).perf.instruction_count < usize::MAX,
    ensures
        final(vm)@ == counted(old(vm)@),
{
    vm.perf.record_instruction();
    assert(vm@.perf =~= counted(old(vm)@).perf);
}

/// The error with kind `kind` (0 type, 1 reference, 2 range, else other)
/// and message `m`.
fn type_error(m: &str) -> (e: TsError)
    ensures
        err_view(e) == VErr::Type(m@),
{
    TsError::TypeError(String::from_str(m))
}

/// Writes `v` under `key` in `props`: the first entry of that name takes
/// it, or it is added at the end.
fn props_insert(props: &mut Vec<(String, Value)>, key: &String, v: Value)
    ensures
        props_view(final(props)@) == props_set(props_view(old(props)@), key@, vview(v)),
{
    proof {
        lemma_props_view(props@);
    }
    let i = find_key(props, key.as_str());
    let ghost nv = vview(v);
    if i < props.len() {
        props.set(i, (key.clone(), v));
        proof {
            lemma_props_view(props@);
            assert(props_view(props@) =~= props_view(old(props)@).update(i as int, (key@, nv)));
        }
    } else {
        let ghost before = props@;
        props.push((key.clone(), v));
        proof {
            assert(props@.drop_last() =~= before);
        }
    }
}

/// The position of the first slot entry named `key`.
proof fn lemma_slot_index(s: Seq<(Seq<char>, usize)>, key: Seq<char>, i: int)
    requires
        0 <= i <= s.len(),
        forall|j: int| 0 <= j < i ==> s[j].0 != key,
        i == s.len() || s[i].0 == key,
    ensures
        slot_index(s, key) == i,
    decreases i,
{
    if i > 0 {
        lemma_slot_index(s.drop_first(), key, i - 1);
    }
}

/// The position of the first function entry named `key`.
proof fn lemma_function_index(s: Seq<(Seq<char>, u32)>, key: Seq<char>, i: int)
    requires
        0 <= i <= s.len(),
        forall|j: int| 0 <= j < i ==> s[j].0 != key,
        i == s.len() || s[i].0 == key,
    ensures
        function_index(s, key) == i,
    decreases i,
{
    if i > 0 {
        lemma_function_index(s.drop_first(), key, i - 1);
    }
}

/// The position of the first slot entry of `v` named `key`.
fn find_slot(v: &Vec<(String, usize)>, key: &String) -> (i: usize)
    ensures
        i as int == slot_index(indices_view(v@), key@),
        i <= v@.len(),
        i < v@.len() ==> indices_view(v@)[i as int].0 == key@,
{
    let mut i: usize = 0;
    while i < v.len()
        invariant
            i <= v@.len(),
            indices_view(v@).len() == v@.len(),
            forall|j: int| 0 <= j < i ==> indices_view(v@)[j].0 != key@,
        decreases v@.len() - i,
    {
        if v[i].0 == *key {
            proof {
                lemma_slot_index(indices_view(v@), key@, i as int);
            }
            return i;
        }
        i = i + 1;
    }
    proof {
        lemma_slot_index(indices_view(v@), key@, i as int);
    }
    i
}

/// The position of the first function entry of `f` named `name`.
fn find_function(f: &Vec<(String, u32)>, name: &String) -> (i: usize)
    ensures
        i as int == function_index(f@.map_values(|p: (String, u32)| (p.0@, p.1)), name@),
        i <= f@.len(),
{
    let ghost fv = f@.map_values(|p: (String, u32)| (p.0@, p.1));
    let mut i: usize = 0;
    while i < f.len()
        invariant
            i <= f@.len(),
            fv == f@.map_values(|p: (String, u32)| (p.0@, p.1)),
            forall|j: int| 0 <= j < i ==> fv[j].0 != name@,
        decreases f@.len() - i,
    {
        if f[i].0 == *name {
            proof {
                lemma_function_index(fv, name@, i as int);
            }
            return i;
        }
        i = i + 1;
    }
    proof {
        lemma_function_index(fv, name@, i as int);
    }
    i
}

/// Records that a function `name` with `n` parameters exists.
fn functions_insert(f: &mut Vec<(String, u32)>, name: &String, n: u32)
    ensures
        final(f)@.map_values(|p: (String, u32)| (p.0@, p.1)) == functions_set(
            old(f)@.map_values(|p: (String, u32)| (p.0@, p.1)), name@, n),
{
    let ghost fv = old(f)@.map_values(|p: (String, u32)| (p.0@, p.1));
    let i = find_function(f, name);
    if i < f.len() {
        f.set(i, (name.clone(), n));
        assert(f@.map_values(|p: (String, u32)| (p.0@, p.1)) =~= fv.update(i as int, (name@, n)));
    } else {
        f.push((name.clone(), n));
        assert(f@.map_values(|p: (String, u32)| (p.0@, p.1)) =~= fv.push((name@, n)));
    }
}

/// Sets the local `name` of frame `f` to `v`.
fn frame_set_local_exec(f: &mut CallFrame, name: &String, v: Value)
    requires
        frame_wf(frame_view(*old(f))),
    ensures
        frame_view(*final(f)) == frame_set_local(frame_view(*old(f)), name@, vview(v)),
        frame_wf(frame_view(*final(f))),
{
    let ghost nv = vview(v);
    let copy = copy_value(&v);
    props_insert(&mut f.locals, name, copy);
    let k = find_slot(&f.local_indices, name);
    proof {
        lemma_items_view(f.local_values@);
    }
    if k < f.local_indices.len() {
        let idx = f.local_indices[k].1;
        assert(indices_view(f.local_indices@)[k as int].1 == idx);
        assert(frame_view(*old(f)).indices == indices_view(f.local_indices@));
        assert(frame_view(*old(f)).indices[k as int].1 < frame_view(*old(f)).values.len());
        proof {
            lemma_items_view(old(f).local_values@);
        }
        f.local_values.set(idx, v);
        proof {
            lemma_items_view(f.local_values@);
            assert(items_view(f.local_values@) =~= items_view(old(f).local_values@).update(idx as int, nv));
        }
    } else {
        let len = f.local_values.len();
        let ghost before = f.local_values@;
        let ghost before_i = f.local_indices@;
        f.local_indices.push((name.clone(), len));
        f.local_values.push(v);
        proof {
            assert(f.local_values@.drop_last() =~= before);
            assert(indices_view(f.local_indices@) =~= indices_view(before_i).push((name@, len)));
            lemma_items_view(f.local_values@);
        }
    }
}


/// Reads the variable `name`.
fn exec_load_variable(vm: &mut VmState, name: &String) -> (r: Result<Option<Value>, TsError>)
    ensures
        final(vm)@ == load_variable(old(vm)@, name@).0,
        outcome_view(r) == load_variable(old(vm)@, name@).1,
{
    let n = vm.call_stack.len();
    if n > 0 {
        let ghost fv = old(vm)@.frames.last();
        assert(fv == frame_view(vm.call_stack@[n - 1]));
        proof {
            lemma_props_view(vm.call_stack@[n - 1].locals@);
        }
        let i = find_key(&vm.call_stack[n - 1].locals, name.as_str());
        if i < vm.call_stack[n - 1].locals.len() {
            let v = copy_value(&vm.call_stack[n - 1].locals[i].1);
            push_value(vm, v);
            return Ok(None);
        }
    }
    proof {
        lemma_props_view(vm.globals@);
    }
    let g = find_key(&vm.globals, name.as_str());
    if g < vm.globals.len() {
        let v = copy_value(&vm.globals[g].1);
        push_value(vm, v);
        Ok(None)
    } else {
        let mut m = String::from_str("Variable '");
        m.append(name.as_str());
        m.append("' is not defined");
        Err(TsError::ReferenceError(m))
    }
}

/// Writes the variable `name` with the top of the stack.
fn exec_store_variable(vm: &mut VmState, name: &String) -> (r: Result<Option<Value>, TsError>)
    requires
        frames_wf(old(vm)@),
    ensures
        final(vm)@ == store_variable(old(vm)@, name@).0,
        outcome_view(r) == store_variable(old(vm)@, name@).1,
        frames_wf(final(vm)@),
{
    let len = vm.stack.len();
    if len == 0 {
        return Err(type_error("Stack underflow"));
    }
    proof {
        lemma_items_view(vm.stack@);
    }
    let v = copy_value(&vm.stack[len - 1]);
    let n = vm.call_stack.len();
    if n > 0 {
        proof {
            lemma_props_view(vm.call_stack@[n - 1].locals@);
        }
        let i = find_key(&vm.call_stack[n - 1].locals, name.as_str());
        if i < vm.call_stack[n - 1].locals.len() {
            let ghost before = vm.call_stack@;
            let mut f = vm.call_stack.pop().unwrap();
            assert(old(vm)@.frames[n - 1] == frame_view(f));
            assert(frame_wf(old(vm)@.frames[n - 1]));
            frame_set_local_exec(&mut f, name, v);
            let ghost fv = frame_view(f);
            vm.call_stack.push(f);
            proof {
                assert(vm.call_stack@ =~= before.update(n - 1, f));
                assert(vm@.frames =~= old(vm)@.frames.update(n - 1, fv));
                assert forall|j: int| 0 <= j < vm@.frames.len() implies #[trigger] frame_wf(vm@.frames[j]) by {
                    if j != n - 1 {
                        assert(vm@.frames[j] == old(vm)@.frames[j]);
                    }
                }
            }
            return Ok(None);
        }
    }
    props_insert(&mut vm.globals, name, v);
    assert(vm@ =~= VmView { globals: props_set(old(vm)@.globals, name@, old(vm)@.stack.last()), ..old(vm)@ });
    Ok(None)
}

/// Reads local slot `k`.
fn exec_load_local(vm: &mut VmState, k: usize) -> (r: Result<Option<Value>, TsError>)
    ensures
        final(vm)@ == load_local(old(vm)@, k).0,
        outcome_view(r) == load_local(old(vm)@, k).1,
{
    let n = vm.call_stack.len();
    if n > 0 {
        assert(old(vm)@.frames.last() == frame_view(vm.call_stack@[n - 1]));
        proof {
            lemma_items_view(vm.call_stack@[n - 1].local_values@);
        }
        if k < vm.call_stack[n - 1].local_values.len() {
            let v = copy_value(&vm.call_stack[n - 1].local_values[k]);
            push_value(vm, v);
            return Ok(None);
        }
    }
    let mut m = String::from_str("Local variable at index ");
    push_decimal(&mut m, k);
    m.append(" not found");
    Err(TsError::ReferenceError(m))
}

/// Pops into local slot `k`.
fn exec_store_local(vm: &mut VmState, k: usize) -> (r: Result<Option<Value>, TsError>)
    requires
        frames_wf(old(vm)@),
    ensures
        final(vm)@ == store_local(old(vm)@, k).0,
        outcome_view(r) == store_local(old(vm)@, k).1,
        frames_wf(final(vm)@),
{
    let v = match pop_value(vm) {
        Some(v) => v,
        None => {
            return Err(type_error("Failed to store local variable"));
        },
    };
    let n = vm.call_stack.len();
    if n == 0 {
        return Err(type_error("Failed to store local variable"));
    }
    let ghost mid = vm@;
    let ghost before = vm.call_stack@;
    let mut f = vm.call_stack.pop().unwrap();
    assert(mid.frames[n - 1] == frame_view(f));
    proof {
        lemma_items_view(f.local_values@);
    }
    if k < f.local_values.len() {
        let ghost nv = vview(v);
        f.local_values.set(k, v);
        proof {
            lemma_items_view(f.local_values@);
            assert(items_view(f.local_values@) =~= mid.frames[n - 1].values.update(k as int, nv));
        }
    }
    let ghost fv = frame_view(f);
    vm.call_stack.push(f);
    proof {
        assert(vm.call_stack@ =~= before.update(n - 1, f));
        assert(vm@.frames =~= mid.frames.update(n - 1, fv));
        assert(frame_wf(mid.frames[n - 1]));
        assert forall|j: int| 0 <= j < vm@.frames.len() implies #[trigger] frame_wf(vm@.frames[j]) by {
            if j != n - 1 {
                assert(vm@.frames[j] == mid.frames[j]);
            }
        }
    }
    Ok(None)
}


/// The number with bits `b` converted to an index as `as usize` does.
pub fn float_to_index(b: u64) -> (k: usize)
    ensures
        k == float_index(b),
{
    let e = (b >> 52) & 0x7ff;
    let m = (b & 0xf_ffff_ffff_ffff) | 0x10_0000_0000_0000;
    if b >> 63 == 1 {
        0
    } else if e == 0x7ff {
        if b & 0xf_ffff_ffff_ffff == 0 { usize::MAX } else { 0 }
    } else if e < 1023 {
        0
    } else if e <= 1075 {
        let v = m >> (1075 - e);
        if v > usize::MAX as u64 { usize::MAX } else { v as usize }
    } else if e <= 1086 {
        let v = m << (e - 1075);
        if v > usize::MAX as u64 { usize::MAX } else { v as usize }
    } else {
        usize::MAX
    }
}

/// Reads a property: pops the property name, then the object.
fn exec_get_property(vm: &mut VmState) -> (r: Result<Option<Value>, TsError>)
    ensures
        final(vm)@ == get_property(old(vm)@).0,
        outcome_view(r) == get_property(old(vm)@).1,
{
    proof {
        lemma_items_view(vm.stack@);
    }
    let property = match pop_value(vm) {
        Some(p) => p,
        None => {
            return Err(type_error("Stack underflow"));
        },
    };
    let object = match pop_value(vm) {
        Some(o) => o,
        None => {
            return Err(type_error("Stack underflow"));
        },
    };
    match object {
        Value::Object(props) => match property {
            Value::String(key) => {
                proof {
                    lemma_props_view(props@);
                }
                let i = find_key(&props, key.as_str());
                if i < props.len() {
                    let v = copy_value(&props[i].1);
                    push_value(vm, v);
                } else {
                    push_value(vm, Value::Undefined);
                }
                Ok(None)
            },
            _ => Err(type_error("Cannot get property of non-object")),
        },
        Value::Array(items) => match property {
            Value::String(key) => {
                if key == String::from_str("length") {
                    proof {
                        lemma_items_view(items@);
                    }
                    if items.len() as u64 <= MAX_EXACT_INDEX {
                        let bits = index_float_bits(items.len());
                        push_value(vm, Value::Number(bits));
                        Ok(None)
                    } else {
                        Err(TsError::RangeError(String::from_str("Invalid array length")))
                    }
                } else {
                    Err(type_error("Cannot get property of non-object"))
                }
            },
            _ => Err(type_error("Cannot get property of non-object")),
        },
        _ => Err(type_error("Cannot get property of non-object")),
    }
}

/// Writes a property: pops the property name, the value and the object,
/// and pushes the updated object.
fn exec_set_property(vm: &mut VmState) -> (r: Result<Option<Value>, TsError>)
    ensures
        final(vm)@ == set_property(old(vm)@).0,
        outcome_view(r) == set_property(old(vm)@).1,
{
    proof {
        lemma_items_view(vm.stack@);
    }
    let property = match pop_value(vm) {
        Some(p) => p,
        None => {
            return Err(type_error("Stack underflow"));
        },
    };
    proof {
        lemma_items_view(vm.stack@);
    }
    let value = match pop_value(vm) {
        Some(v) => v,
        None => {
            return Err(type_error("Stack underflow"));
        },
    };
    proof {
        lemma_items_view(vm.stack@);
    }
    let object = match pop_value(vm) {
        Some(o) => o,
        None => {
            return Err(type_error("Stack underflow"));
        },
    };
    match object {
        Value::Object(props) => match property {
            Value::String(key) => {
                let mut props = props;
                props_insert(&mut props, &key, value);
                push_value(vm, Value::Object(props));
                Ok(None)
            },
            _ => Err(type_error("Cannot set property of non-object")),
        },
        _ => Err(type_error("Cannot set property of non-object")),
    }
}

/// Reads an element: pops the index, then the array or string.
fn exec_get_element(vm: &mut VmState) -> (r: Result<Option<Value>, TsError>)
    ensures
        final(vm)@ == get_element(old(vm)@).0,
        outcome_view(r) == get_element(old(vm)@).1,
{
    proof {
        lemma_items_view(vm.stack@);
    }
    let index = match pop_value(vm) {
        Some(p) => p,
        None => {
            return Err(type_error("Stack underflow"));
        },
    };
    let array = match pop_value(vm) {
        Some(o) => o,
        None => {
            return Err(type_error("Stack underflow"));
        },
    };
    match array {
        Value::Array(items) => match index {
            Value::Number(b) => {
                let k = float_to_index(b);
                proof {
                    lemma_items_view(items@);
                }
                if k < items.len() {
                    let v = copy_value(&items[k]);
                    push_value(vm, v);
                } else {
                    push_value(vm, Value::Undefined);
                }
                Ok(None)
            },
            _ => Err(type_error("Cannot get element of non-array")),
        },
        Value::String(text) => match index {
            Value::Number(b) => {
                let k = float_to_index(b);
                if k < text.as_str().unicode_len() {
                    let c = text.as_str().get_char(k);
                    let mut one = String::new();
                    push_char(&mut one, c);
                    assert(one@ =~= seq![text@[k as int]]);
                    push_value(vm, Value::String(one));
                } else {
                    push_value(vm, Value::Undefined);
                }
                Ok(None)
            },
            _ => Err(type_error("Cannot get element of non-array")),
        },
        _ => Err(type_error("Cannot get element of non-array")),
    }
}

/// Writes an element: pops the index, the value and the array, and pushes
/// the updated array.
fn exec_set_element(vm: &mut VmState) -> (r: Result<Option<Value>, TsError>)
    ensures
        final(vm)@ == set_element(old(vm)@).0,
        outcome_view(r) == set_element(old(vm)@).1,
{
    proof {
        lemma_items_view(vm.stack@);
    }
    let index = match pop_value(vm) {
        Some(p) => p,
        None => {
            return Err(type_error("Stack underflow"));
        },
    };
    proof {
        lemma_items_view(vm.stack@);
    }
    let value = match pop_value(vm) {
        Some(v) => v,
        None => {
            return Err(type_error("Stack underflow"));
        },
    };
    proof {
        lemma_items_view(vm.stack@);
    }
    let array = match pop_value(vm) {
        Some(o) => o,
        None => {
            return Err(type_error("Stack underflow"));
        },
    };
    match array {
        Value::Array(items) => match index {
            Value::Number(b) => {
                let k = float_to_index(b);
                let mut items = items;
                let ghost iv = items_view(items@);
                let ghost nv = vview(value);
                proof {
                    lemma_items_view(items@);
                }
                if k < items.len() {
                    items.set(k, value);
                    proof {
                        lemma_items_view(items@);
                        assert(items_view(items@) =~= iv.update(k as int, nv));
                    }
                } else if k == usize::MAX {
                    return Err(TsError::RangeError(String::from_str("Invalid array length")));
                } else {
                    let start = items.len();
                    while items.len() < k
                        invariant
                            start <= items@.len() <= k,
                            k < usize::MAX,
                            start == iv.len(),
                            items_view(items@) == iv + Seq::new((items@.len() - start) as nat, |i: int| VValue::Undefined),
                        decreases k - items@.len(),
                    {
                        let ghost before = items@;
                        items.push(Value::Undefined);
                        proof {
                            assert(items@.drop_last() =~= before);
                            assert(items@.last() == Value::Undefined);
                            assert(items@.len() > 0);
                            assert(items_view(items@) == items_view(items@.drop_last()).push(vview(items@.last())));
                            assert(items_view(items@) == items_view(before).push(VValue::Undefined));
                            assert(items_view(items@) =~= iv + Seq::new((items@.len() - start) as nat, |i: int| VValue::Undefined));
                        }
                    }
                    let ghost before = items@;
                    items.push(value);
                    proof {
                        assert(items@.drop_last() =~= before);
                        assert(items_view(items@) =~= iv + Seq::new((k - iv.len()) as nat, |i: int| VValue::Undefined) + seq![nv]);
                    }
                }
                push_value(vm, Value::Array(items));
                Ok(None)
            },
            _ => Err(type_error("Cannot set element of non-array")),
        },
        _ => Err(type_error("Cannot set element of non-array")),
    }
}


/// Calls the function on top of the stack with `n` arguments.
fn exec_call(vm: &mut VmState, n: u32) -> (r: Result<Option<Value>, TsError>)
    requires
        old(vm).perf.enabled ==> old(vm).perf.call_count < usize::MAX,
    ensures
        final(vm)@ == call(old(vm)@, n).0,
        outcome_view(r) == call(old(vm)@, n).1,
{
    proof {
        lemma_items_view(vm.stack@);
    }
    let callee = match pop_value(vm) {
        Some(c) => c,
        None => {
            return Err(type_error("Stack underflow"));
        },
    };
    match callee {
        Value::Function => {
            proof {
                lemma_items_view(vm.stack@);
            }
            let len = vm.stack.len();
            if len < n as usize {
                return Err(type_error("Stack underflow"));
            }
            let depth = vm.call_stack.len();
            vm.perf.record_call(depth);
            let ghost before = vm.stack@;
            vm.stack.truncate(len - n as usize);
            proof {
                lemma_items_view(vm.stack@);
                lemma_items_view(before);
                assert(items_view(vm.stack@) =~= items_view(before).take(len - n));
            }
            push_value(vm, Value::Undefined);
            Ok(None)
        },
        _ => Err(type_error("Cannot call non-function")),
    }
}

/// Returns: pops the result and leaves the innermost frame.
fn exec_return(vm: &mut VmState) -> (r: Result<Option<Value>, TsError>)
    ensures
        final(vm)@ == ret(old(vm)@).0,
        outcome_view(r) == ret(old(vm)@).1,
{
    let result = match pop_value(vm) {
        Some(v) => v,
        None => Value::Undefined,
    };
    let ghost mid = vm@;
    let n = vm.call_stack.len();
    if n > 0 {
        let ghost before = vm.call_stack@;
        let f = vm.call_stack.pop().unwrap();
        assert(mid.frames.last() == frame_view(f));
        vm.ip = f.return_ip;
        assert(vm@.frames =~= mid.frames.drop_last());
    }
    Ok(Some(result))
}

/// Whether `v` counts as true.
fn is_truthy(v: &Value) -> (b: bool)
    ensures
        b == truthy(vview(*v)),
{
    match v {
        Value::Undefined => false,
        Value::Null => false,
        Value::Boolean(b) => *b,
        Value::Number(n) => *n & 0x7fff_ffff_ffff_ffff != 0
            && !((*n >> 52) & 0x7ff == 0x7ff && *n & 0xf_ffff_ffff_ffff != 0),
        Value::String(s) => s.as_str().unicode_len() > 0,
        _ => true,
    }
}

/// The text of a thrown value.
fn text_of(v: &Value) -> (t: String)
    ensures
        t@ == value_text(vview(*v)),
{
    match v {
        Value::Undefined => String::from_str("undefined"),
        Value::Null => String::from_str("null"),
        Value::Boolean(b) => if *b { String::from_str("true") } else { String::from_str("false") },
        Value::Number(_) => String::from_str("[number]"),
        Value::String(s) => s.clone(),
        Value::Object(_) => String::from_str("[object]"),
        Value::Array(_) => String::from_str("[array]"),
        Value::Error(m) => m.clone(),
        Value::Union(_) => String::from_str("[union]"),
        Value::Function => String::from_str("[function]"),
        Value::Other(n) => {
            let mut t = String::from_str("[");
            t.append(n.as_str());
            t.append("]");
            t
        },
    }
}

/// The target of a jump by `offset` from `ip`.
fn jump_to(ip: usize, offset: u32) -> (t: usize)
    ensures
        t == jump_target(ip, offset),
{
    (ip as i32).wrapping_add(offset as i32) as usize
}

/// Executes `op` in `vm`: the effect that `exec_step` gives, and the value
/// returned, nothing where execution goes on, or the error met.
pub fn execute_instruction(op: &Instruction, vm: &mut VmState) -> (r: Result<Option<Value>, TsError>)
    requires
        frames_wf(old(vm)@),
        old(vm).ip < usize::MAX,
        old(vm).perf.enabled ==> old(vm).perf.instruction_count < usize::MAX,
        old(vm).perf.enabled ==> old(vm).perf.call_count < usize::MAX,
    ensures
        final(vm)@ == exec_step(old(vm)@, op_of(*op)).0,
        outcome_view(r) == exec_step(old(vm)@, op_of(*op)).1,
        frames_wf(final(vm)@),
{
    let r = execute_effect(op, vm);
    match r {
        Ok(None) => {
            count_instruction(vm);
        },
        _ => {},
    }
    r
}

/// The effect of `op`, before the instruction is counted.
#[verifier::rlimit(100)]
fn execute_effect(op: &Instruction, vm: &mut VmState) -> (r: Result<Option<Value>, TsError>)
    requires
        frames_wf(old(vm)@),
        old(vm).ip < usize::MAX,
        old(vm).perf.enabled ==> old(vm).perf.instruction_count < usize::MAX,
        old(vm).perf.enabled ==> old(vm).perf.call_count < usize::MAX,
    ensures
        (final(vm)@, outcome_view(r)) == effect(old(vm)@, op_of(*op)),
        frames_wf(final(vm)@),
        final(vm).perf.enabled ==> final(vm).perf.instruction_count < usize::MAX,
{
    proof {
        lemma_items_view(vm.stack@);
    }
    match op {
        Instruction::PushUndefined => {
            push_value(vm, Value::Undefined);
            Ok(None)
        },
        Instruction::PushNull => {
            push_value(vm, Value::Null);
            Ok(None)
        },
        Instruction::PushBoolean(b) => {
            push_value(vm, Value::Boolean(*b));
            Ok(None)
        },
        Instruction::PushNumber(n) => {
            push_value(vm, Value::Number(*n));
            Ok(None)
        },
        Instruction::PushString(t) => {
            push_value(vm, Value::String(t.clone()));
            Ok(None)
        },
        Instruction::LoadVariable(n) => exec_load_variable(vm, n),
        Instruction::StoreVariable(n) => exec_store_variable(vm, n),
        Instruction::LoadLocal(k) => exec_load_local(vm, *k),
        Instruction::StoreLocal(k) => exec_store_local(vm, *k),
        Instruction::CreateObject => {
            push_value(vm, Value::Object(Vec::new()));
            Ok(None)
        },
        Instruction::GetProperty => exec_get_property(vm),
        Instruction::SetProperty => exec_set_property(vm),
        Instruction::CreateArray => {
            push_value(vm, Value::Array(Vec::new()));
            Ok(None)
        },
        Instruction::GetElement => exec_get_element(vm),
        Instruction::SetElement => exec_set_element(vm),
        Instruction::CreateFunction(name, n) => {
            functions_insert(&mut vm.functions, name, *n);
            push_value(vm, Value::Function);
            Ok(None)
        },
        Instruction::Call(n) => exec_call(vm, *n),
        Instruction::Return => exec_return(vm),
        Instruction::CreateClass(name) => {
            let proto = Value::Object(Vec::new());
            let mut props: Vec<(String, Value)> = Vec::new();
            props.push((String::from_str("name"), Value::String(name.clone())));
            props.push((String::from_str("prototype"), proto));
            proof {
                lemma_props_view(props@);
                assert(props_view(props@) =~= seq![("name"@, VValue::Str(name@)), ("prototype"@, VValue::Object(Seq::empty()))]);
            }
            push_value(vm, Value::Object(props));
            Ok(None)
        },
        Instruction::AddMethod(_) => {
            push_value(vm, Value::Function);
            Ok(None)
        },
        Instruction::Jump(offset) => {
            vm.ip = jump_to(vm.ip, *offset);
            Ok(None)
        },
        Instruction::JumpIfFalse(offset) => {
            let v = match pop_value(vm) {
                Some(v) => v,
                None => {
                    return Err(type_error("Stack underflow"));
                },
            };
            if !is_truthy(&v) {
                vm.ip = jump_to(vm.ip, *offset);
            } else {
                vm.ip = vm.ip + 1;
            }
            Ok(None)
        },
        Instruction::Throw => {
            let v = match pop_value(vm) {
                Some(v) => v,
                None => {
                    return Err(type_error("Stack underflow"));
                },
            };
            let mut m = String::from_str("Exception: ");
            let t = text_of(&v);
            m.append(t.as_str());
            Err(TsError::Other(m))
        },
        Instruction::TryEnd => {
            vm.exception_handlers.pop();
            Ok(None)
        },
        Instruction::Pop => {
            pop_value(vm);
            Ok(None)
        },
        Instruction::Dup => {
            let len = vm.stack.len();
            if len > 0 {
                let v = copy_value(&vm.stack[len - 1]);
                push_value(vm, v);
            }
            Ok(None)
        },
        Instruction::Swap => {
            let len = vm.stack.len();
            if len >= 2 {
                let a = pop_value(vm).unwrap();
                let b = pop_value(vm).unwrap();
                push_value(vm, a);
                push_value(vm, b);
                assert(vm@.stack =~= old(vm)@.stack.update(len - 1, old(vm)@.stack[len - 2]).update(
                    len - 2, old(vm)@.stack.last()));
            }
            Ok(None)
        },
        _ => Ok(None),
    }
}


/// What a step keeps: the counters' switch, counters that grow by at most
/// one, and the instruction pointer of an instruction that is not a jump
/// and goes on.
proof fn lemma_step_facts(s: VmView, op: Op)
    ensures
        exec_step(s, op).0.perf.enabled == s.perf.enabled,
        exec_step(s, op).0.perf.instruction_count <= s.perf.instruction_count + 1,
        exec_step(s, op).0.perf.call_count <= s.perf.call_count + 1,
        exec_step(s, op).1 == Ok::<Option<VValue>, VErr>(None) && !is_jump(op) ==> exec_step(s, op).0.ip == s.ip,
{
}

/// Whether `op` moves the instruction pointer itself.
fn moves_ip(op: &Instruction) -> (b: bool)
    ensures
        b == is_jump(op_of(*op)),
{
    match op {
        Instruction::Jump(_) | Instruction::JumpIfFalse(_) => true,
        _ => false,
    }
}

/// Runs `code` in `vm` from its first instruction, with an empty stack, no
/// frames, no handlers and fresh counters, for at most `fuel`
/// instructions: the value returned or the error met, or none where the
/// fuel runs out first.
pub fn execute_instructions(vm: &mut VmState, code: &[Instruction], fuel: usize) -> (r: Option<Result<Value, TsError>>)
    requires
        fuel < usize::MAX,
    ensures
        final(vm)@ == run(started(old(vm)@), ops_of(code@), fuel as nat).0,
        (match r {
            Some(Ok(v)) => Some(Ok(vview(v))),
            Some(Err(e)) => Some(Err(err_view(e))),
            None => None,
        }) == run(started(old(vm)@), ops_of(code@), fuel as nat).1,
{
    vm.ip = 0;
    vm.stack.clear();
    vm.call_stack.clear();
    vm.exception_handlers.clear();
    vm.perf.start();
    let ghost s0 = vm@;
    let ghost ops = ops_of(code@);
    proof {
        lemma_ops_len(code@);
        assert(vm@.stack =~= Seq::<VValue>::empty());
        assert(vm@.frames =~= Seq::<FrameView>::empty());
        assert(vm@.perf == started(old(vm)@).perf);
        assert(s0 =~= started(old(vm)@));
    }
    let mut remaining: usize = fuel;
    loop
        invariant
            fuel < usize::MAX,
            remaining <= fuel,
            ops == ops_of(code@),
            ops.len() == code@.len(),
            s0 == started(old(vm)@),
            run(s0, ops, fuel as nat) == run(vm@, ops, remaining as nat),
            frames_wf(vm@),
            vm.perf.instruction_count + remaining <= fuel,
            vm.perf.call_count + remaining <= fuel,
        decreases remaining,
    {
        if vm.ip >= code.len() {
            let ghost s = vm@;
            assert(run(s, ops, remaining as nat) == (if s.stack.len() > 0 { popped(s) } else { s },
                Some(Ok::<VValue, VErr>(if s.stack.len() > 0 { s.stack.last() } else { VValue::Undefined }))));
            let v = match pop_value(vm) {
                Some(v) => v,
                None => Value::Undefined,
            };
            return Some(Ok(v));
        }
        if remaining == 0 {
            return None;
        }
        let ghost s = vm@;
        let op = &code[vm.ip];
        proof {
            lemma_ops_index(code@, vm.ip as int);
            lemma_step_facts(s, op_of(*op));
        }
        let r = execute_instruction(op, vm);
        assert(run(s, ops, remaining as nat) == (match exec_step(s, op_of(*op)).1 {
            Err(e) => (exec_step(s, op_of(*op)).0, Some(Err(e))),
            Ok(Some(v)) => (exec_step(s, op_of(*op)).0, Some(Ok(v))),
            Ok(None) => run(if is_jump(op_of(*op)) { exec_step(s, op_of(*op)).0 } else {
                VmView { ip: (exec_step(s, op_of(*op)).0.ip + 1) as usize, ..exec_step(s, op_of(*op)).0 } },
                ops, (remaining - 1) as nat),
        }));
        match r {
            Err(e) => {
                return Some(Err(e));
            },
            Ok(Some(v)) => {
                return Some(Ok(v));
            },
            Ok(None) => {
                if !moves_ip(op) {
                    vm.ip = vm.ip + 1;
                }
            },
        }
        remaining = remaining - 1;
    }
}


/// Truthiness, the rule that conditional jumps follow: `undefined`, `null`,
/// `false`, the numbers +0, -0 and NaN, and the empty string are false;
/// `true`, every other number, every other string, and objects, arrays,
/// functions and errors are true.
pub proof fn lemma_truthiness(v: VValue)
    ensures
        v is Undefined ==> !truthy(v),
        v is Null ==> !truthy(v),
        v matches VValue::Boolean(b) ==> truthy(v) == b,
        v matches VValue::Number(n) ==> (truthy(v) <==> (n != 0 && n != 0x8000_0000_0000_0000u64
            && !((n >> 52) & 0x7ff == 0x7ff && n & 0xf_ffff_ffff_ffff != 0))),
        v matches VValue::Str(t) ==> (truthy(v) <==> t.len() > 0),
        !(v is Undefined || v is Null || v is Boolean || v is Number || v is Str) ==> truthy(v),
{
    if let VValue::Number(n) = v {
        assert((n & 0x7fff_ffff_ffff_ffffu64 != 0) <==> (n != 0 && n != 0x8000_0000_0000_0000u64)) by (bit_vector);
    }
}

/// A conditional jump on a false value (such as the number zero) jumps by
/// its offset, and on a true value goes on to the next instruction; either
/// way the tested value is popped and nothing else changes.
pub proof fn lemma_jump_if_false(s: VmView, offset: u32)
    requires
        s.stack.len() > 0,
    ensures
        ({
            let (t, r) = exec_step(s, Op::JumpIfFalse(offset));
            let v = s.stack.last();
            let zero = v == VValue::Number(0) || v == VValue::Number(0x8000_0000_0000_0000u64);
            &&& r == Ok::<Option<VValue>, VErr>(None)
            &&& t.stack == s.stack.drop_last()
            &&& t.globals == s.globals
            &&& t.frames == s.frames
            &&& (zero || v is Undefined || v is Null || v == VValue::Boolean(false))
                ==> t.ip == jump_target(s.ip, offset)
            &&& (v == VValue::Boolean(true) || v is Object || v is Array) ==> t.ip == (s.ip + 1) as usize
            &&& (v matches VValue::Number(n) && n != 0 && n != 0x8000_0000_0000_0000u64 && (n >> 52) & 0x7ff != 0x7ff)
                ==> t.ip == (s.ip + 1) as usize
        }),
{
    lemma_truthiness(s.stack.last());
    if let VValue::Number(n) = s.stack.last() {
        if (n >> 52) & 0x7ff != 0x7ff {
            assert(!((n >> 52) & 0x7ff == 0x7ff && n & 0xf_ffff_ffff_ffff != 0));
        }
    }
}

} // verus!
