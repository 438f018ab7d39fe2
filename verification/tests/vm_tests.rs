use typescript::codegen::generator::Instruction;
use typescript::codegen::BinaryOp;
use typescript::error::TsError;
use typescript::ffi::value::Value;
use typescript::vm::machine::{execute_instruction, execute_instructions, float_to_index, CallFrame, VmState};
use typescript::vm::perf::PerformanceMonitor;

fn vm() -> VmState {
    VmState {
        stack: vec![],
        globals: vec![("g".to_string(), Value::Boolean(true))],
        call_stack: vec![],
        functions: vec![],
        exception_handlers: vec![],
        perf: PerformanceMonitor::new(),
        ip: 0,
    }
}

fn num(x: f64) -> Instruction {
    Instruction::PushNumber(x.to_bits())
}

fn global<'a>(vm: &'a VmState, name: &str) -> Option<&'a Value> {
    vm.globals.iter().find(|(k, _)| k == name).map(|(_, v)| v)
}

#[test]
fn stores_and_reads_globals() {
    let mut m = vm();
    let code = vec![num(1.0), Instruction::StoreVariable("x".to_string()), Instruction::Pop,
        Instruction::LoadVariable("x".to_string())];
    let r = execute_instructions(&mut m, &code, 100);
    assert!(matches!(r, Some(Ok(Value::Number(b))) if b == 1f64.to_bits()));
    assert!(matches!(global(&m, "x"), Some(Value::Number(_))));
    assert_eq!(m.perf.instruction_count, 4);
    assert!(m.stack.is_empty());
}

#[test]
fn undefined_variables_are_reference_errors() {
    let mut m = vm();
    let code = vec![Instruction::LoadVariable("nope".to_string())];
    match execute_instructions(&mut m, &code, 10) {
        Some(Err(TsError::ReferenceError(msg))) => assert_eq!(msg, "Variable 'nope' is not defined"),
        _ => panic!("expected a reference error"),
    }
}

#[test]
fn binary_operators_leave_the_stack_alone() {
    let mut m = vm();
    let code = vec![num(1.0), num(2.0), Instruction::BinaryOp(BinaryOp::Add)];
    let r = execute_instructions(&mut m, &code, 10);
    assert!(matches!(r, Some(Ok(Value::Number(b))) if b == 2f64.to_bits()));
    assert_eq!(m.stack.len(), 1);
}

#[test]
fn conditional_jumps_follow_truthiness() {
    // false: jump by 2 from the jump lands past the push of 1
    let mut m = vm();
    let code = vec![Instruction::PushBoolean(false), Instruction::JumpIfFalse(2), num(1.0), num(2.0)];
    let r = execute_instructions(&mut m, &code, 10);
    assert!(matches!(r, Some(Ok(Value::Number(b))) if b == 2f64.to_bits()));
    assert_eq!(m.stack.len(), 0);
    // true: falls through
    let mut m = vm();
    let code = vec![Instruction::LoadVariable("g".to_string()), Instruction::JumpIfFalse(2), num(1.0)];
    let r = execute_instructions(&mut m, &code, 10);
    assert!(matches!(r, Some(Ok(Value::Number(b))) if b == 1f64.to_bits()));
}

#[test]
fn endless_loops_run_out_of_fuel() {
    let mut m = vm();
    let code = vec![Instruction::Jump(0)];
    assert!(execute_instructions(&mut m, &code, 25).is_none());
    assert_eq!(m.perf.instruction_count, 25);
}

#[test]
fn objects_arrays_and_properties() {
    let mut m = vm();
    let code = vec![
        Instruction::CreateArray,
        Instruction::PushString("length".to_string()),
        Instruction::GetProperty,
    ];
    let r = execute_instructions(&mut m, &code, 10);
    assert!(matches!(r, Some(Ok(Value::Number(b))) if b == 0f64.to_bits()));
    // set_property pops the name, then the value slot, then the object slot
    let mut m = vm();
    let code = vec![
        num(7.0),
        Instruction::CreateObject,
        Instruction::PushString("k".to_string()),
        Instruction::SetProperty,
    ];
    match execute_instructions(&mut m, &code, 10) {
        Some(Err(TsError::TypeError(msg))) => assert_eq!(msg, "Cannot set property of non-object"),
        _ => panic!("expected a type error"),
    }
    let mut m = vm();
    let code = vec![
        Instruction::CreateObject,
        num(7.0),
        Instruction::PushString("k".to_string()),
        Instruction::SetProperty,
        Instruction::PushString("k".to_string()),
        Instruction::GetProperty,
    ];
    let r = execute_instructions(&mut m, &code, 10);
    assert!(matches!(r, Some(Ok(Value::Number(b))) if b == 7f64.to_bits()));
}

#[test]
fn elements_grow_arrays_with_undefined() {
    let mut m = vm();
    let code = vec![
        Instruction::CreateArray,
        Instruction::PushString("x".to_string()),
        num(2.0),
        Instruction::SetElement,
    ];
    let r = execute_instructions(&mut m, &code, 10);
    match r {
        Some(Ok(Value::Array(items))) => {
            assert_eq!(items.len(), 3);
            assert!(matches!(items[0], Value::Undefined));
            assert!(matches!(&items[2], Value::String(s) if s == "x"));
        },
        _ => panic!("expected an array"),
    }
    let mut m = vm();
    let code = vec![Instruction::PushString("abc".to_string()), num(1.9), Instruction::GetElement];
    let r = execute_instructions(&mut m, &code, 10);
    assert!(matches!(r, Some(Ok(Value::String(s))) if s == "b"));
}

#[test]
fn functions_calls_and_returns() {
    let mut m = vm();
    let code = vec![
        num(1.0),
        num(2.0),
        Instruction::CreateFunction("f".to_string(), 2),
        Instruction::Call(2),
        Instruction::Return,
        num(9.0),
    ];
    let r = execute_instructions(&mut m, &code, 10);
    assert!(matches!(r, Some(Ok(Value::Undefined))));
    assert_eq!(m.functions, vec![("f".to_string(), 2)]);
    assert_eq!(m.perf.call_count, 1);
    assert!(m.stack.is_empty());
    let mut m = vm();
    let code = vec![num(1.0), Instruction::Call(0)];
    match execute_instructions(&mut m, &code, 10) {
        Some(Err(TsError::TypeError(msg))) => assert_eq!(msg, "Cannot call non-function"),
        _ => panic!("expected a type error"),
    }
}

#[test]
fn throw_reports_the_value() {
    let mut m = vm();
    let code = vec![Instruction::PushString("boom".to_string()), Instruction::Throw];
    match execute_instructions(&mut m, &code, 10) {
        Some(Err(TsError::Other(msg))) => assert_eq!(msg, "Exception: boom"),
        _ => panic!("expected an exception"),
    }
}

#[test]
fn locals_live_in_the_innermost_frame() {
    let mut m = vm();
    m.call_stack.push(CallFrame {
        function_name: "f".to_string(),
        return_ip: 7,
        locals: vec![("a".to_string(), Value::Null)],
        local_indices: vec![("a".to_string(), 0)],
        local_values: vec![Value::Null],
        stack_base: 0,
    });
    execute_instruction(&Instruction::PushBoolean(false), &mut m).unwrap();
    execute_instruction(&Instruction::StoreVariable("a".to_string()), &mut m).unwrap();
    assert!(matches!(m.call_stack[0].local_values[0], Value::Boolean(false)));
    execute_instruction(&Instruction::LoadLocal(0), &mut m).unwrap();
    assert_eq!(m.stack.len(), 2);
    match execute_instruction(&Instruction::LoadLocal(3), &mut m) {
        Err(TsError::ReferenceError(msg)) => assert_eq!(msg, "Local variable at index 3 not found"),
        _ => panic!("expected a reference error"),
    }
    let r = execute_instruction(&Instruction::Return, &mut m).unwrap();
    assert!(matches!(r, Some(Value::Boolean(false))));
    assert_eq!(m.ip, 7);
    assert!(m.call_stack.is_empty());
}

#[test]
fn numbers_become_indexes_as_casts_do() {
    assert_eq!(float_to_index(3.7f64.to_bits()), 3);
    assert_eq!(float_to_index((-2.0f64).to_bits()), 0);
    assert_eq!(float_to_index(f64::NAN.to_bits()), 0);
    assert_eq!(float_to_index(f64::INFINITY.to_bits()), usize::MAX);
    assert_eq!(float_to_index(1e30f64.to_bits()), usize::MAX);
    assert_eq!(float_to_index(4503599627370497.0f64.to_bits()), 4503599627370497);
    assert_eq!(float_to_index(0.5f64.to_bits()), 0);
}
