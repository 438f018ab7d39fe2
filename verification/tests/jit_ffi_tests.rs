use typescript::codegen::generator::Instruction as I;
use typescript::codegen::{BinaryOp, UnaryOp};
use typescript::error::TsError;
use typescript::ffi::napi::{check_napi_status, create_napi_error, NapiStatus, NapiValueType};
use typescript::ffi::ObjectPool;
use typescript::jit::compiler::{
    compilation_decision, window_average, CompilationReason, CompileStatus, JITCompiler, JITEvent, JITEventCallback,
    JITStatistics,
};
use typescript::jit::optimizer::{same_instruction, same_instructions, select_optimization_level, JITOptimizer, OptimizationLevel};

#[test]
fn pool_hands_back_the_last_value_put() {
    let mut pool: ObjectPool<Vec<u32>> = ObjectPool::new(2);
    pool.put(vec![1]);
    pool.put(vec![2]);
    pool.put(vec![3]);
    assert_eq!(pool.get(Vec::new), vec![2]);
    assert_eq!(pool.get(Vec::new), vec![1]);
    assert_eq!(pool.get(|| vec![9, 9]), vec![9, 9]);
}

#[test]
fn pool_of_capacity_zero_keeps_nothing() {
    let mut pool: ObjectPool<u8> = ObjectPool::new(0);
    pool.put(5);
    assert_eq!(pool.get(|| 1), 1);
}

#[test]
fn napi_status_check() {
    assert!(check_napi_status(NapiStatus::Success).is_ok());
    match check_napi_status(NapiStatus::InvalidArg) {
        Err(TsError::Other(m)) => assert_eq!(m, "NAPI operation failed with status: InvalidArg"),
        _ => panic!("expected an error"),
    }
    match check_napi_status(NapiStatus::NoExternalBuffersAllowed) {
        Err(TsError::Other(m)) => assert_eq!(m, "NAPI operation failed with status: NoExternalBuffersAllowed"),
        _ => panic!("expected an error"),
    }
    assert_eq!(NapiStatus::Success.name(), "Ok");
    assert_eq!(NapiStatus::QueueFull.name(), "QueueFull");
}

#[test]
fn napi_error_message() {
    match create_napi_error("boom") {
        TsError::Other(m) => assert_eq!(m, "NAPI Error: boom"),
        _ => panic!("expected Other"),
    }
}

#[test]
fn napi_value_types_follow_the_api_order() {
    assert_eq!(NapiValueType::Undefined as i32, 0);
    assert_eq!(NapiValueType::Bigint as i32, 9);
    assert_eq!(NapiStatus::Success as i32, 0);
    assert_eq!(NapiStatus::NoExternalBuffersAllowed as i32, 22);
}

#[test]
fn optimization_level_selection() {
    assert_eq!(select_optimization_level(None), OptimizationLevel::Basic);
    assert_eq!(select_optimization_level(Some((1001, 501, 0))), OptimizationLevel::High);
    assert_eq!(select_optimization_level(Some((1001, 500, 0))), OptimizationLevel::Medium);
    assert_eq!(select_optimization_level(Some((10, 201, 21))), OptimizationLevel::Medium);
    assert_eq!(select_optimization_level(Some((101, 0, 0))), OptimizationLevel::Basic);
    assert_eq!(select_optimization_level(Some((0, 0, 11))), OptimizationLevel::Basic);
    assert_eq!(select_optimization_level(Some((100, 200, 10))), OptimizationLevel::NoOptimization);
    let _o = JITOptimizer::new(OptimizationLevel::Medium);
    assert_eq!(select_optimization_level(Some((600, 501, 0))), OptimizationLevel::Medium);
    assert_eq!(select_optimization_level(Some((1200, 501, 0))), OptimizationLevel::High);
}

#[test]
fn window_averages() {
    assert_eq!(window_average(&[]), 0);
    assert_eq!(window_average(&[10, 20, 31]), 20);
    assert_eq!(window_average(&[7]), 7);
}

#[test]
fn compilation_decisions() {
    assert_eq!(
        compilation_decision(100, 0, &[], CompileStatus::NotCompiled, 100, 1000),
        Some(CompilationReason::CallCountThreshold)
    );
    assert_eq!(
        compilation_decision(1, 1000, &[], CompileStatus::Failed, 100, 1000),
        Some(CompilationReason::TimeThreshold)
    );
    assert_eq!(
        compilation_decision(1, 10, &[900, 1200], CompileStatus::NotCompiled, 100, 1000),
        Some(CompilationReason::WindowAverageThreshold)
    );
    assert_eq!(compilation_decision(1, 10, &[900, 1000], CompileStatus::NotCompiled, 100, 1000), None);
    assert_eq!(compilation_decision(500, 5000, &[], CompileStatus::Compiled, 100, 1000), None);
    assert_eq!(compilation_decision(500, 5000, &[], CompileStatus::Compiling, 100, 1000), None);
}

#[test]
fn statistics_start_at_zero() {
    let s = JITStatistics::new();
    assert_eq!(s.total_compilations, 0);
    assert_eq!(s.cache_hits, 0);
    assert_eq!(s.avg_compile_time(), 0);
    assert_eq!(s.total_compile_time, 0);
    let d = JITStatistics::default();
    assert_eq!(d.total_execution_time, 0);
}

#[test]
fn average_compile_time_divides_the_total() {
    let mut s = JITStatistics::new();
    s.total_compilations = 4;
    s.total_compile_time = std::time::Duration::from_millis(10).as_nanos();
    assert_eq!(s.avg_compile_time(), std::time::Duration::from_micros(2500).as_nanos());
    s.total_compile_time = 10;
    s.total_compilations = 3;
    assert_eq!(s.avg_compile_time(), 3);
}

struct Recorder(std::cell::RefCell<Vec<String>>);

impl JITEventCallback for Recorder {
    fn on_event(&self, event: &JITEvent) {
        if let JITEvent::CompilationFailed { function_name, .. } = event {
            self.0.borrow_mut().push(function_name.clone());
        }
    }
}

#[test]
fn callbacks_receive_events() {
    let r = Recorder(std::cell::RefCell::new(Vec::new()));
    r.on_event(&JITEvent::CompilationFailed { function_name: String::from("f"), error: String::from("e") });
    r.on_event(&JITEvent::HotFunctionDetected { function_name: String::from("g"), call_count: 1, avg_time: 2 });
    r.on_event(&JITEvent::CompilationStarted {
        function_name: String::from("h"),
        complexity: 3,
        reason: CompilationReason::PriorityScheduled,
    });
    assert_eq!(*r.0.borrow(), vec![String::from("f")]);
}

#[test]
fn dead_code_after_jumps_constants_pops_and_returns() {
    let o = JITOptimizer::new(OptimizationLevel::Basic);
    let mut code = vec![I::Jump(2), I::PushNull, I::PushUndefined, I::Pop];
    o.dead_code_elimination(&mut code);
    assert!(matches!(code.as_slice(), [I::Jump(2), I::Pop]));
    let mut code = vec![I::PushBoolean(true), I::JumpIfFalse(1), I::PushNull];
    o.dead_code_elimination(&mut code);
    assert!(matches!(code.as_slice(), [I::PushBoolean(true), I::PushNull]));
    let mut code = vec![I::PushBoolean(false), I::JumpIfFalse(1), I::PushNull, I::Dup];
    o.dead_code_elimination(&mut code);
    assert!(matches!(code.as_slice(), [I::Dup]));
    let mut code = vec![I::PushNumber(f64::NAN.to_bits()), I::JumpIfFalse(5), I::Pop, I::Pop, I::Pop, I::Dup];
    o.dead_code_elimination(&mut code);
    assert!(matches!(code.as_slice(), [I::PushNumber(_), I::Pop, I::Dup]));
    let mut code = vec![I::PushNull, I::Return, I::Pop, I::Dup];
    o.dead_code_elimination(&mut code);
    assert!(matches!(code.as_slice(), [I::PushNull, I::Return]));
}

fn add_numbers(a: u64, b: u64, op: typescript::codegen::BinaryOp) -> u64 {
    match op {
        typescript::codegen::BinaryOp::Add => (f64::from_bits(a) + f64::from_bits(b)).to_bits(),
        _ => 0f64.to_bits(),
    }
}

fn no_bit_not(a: u64) -> u64 {
    a
}

#[test]
fn constants_fold_in_place() {
    use_folding();
}

fn use_folding() {
    let o = JITOptimizer::new(OptimizationLevel::Basic);
    let num = |x: f64| I::PushNumber(x.to_bits());
    let mut code = vec![num(1.0), num(2.0), I::BinaryOp(typescript::codegen::BinaryOp::Add), num(3.0),
        I::BinaryOp(typescript::codegen::BinaryOp::Add)];
    o.constant_folding(&mut code, add_numbers, no_bit_not);
    // the folded 3 and the next 3 fold again
    assert!(matches!(code.as_slice(), [I::PushNumber(b)] if *b == 6f64.to_bits()));
    let mut code = vec![I::PushBoolean(true), I::UnaryOp(typescript::codegen::UnaryOp::Not),
        I::PushBoolean(true), I::BinaryOp(typescript::codegen::BinaryOp::Or)];
    o.constant_folding(&mut code, add_numbers, no_bit_not);
    assert!(matches!(code.as_slice(), [I::PushBoolean(true)]));
    let mut code = vec![I::PushString("a".to_string()), I::PushString("b".to_string()),
        I::BinaryOp(typescript::codegen::BinaryOp::Add)];
    o.constant_folding(&mut code, add_numbers, no_bit_not);
    assert!(matches!(code.as_slice(), [I::PushString(s)] if s == "ab"));
    let mut code = vec![num(2.0), I::UnaryOp(typescript::codegen::UnaryOp::Neg)];
    o.constant_folding(&mut code, add_numbers, no_bit_not);
    assert!(matches!(code.as_slice(), [I::PushNumber(b)] if *b == (-2f64).to_bits()));
    // booleans under `+` are left where folding stops
    let mut code = vec![I::PushBoolean(true), I::PushBoolean(false),
        I::BinaryOp(typescript::codegen::BinaryOp::Add), num(1.0), num(1.0),
        I::BinaryOp(typescript::codegen::BinaryOp::Add)];
    o.constant_folding(&mut code, add_numbers, no_bit_not);
    assert_eq!(code.len(), 6);
}

fn fixed_thresholds(_complexity: usize, _memory: usize) -> (usize, u64) {
    (3, 1000)
}

#[test]
fn hot_function_compiles_at_call_threshold() {
    let mut c = JITCompiler::new();
    assert!(!c.should_compile("f", fixed_thresholds));
    assert!(!c.should_compile("f", fixed_thresholds));
    assert!(c.take_events().is_empty());
    assert!(c.should_compile("f", fixed_thresholds));
    let info = c.get_hot_function_info("f").unwrap();
    assert_eq!(info.call_count, 3);
    assert_eq!(info.complexity, 1);
    assert_eq!(c.get_statistics().total_calls, 3);
    assert_eq!(c.get_statistics().cache_misses, 3);
    let events = c.take_events();
    assert_eq!(events.len(), 2);
    match &events[0] {
        JITEvent::HotFunctionDetected { function_name, call_count, avg_time } => {
            assert_eq!(function_name, "f");
            assert_eq!(*call_count, 3);
            assert_eq!(*avg_time, 0);
        }
        _ => panic!("expected a hot-function event"),
    }
    match &events[1] {
        JITEvent::CompilationStarted { function_name, complexity, reason } => {
            assert_eq!(function_name, "f");
            assert_eq!(*complexity, 1);
            assert_eq!(*reason, CompilationReason::CallCountThreshold);
        }
        _ => panic!("expected a compilation-start event"),
    }
    assert!(c.take_events().is_empty());
}

#[test]
fn compiled_function_is_a_cache_hit() {
    let mut c = JITCompiler::new();
    assert!(!c.should_compile("g", fixed_thresholds));
    c.set_compile_status("g", CompileStatus::Compiled);
    assert_eq!(c.get_compile_status("g"), CompileStatus::Compiled);
    for _ in 0..5 {
        assert!(!c.should_compile("g", fixed_thresholds));
    }
    assert_eq!(c.get_statistics().cache_hits, 5);
    assert_eq!(c.get_statistics().cache_misses, 1);
    assert_eq!(c.get_hot_function_info("g").unwrap().call_count, 6);
}

#[test]
fn execution_times_set_average_and_window() {
    let mut c = JITCompiler::new();
    c.record_execution_time("h", 50);
    assert!(c.get_hot_function_info("h").is_none());
    assert_eq!(c.get_compile_status("h"), CompileStatus::NotCompiled);
    c.should_compile("h", fixed_thresholds);
    c.should_compile("h", fixed_thresholds);
    for t in 1..=12u64 {
        c.record_execution_time("h", t);
    }
    let info = c.get_hot_function_info("h").unwrap();
    assert_eq!(info.total_time, 78);
    assert_eq!(info.avg_time, 39);
    assert_eq!(info.last_time, 12);
    assert_eq!(info.time_window, vec![3, 4, 5, 6, 7, 8, 9, 10, 11, 12]);
    assert_eq!(c.get_statistics().total_execution_time, 78_000);
}

#[test]
fn slow_function_compiles_on_time() {
    let mut c = JITCompiler::new();
    c.set_function_complexity("k", 60);
    assert_eq!(c.get_hot_function_info("k").unwrap().call_count, 0);
    assert!(!c.should_compile("k", fixed_thresholds));
    c.record_execution_time("k", 5000);
    assert!(c.should_compile("k", fixed_thresholds));
    let events = c.take_events();
    match &events[1] {
        JITEvent::CompilationStarted { complexity, reason, .. } => {
            assert_eq!(*complexity, 60);
            assert_eq!(*reason, CompilationReason::TimeThreshold);
        }
        _ => panic!("expected a compilation-start event"),
    }
}

#[test]
fn repeated_binary_expression_is_reused() {
    let o = JITOptimizer::new(OptimizationLevel::Medium);
    let one = 1f64.to_bits();
    let two = 2f64.to_bits();
    let mut code = vec![
        I::PushNumber(one), I::PushNumber(two), I::BinaryOp(BinaryOp::Add),
        I::PushNumber(one), I::PushNumber(two), I::BinaryOp(BinaryOp::Add),
    ];
    o.common_subexpression_elimination(&mut code);
    assert!(matches!(code.as_slice(), [
        I::PushNumber(a), I::PushNumber(b), I::BinaryOp(BinaryOp::Add), I::Jump(2), I::Pop, I::Dup
    ] if *a == one && *b == two));
    let mut code = vec![
        I::PushNumber(one), I::PushNumber(two), I::BinaryOp(BinaryOp::Add),
        I::PushNumber(two), I::PushNumber(one), I::BinaryOp(BinaryOp::Add),
    ];
    o.common_subexpression_elimination(&mut code);
    assert!(matches!(code.as_slice(), [_, _, _, I::PushNumber(_), I::PushNumber(_), I::BinaryOp(BinaryOp::Add)]));
}

#[test]
fn repeated_unary_and_call_are_reused() {
    let o = JITOptimizer::new(OptimizationLevel::Medium);
    let mut code = vec![I::PushBoolean(true), I::UnaryOp(UnaryOp::Not), I::PushBoolean(true), I::UnaryOp(UnaryOp::Not)];
    o.common_subexpression_elimination(&mut code);
    assert!(matches!(code.as_slice(), [I::PushBoolean(true), I::UnaryOp(UnaryOp::Not), I::Jump(1), I::Dup]));
    let one = 1f64.to_bits();
    let mut code = vec![
        I::LoadVariable("f".to_string()), I::PushNumber(one), I::Call(1),
        I::LoadVariable("f".to_string()), I::PushNumber(one), I::Call(1),
    ];
    o.common_subexpression_elimination(&mut code);
    assert!(matches!(code.as_slice(), [
        I::LoadVariable(_), I::PushNumber(_), I::Call(1), I::LoadVariable(_), I::Jump(2), I::Dup
    ]));
    let mut code = vec![I::Call(3), I::Call(3)];
    o.common_subexpression_elimination(&mut code);
    assert!(matches!(code.as_slice(), [I::Call(3), I::Call(3)]));
}

#[test]
fn instruction_equality() {
    assert!(same_instruction(&I::PushString("a".to_string()), &I::PushString("a".to_string())));
    assert!(!same_instruction(&I::PushString("a".to_string()), &I::PushString("b".to_string())));
    assert!(!same_instruction(&I::Pop, &I::Dup));
    assert!(same_instruction(
        &I::SetFunctionBody(vec![I::PushNull, I::Return]),
        &I::SetFunctionBody(vec![I::PushNull, I::Return])
    ));
    assert!(!same_instruction(&I::SetFunctionBody(vec![I::PushNull]), &I::SetClassBody(vec![I::PushNull])));
    assert!(!same_instructions(&vec![I::Pop], &vec![I::Pop, I::Pop]));
}

#[test]
fn loop_invariant_instructions_move_to_the_loop_front() {
    let o = JITOptimizer::new(OptimizationLevel::Medium);
    let back = (-5i32) as u32;
    let mut code = vec![
        I::PushNumber(0), I::StoreLocal(0),
        I::LoadLocal(0), I::Pop, I::LoadVariable("x".to_string()), I::StoreLocal(0),
        I::Jump(back),
    ];
    o.loop_invariant_code_motion(&mut code);
    assert!(matches!(code.as_slice(), [
        I::PushNumber(0), I::StoreLocal(0),
        I::LoadVariable(x), I::LoadLocal(0), I::Pop, I::StoreLocal(0),
        I::Jump(b),
    ] if x == "x" && *b == back));
    let mut code = vec![I::Pop, I::LoadVariable("y".to_string()), I::Jump(1), I::Dup];
    o.loop_invariant_code_motion(&mut code);
    assert!(matches!(code.as_slice(), [I::Pop, I::LoadVariable(_), I::Jump(1), I::Dup]));
}

#[test]
fn unstored_local_and_its_operation_are_invariant() {
    let o = JITOptimizer::new(OptimizationLevel::Medium);
    let back = (-5i32) as u32;
    let mut code = vec![
        I::Pop, I::LoadLocal(1), I::UnaryOp(UnaryOp::Neg), I::StoreLocal(2), I::Jump(back),
    ];
    o.loop_invariant_code_motion(&mut code);
    assert!(matches!(code.as_slice(), [
        I::LoadLocal(1), I::UnaryOp(UnaryOp::Neg), I::Pop, I::StoreLocal(2), I::Jump(_)
    ]));
    let mut code = vec![
        I::Pop, I::StoreLocal(2), I::LoadLocal(1), I::UnaryOp(UnaryOp::Neg), I::Jump((-5i32) as u32),
    ];
    o.loop_invariant_code_motion(&mut code);
    assert!(matches!(code.as_slice(), [
        I::LoadLocal(1), I::UnaryOp(UnaryOp::Neg), I::Pop, I::StoreLocal(2), I::Jump(_)
    ]));
}

#[test]
fn stack_operation_runs_collapse() {
    let o = JITOptimizer::new(OptimizationLevel::High);
    let mut code = vec![
        I::Pop, I::Pop, I::Pop, I::Dup, I::Dup, I::PushNull, I::Dup, I::Dup, I::Dup, I::Dup, I::Pop,
    ];
    o.optimize_stack_operations(&mut code);
    assert!(matches!(code.as_slice(), [I::Pop, I::Dup, I::Dup, I::PushNull, I::Dup, I::Pop]));
    let mut code = vec![I::LoadVariable("a".to_string()), I::Pop, I::Pop, I::StoreVariable("a".to_string())];
    o.register_allocation(&mut code);
    assert!(matches!(code.as_slice(), [I::LoadVariable(_), I::Pop, I::StoreVariable(_)]));
}
