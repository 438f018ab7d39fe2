use typescript::codegen::optimizer::optimize_instructions;
use typescript::codegen::generator::{
    generate_expression_instructions, generate_expression_with_locals, generate_statement_instructions,
    generate_statement_with_locals, Expression, Instruction, Literal, Method, Statement,
};
use typescript::codegen::{BinaryOp, UnaryOp};

fn num(x: f64) -> Box<Expression> {
    Box::new(Expression::Literal(Literal::Number(x.to_bits())))
}

fn ident(n: &str) -> Box<Expression> {
    Box::new(Expression::Identifier(n.to_string()))
}

fn names(code: &[Instruction]) -> Vec<String> {
    code.iter()
        .map(|i| match i {
            Instruction::PushUndefined => "undef".to_string(),
            Instruction::PushNull => "null".to_string(),
            Instruction::PushBoolean(b) => format!("bool {}", b),
            Instruction::PushNumber(n) => format!("num {}", f64::from_bits(*n)),
            Instruction::PushString(s) => format!("str {}", s),
            Instruction::LoadVariable(s) => format!("load {}", s),
            Instruction::StoreVariable(s) => format!("store {}", s),
            Instruction::CreateObject => "obj".to_string(),
            Instruction::GetProperty => "getp".to_string(),
            Instruction::SetProperty => "setp".to_string(),
            Instruction::CreateArray => "arr".to_string(),
            Instruction::GetElement => "gete".to_string(),
            Instruction::SetElement => "sete".to_string(),
            Instruction::Call(n) => format!("call {}", n),
            Instruction::BinaryOp(op) => format!("bin {:?}", op),
            Instruction::UnaryOp(op) => format!("un {:?}", op),
            Instruction::Jump(n) => format!("jump {}", n),
            Instruction::JumpIfFalse(n) => format!("jif {}", n),
            Instruction::Pop => "pop".to_string(),
            Instruction::CreateFunction(s, n) => format!("fn {} {}", s, n),
            Instruction::SetFunctionBody(b) => format!("body [{}]", names(b).join(", ")),
            Instruction::Return => "ret".to_string(),
            Instruction::CreateClass(s) => format!("class {}", s),
            Instruction::AddMethod(s) => format!("method {}", s),
            Instruction::SetClassBody(b) => format!("classbody [{}]", names(b).join(", ")),
            Instruction::CreateTypeAlias(s) => format!("type {}", s),
            Instruction::CreateInterface(s) => format!("interface {}", s),
            Instruction::JumpLoop(n) => format!("jloop {}", n),
            Instruction::LoadLocal(k) => format!("loadl {}", k),
            Instruction::StoreLocal(k) => format!("storel {}", k),
            _ => "other".to_string(),
        })
        .collect()
}

#[test]
fn binary_and_unary_expressions() {
    let e = Expression::Binary {
        left: num(1.0),
        op: BinaryOp::Add,
        right: Box::new(Expression::Unary { op: UnaryOp::Neg, expr: ident("x") }),
    };
    let mut code = vec![Instruction::Pop];
    assert!(generate_expression_instructions(&e, &mut code).is_ok());
    assert_eq!(names(&code), vec!["pop", "num 1", "load x", "un Neg", "bin Add"]);
}

#[test]
fn calls_members_and_indexes() {
    let e = Expression::Call {
        callee: Box::new(Expression::Member { object: ident("console"), property: ident("log") }),
        args: vec![Expression::Index { object: ident("a"), index: num(2.0) }, Expression::Literal(Literal::Null)],
    };
    let mut code = Vec::new();
    generate_expression_instructions(&e, &mut code).unwrap();
    assert_eq!(
        names(&code),
        vec!["load a", "num 2", "gete", "null", "load console", "str log", "getp", "call 2"]
    );
}

#[test]
fn object_and_array_literals() {
    let e = Expression::Array(vec![
        Expression::Object(vec![("k".to_string(), Expression::Literal(Literal::Boolean(true)))]),
        Expression::Literal(Literal::String("s".to_string())),
        Expression::Literal(Literal::Undefined),
    ]);
    let mut code = Vec::new();
    generate_expression_instructions(&e, &mut code).unwrap();
    assert_eq!(
        names(&code),
        vec![
            "arr", "obj", "bool true", "str k", "setp", "num 0", "sete", "str s", "num 1", "sete", "undef", "num 2",
            "sete"
        ]
    );
    match code[5] {
        Instruction::PushNumber(bits) => assert_eq!(bits, 0.0f64.to_bits()),
        _ => panic!("expected the index"),
    }
}

#[test]
fn array_indexes_are_float_bit_patterns() {
    let elems: Vec<Expression> = (0..300).map(|_| Expression::Literal(Literal::Null)).collect();
    let mut code = Vec::new();
    generate_expression_instructions(&Expression::Array(elems), &mut code).unwrap();
    for i in 0..300usize {
        match code[1 + 3 * i + 1] {
            Instruction::PushNumber(bits) => assert_eq!(bits, (i as f64).to_bits()),
            _ => panic!("expected an index"),
        }
    }
}

#[test]
fn assignments_store_by_target() {
    let mut code = Vec::new();
    generate_expression_instructions(&Expression::Assignment { left: ident("x"), right: num(3.0) }, &mut code).unwrap();
    assert_eq!(names(&code), vec!["num 3", "store x"]);
    let mut code = Vec::new();
    let member = Box::new(Expression::Member { object: ident("o"), property: ident("p") });
    generate_expression_instructions(&Expression::Assignment { left: member, right: num(4.0) }, &mut code).unwrap();
    assert_eq!(names(&code), vec!["num 4", "load o", "load p", "setp"]);
    let mut code = Vec::new();
    let index = Box::new(Expression::Index { object: ident("a"), index: num(0.0) });
    generate_expression_instructions(&Expression::Assignment { left: index, right: num(5.0) }, &mut code).unwrap();
    assert_eq!(names(&code), vec!["num 5", "load a", "num 0", "sete"]);
    let mut code = Vec::new();
    generate_expression_instructions(&Expression::Assignment { left: num(1.0), right: num(6.0) }, &mut code).unwrap();
    assert_eq!(names(&code), vec!["num 6", "pop"]);
}

#[test]
fn conditionals_jump_over_their_branches() {
    let e = Expression::Conditional {
        test: ident("t"),
        consequent: Box::new(Expression::Binary { left: ident("a"), op: BinaryOp::Mul, right: ident("b") }),
        alternate: ident("c"),
    };
    let mut code = vec![Instruction::Pop, Instruction::Pop];
    generate_expression_instructions(&e, &mut code).unwrap();
    assert_eq!(
        names(&code),
        vec!["pop", "pop", "load t", "jif 5", "load a", "load b", "bin Mul", "jump 1", "load c"]
    );
}

fn stmt_names(s: &Statement) -> Vec<String> {
    let mut code = Vec::new();
    assert!(generate_statement_instructions(s, &mut code).is_ok());
    names(&code)
}

#[test]
fn declarations_store_their_names() {
    let s = Statement::VariableDeclaration { name: "x".to_string(), initializer: Some(*num(3.0)) };
    assert_eq!(stmt_names(&s), vec!["num 3", "store x"]);
    let s = Statement::VariableDeclaration { name: "y".to_string(), initializer: None };
    assert_eq!(stmt_names(&s), vec!["undef", "store y"]);
    assert_eq!(stmt_names(&Statement::TypeAlias { name: "T".to_string() }), vec!["type T"]);
    assert_eq!(stmt_names(&Statement::InterfaceDeclaration { name: "I".to_string() }), vec!["interface I"]);
}

#[test]
fn functions_and_classes_carry_their_bodies() {
    let f = Statement::FunctionDeclaration {
        name: "f".to_string(),
        params: vec!["a".to_string(), "b".to_string()],
        body: vec![Statement::Return(Some(*ident("a")))],
    };
    assert_eq!(stmt_names(&f), vec!["fn f 2", "store f", "body [load a, ret, ret]"]);
    let c = Statement::ClassDeclaration {
        name: "C".to_string(),
        methods: vec![Method { name: "m".to_string(), params: vec![], body: vec![Statement::Return(None)] }],
    };
    assert_eq!(stmt_names(&c), vec!["class C", "store C", "classbody [method m, body [undef, ret, ret]]"]);
    let e = Expression::ArrowFunction { params: vec!["v".to_string()], body: ident("v") };
    let mut code = Vec::new();
    generate_expression_instructions(&e, &mut code).unwrap();
    assert_eq!(names(&code), vec!["fn arrow 1", "body [load v, ret]"]);
}

#[test]
fn if_statement_jumps_over_branches() {
    let s = Statement::If {
        test: *ident("c"),
        consequent: Box::new(Statement::Break),
        alternate: Some(Box::new(Statement::Block(vec![Statement::Continue, Statement::Expression(*ident("z"))]))),
    };
    assert_eq!(stmt_names(&s), vec!["load c", "jif 5", "jloop 1", "jump 3", "jloop 0", "load z", "pop"]);
    let s = Statement::If { test: *ident("c"), consequent: Box::new(Statement::Break), alternate: None };
    assert_eq!(stmt_names(&s), vec!["load c", "jif 2", "jloop 1", "jump 0"]);
}

#[test]
fn while_loop_jumps_back_to_its_test() {
    let s = Statement::While { test: *ident("c"), body: Box::new(Statement::Expression(*ident("x"))) };
    let mut code = vec![Instruction::Pop];
    generate_statement_instructions(&s, &mut code).unwrap();
    // the backward jump is the start minus the length, wrapped to 32 bits
    let back = 1u32.wrapping_sub(5);
    assert_eq!(names(&code), vec!["pop".to_string(), "load c".into(), "jif 3".into(), "load x".into(), "pop".into(), format!("jump {}", back)]);
}

#[test]
fn for_loop_patches_its_exit_jump() {
    let s = Statement::For {
        init: Some(Box::new(Statement::VariableDeclaration { name: "i".to_string(), initializer: Some(*num(0.0)) })),
        test: Some(*ident("c")),
        update: Some(*ident("u")),
        body: Box::new(Statement::Break),
    };
    let back = 2u32.wrapping_sub(7);
    assert_eq!(
        stmt_names(&s),
        vec![
            "num 0".to_string(), "store i".into(), "load c".into(), "jif 4".into(), "jloop 1".into(), "load u".into(),
            "pop".into(), format!("jump {}", back)
        ]
    );
    // a test longer than one instruction leaves the exit jump unpatched
    let s = Statement::For {
        init: None,
        test: Some(Expression::Unary { op: UnaryOp::Not, expr: ident("c") }),
        update: None,
        body: Box::new(Statement::Break),
    };
    let back = 0u32.wrapping_sub(4);
    assert_eq!(stmt_names(&s), vec!["load c".to_string(), "un Not".into(), "jif 0".into(), "jloop 1".into(), format!("jump {}", back)]);
}

#[test]
fn locals_are_read_and_written_by_slot() {
    let locals = vec![("x".to_string(), 0usize), ("y".to_string(), 1), ("x".to_string(), 2)];
    let e = Expression::Assignment {
        left: ident("y"),
        right: Box::new(Expression::Binary { left: ident("x"), op: BinaryOp::Add, right: ident("g") }),
    };
    let mut code = Vec::new();
    generate_expression_with_locals(&e, &mut code, &locals).unwrap();
    assert_eq!(names(&code), vec!["loadl 2", "load g", "bin Add", "storel 1"]);
    let f = Expression::Function { params: vec!["g".to_string()], body: vec![Statement::Return(Some(*ident("g")))] };
    let mut code = Vec::new();
    generate_expression_with_locals(&f, &mut code, &locals).unwrap();
    assert_eq!(names(&code), vec!["fn anonymous 1", "body [loadl 0, ret, ret]"]);
    let mut code = Vec::new();
    generate_expression_instructions(&f, &mut code).unwrap();
    assert_eq!(names(&code), vec!["fn anonymous 1", "body [load g, ret, ret]"]);
    let s = Statement::VariableDeclaration { name: "y".to_string(), initializer: None };
    let mut code = Vec::new();
    generate_statement_with_locals(&s, &mut code, &locals).unwrap();
    assert_eq!(names(&code), vec!["undef", "storel 1"]);
    let d = Statement::FunctionDeclaration { name: "h".to_string(), params: vec![], body: vec![Statement::Expression(*ident("x"))] };
    let mut code = Vec::new();
    generate_statement_with_locals(&d, &mut code, &locals).unwrap();
    assert_eq!(names(&code), vec!["fn h 0", "store h", "body [load x, pop, ret]"]);
}

#[test]
fn constant_windows_fold_when_a_fold_is_given() {
    let code = vec![
        Instruction::PushNumber(1f64.to_bits()),
        Instruction::PushNumber(2f64.to_bits()),
        Instruction::BinaryOp(BinaryOp::Add),
        Instruction::LoadVariable("x".to_string()),
        Instruction::PushNull,
        Instruction::BinaryOp(BinaryOp::Mul),
    ];
    // a fold is given at every position; only windows of two constants
    // and an operator take it
    let folds: Vec<Option<Instruction>> = (0..code.len()).map(|_| Some(Instruction::PushNumber(3f64.to_bits()))).collect();
    let out = optimize_instructions(&code, &folds);
    assert_eq!(names(&out), vec!["num 3", "load x", "null", "bin Mul"]);
    let none: Vec<Option<Instruction>> = (0..code.len()).map(|_| None).collect();
    let out = optimize_instructions(&code, &none);
    assert_eq!(names(&out), names(&code));
}
