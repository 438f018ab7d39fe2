use typescript::codegen::generator::{Expression, Literal, Statement};
use typescript::compiler::ir_generator::tokenize;
use typescript::compiler::parser::{parse_program, parse_statement};

fn numbers(tokens: &[String]) -> Vec<Option<u64>> {
    tokens.iter().map(|t| t.parse::<f64>().ok().map(f64::to_bits)).collect()
}

fn parse(src: &str) -> Vec<Statement> {
    let tokens = tokenize(src);
    parse_program(&tokens, &numbers(&tokens))
}

fn is_ident(e: &Expression, name: &str) -> bool {
    matches!(e, Expression::Identifier(n) if n == name)
}

fn is_number(e: &Expression, x: f64) -> bool {
    matches!(e, Expression::Literal(Literal::Number(b)) if *b == x.to_bits())
}

#[test]
fn variable_declarations_with_types_and_values() {
    let s = parse("let x : number = 42 ; const y ;");
    assert_eq!(s.len(), 2);
    match &s[0] {
        Statement::VariableDeclaration { name, initializer: Some(e) } => {
            assert_eq!(name, "x");
            assert!(is_number(e, 42.0));
        },
        _ => panic!("expected a declaration"),
    }
    assert!(matches!(&s[1], Statement::VariableDeclaration { name, initializer: None } if name == "y"));
}

#[test]
fn literals_and_parentheses() {
    let s = parse("true ; null ; undefined ; 'hi' ; ( z ) ;");
    assert_eq!(s.len(), 5);
    assert!(matches!(&s[0], Statement::Expression(Expression::Literal(Literal::Boolean(true)))));
    assert!(matches!(&s[1], Statement::Expression(Expression::Literal(Literal::Null))));
    assert!(matches!(&s[2], Statement::Expression(Expression::Literal(Literal::Undefined))));
    assert!(matches!(&s[3], Statement::Expression(Expression::Literal(Literal::String(v))) if v == "hi"));
    assert!(matches!(&s[4], Statement::Expression(e) if is_ident(e, "z")));
}

#[test]
fn functions_with_parameters_and_bodies() {
    let s = parse("function add(a, b): number { return a; }");
    assert_eq!(s.len(), 1);
    match &s[0] {
        Statement::FunctionDeclaration { name, params, body } => {
            assert_eq!(name, "add");
            assert_eq!(params, &vec!["a".to_string(), "b".to_string()]);
            assert_eq!(body.len(), 1);
            assert!(matches!(&body[0], Statement::Return(Some(e)) if is_ident(e, "a")));
        },
        _ => panic!("expected a function"),
    }
}

#[test]
fn classes_with_methods() {
    let s = parse("class C extends B { m(x) { break; } n() { } }");
    assert_eq!(s.len(), 1);
    match &s[0] {
        Statement::ClassDeclaration { name, methods } => {
            assert_eq!(name, "C");
            assert_eq!(methods.len(), 2);
            assert_eq!(methods[0].name, "m");
            assert_eq!(methods[0].params, vec!["x".to_string()]);
            assert!(matches!(methods[0].body[0], Statement::Break));
            assert_eq!(methods[1].name, "n");
            assert!(methods[1].body.is_empty());
        },
        _ => panic!("expected a class"),
    }
}

#[test]
fn control_flow_statements() {
    let s = parse("if (c) break else continue while (d) x; for (let i = 0; i; u) return;");
    assert_eq!(s.len(), 3);
    match &s[0] {
        Statement::If { test, consequent, alternate: Some(a) } => {
            assert!(is_ident(test, "c"));
            assert!(matches!(**consequent, Statement::Break));
            assert!(matches!(**a, Statement::Continue));
        },
        _ => panic!("expected an if"),
    }
    assert!(matches!(&s[1], Statement::While { test, body } if is_ident(test, "d") && matches!(&**body, Statement::Expression(e) if is_ident(e, "x"))));
    match &s[2] {
        Statement::For { init: Some(i), test: Some(t), update: Some(u), body } => {
            assert!(matches!(&**i, Statement::VariableDeclaration { name, .. } if name == "i"));
            assert!(is_ident(t, "i"));
            assert!(is_ident(u, "u"));
            assert!(matches!(**body, Statement::Return(None)));
        },
        _ => panic!("expected a for"),
    }
}

#[test]
fn malformed_statements_report_their_end() {
    let tokens = tokenize("if x");
    let (s, end) = parse_statement(&tokens, &numbers(&tokens), 0);
    assert!(s.is_none());
    // `if` and the token in place of the parenthesis are read
    assert_eq!(end, 2);
    let tokens = tokenize("function f ( a");
    let (s, end) = parse_statement(&tokens, &numbers(&tokens), 0);
    assert!(s.is_none());
    assert_eq!(end, 4);
    let tokens = tokenize("x");
    let (s, end) = parse_statement(&tokens, &numbers(&tokens), 1);
    assert!(s.is_none());
    assert_eq!(end, 1);
}

#[test]
fn punctuation_alone_is_a_name() {
    let s = parse("} ;");
    assert_eq!(s.len(), 1);
    assert!(matches!(&s[0], Statement::Expression(e) if is_ident(e, "}")));
}
