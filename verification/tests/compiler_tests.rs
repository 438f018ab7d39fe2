use typescript::codegen::{BinaryOp, UnaryOp};
use typescript::compiler::cache::{compute_hash, digest_to_hex, CacheMetadata};
use typescript::compiler::codegen::CodeGenerator;
use typescript::compiler::context::CompilationOptions;
use typescript::compiler::ir_generator::tokenize;
use typescript::compiler::optimizer::{OptimizationLevel, Optimizer};
use typescript::compiler::CompilationStage;
use typescript::language::TypeScriptFeature;
use typescript::webidl::WebIdlProcessor;
use typescript::error::TsError;
use typescript::CompileOptions;

#[test]
fn code_generator_stays_in_its_stage() {
    let mut g = CodeGenerator::new();
    assert_eq!(g.current_stage(), CompilationStage::CodeGeneration);
    g.reset();
    assert_eq!(g.current_stage(), CompilationStage::CodeGeneration);
    assert_eq!(CodeGenerator::default().current_stage(), CompilationStage::CodeGeneration);
}

#[test]
fn optimizer_levels() {
    let mut o = Optimizer::new();
    assert_eq!(o.current_stage(), CompilationStage::Optimization);
    assert_eq!(o.optimization_level(), OptimizationLevel::High);
    o.set_optimization_level(OptimizationLevel::Basic);
    assert_eq!(o.optimization_level(), OptimizationLevel::Basic);
    o.reset();
    assert_eq!(o.optimization_level(), OptimizationLevel::High);
    let w = Optimizer::with_level(OptimizationLevel::NoOptimization);
    assert_eq!(w.optimization_level(), OptimizationLevel::NoOptimization);
    assert_eq!(w.current_stage(), CompilationStage::Optimization);
    assert_eq!(Optimizer::default().optimization_level(), OptimizationLevel::High);
    assert!(OptimizationLevel::Basic < OptimizationLevel::High);
}

#[test]
fn compilation_options_defaults() {
    let o = CompilationOptions::default();
    assert!(!o.strict);
    assert!(o.incremental);
    assert!(o.parallel);
    assert!(o.parallel_threads >= 1);
    assert!(o.source_map);
    assert_eq!(o.target, "es2020");
    assert_eq!(o.module, "esnext");
    assert!(o.out_dir.is_none());
}

#[test]
fn compile_options_default_is_all_off() {
    let o = CompileOptions::default();
    assert!(!o.strict && !o.enable_jit && !o.enable_type_checking);
    assert!(!o.enable_performance_monitoring && !o.enable_garbage_collection && !o.source_map);
    assert_eq!(o.target_es_version, "");
    assert_eq!(o.module_resolution, "");
}

#[test]
fn hash_of_empty_source() {
    assert_eq!(compute_hash(""), "e3b0c44298fc1c149afbf4c8996fb92427ae41e4649b934ca495991b7852b855");
}

#[test]
fn hash_of_abc() {
    assert_eq!(compute_hash("abc"), "ba7816bf8f01cfea414140de5dae2223b00361a396177a9cb410ff61f20015ad");
    assert_eq!(compute_hash("abc").len(), 64);
    assert_ne!(compute_hash("abc"), compute_hash("abd"));
}

#[test]
fn digest_hex_digits() {
    assert_eq!(digest_to_hex(&[0x00, 0x0f, 0xa0, 0xff]), "000fa0ff");
    assert_eq!(digest_to_hex(&[]), "");
}

#[test]
fn cache_metadata_holds_its_fields() {
    let mut deps = std::collections::HashSet::new();
    deps.insert(String::from("a.ts"));
    let m = CacheMetadata {
        hash: compute_hash("x"),
        created_at: std::time::SystemTime::now(),
        dependencies: deps,
        stage: CompilationStage::SemanticAnalysis,
    };
    assert_eq!(m.stage, CompilationStage::SemanticAnalysis);
    assert!(m.dependencies.contains("a.ts"));
}

#[test]
fn tokenize_splits_words_and_punctuation() {
    assert_eq!(tokenize("let x = a+b;"), vec!["let", "x", "=", "a", "+", "b", ";"]);
    assert_eq!(tokenize("  foo(bar)\n\tbaz  "), vec!["foo", "(", "bar", ")", "baz"]);
    assert_eq!(tokenize(""), Vec::<String>::new());
    assert_eq!(tokenize("a.b[0]"), vec!["a", ".", "b", "[", "0", "]"]);
    assert_eq!(tokenize("x==y"), vec!["x", "=", "=", "y"]);
}

#[test]
fn tokenize_keeps_other_characters_together() {
    assert_eq!(tokenize("\"hi\" 'x'"), vec!["\"hi\"", "'x'"]);
    assert_eq!(tokenize("été\u{3000}ok"), vec!["été", "ok"]);
}

#[test]
fn enums_compare() {
    assert_eq!(BinaryOp::Add, BinaryOp::Add);
    assert_ne!(BinaryOp::Shr, BinaryOp::UShr);
    assert_ne!(UnaryOp::TypeOf, UnaryOp::Void);
    assert_eq!(TypeScriptFeature::Generics, TypeScriptFeature::Generics);
    assert_ne!(TypeScriptFeature::NoEval, TypeScriptFeature::NoWith);
}

#[test]
fn webidl_conversion_outcomes() {
    let mut p = WebIdlProcessor::new();
    assert_eq!(p.get_typescript_definitions(), "");
    assert!(p.apply_conversion(Ok(String::from("interface A {}"))).is_ok());
    assert_eq!(p.get_typescript_definitions(), "interface A {}");
    match p.apply_conversion(Err(String::from("line 1: unexpected token"))) {
        Err(TsError::SyntaxError(m)) => assert_eq!(m, "WebIDL parse error: line 1: unexpected token"),
        _ => panic!("expected a syntax error"),
    }
    assert_eq!(p.get_typescript_definitions(), "interface A {}");
}

#[test]
fn tokenize_white_space_matches_the_standard_library() {
    let punctuation = "+-*/=<>!&|(){}[];:,.";
    for c in char::MIN..=char::MAX {
        let source = format!("a{}b", c);
        let tokens = tokenize(&source);
        if c.is_whitespace() {
            assert_eq!(tokens, vec!["a", "b"], "{:?}", c);
        } else if punctuation.contains(c) {
            assert_eq!(tokens, vec!["a".to_string(), c.to_string(), "b".to_string()]);
        } else {
            assert_eq!(tokens, vec![source.clone()]);
        }
    }
}
