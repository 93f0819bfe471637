use sledgehammer::emit::{render_block, render_function, render_statement, sledgehammer, trace_statement_code};
use sledgehammer::model::{ExpandError, Function, Item, Statement};

fn simple(text: &str) -> Statement {
    Statement::Simple { text: text.to_string() }
}

fn function(signature: &str, name: &str, body: Vec<Statement>) -> Function {
    Function {
        outer: String::new(),
        signature: signature.to_string(),
        name: name.to_string(),
        body,
    }
}

#[test]
fn constant_is_refused() {
    let item = Item::Other { text: "const X : u32 = 1 ;".to_string() };
    assert_eq!(sledgehammer(item), Err(ExpandError::MalformedInput));
}

#[test]
fn every_function_comes_back() {
    let f = function("fn id (c : u8) -> u8", "id", vec![simple("c")]);
    let expected = " fn id (c : u8) -> u8 { eprintln!(\"{}\", \"[SLEDGEHAMMER id] c\"); c }";
    assert_eq!(sledgehammer(Item::Function(f)), Ok(expected.to_string()));
}

#[test]
fn c_string_in_body_is_kept() {
    let f = function("fn f ()", "f", vec![simple("let s = c\"a\" ;")]);
    let expected = " fn f () { eprintln!(\"{}\", \"[SLEDGEHAMMER f] let s = c\\\"a\\\" ;\"); let s = c\"a\" ; }";
    assert_eq!(sledgehammer(Item::Function(f)), Ok(expected.to_string()));
}

#[test]
fn function_is_instrumented_as_code() {
    let body = vec![
        simple("test_inner () ;"),
        simple("println ! (\"done!\") ;"),
    ];
    let f = function("fn test ()", "test", body);
    let expected = " fn test () { eprintln!(\"{}\", \"[SLEDGEHAMMER test] test_inner () ;\"); \
                    test_inner () ; \
                    eprintln!(\"{}\", \"[SLEDGEHAMMER test] println ! (\\\"done!\\\") ;\"); \
                    println ! (\"done!\") ; }";
    assert_eq!(sledgehammer(Item::Function(f)), Ok(expected.to_string()));
}

#[test]
fn loop_is_instrumented_as_code() {
    let body = vec![Statement::ForLoop {
        prefix: String::new(),
        pattern: "i".to_string(),
        iterable: "0 .. 10".to_string(),
        body: vec![simple("println ! (\"{}\" , i) ;")],
    }];
    let mut f = function("fn test_inner ()", "test_inner", body);
    f.outer = "pub".to_string();
    let expected = "pub fn test_inner () { \
                    eprintln!(\"{}\", \"[SLEDGEHAMMER test_inner] for i in 0 .. 10 {\");  for i in 0 .. 10 { \
                    eprintln!(\"{}\", \"[SLEDGEHAMMER test_inner] println ! (\\\"{}\\\" , i) ;\"); \
                    println ! (\"{}\" , i) ; } \
                    eprintln!(\"{}\", \"[SLEDGEHAMMER test_inner] }\"); }";
    assert_eq!(sledgehammer(Item::Function(f)), Ok(expected.to_string()));
}

#[test]
fn trace_renders_escaped_literal() {
    let t = Statement::Trace { line: "say \"hi\"".to_string() };
    assert_eq!(render_statement(&t), "eprintln!(\"{}\", \"say \\\"hi\\\"\");");
}

#[test]
fn trace_statement_code_wraps_literal() {
    assert_eq!(trace_statement_code("\"x\""), "eprintln!(\"{}\", \"x\");");
}

#[test]
fn block_renders_each_statement() {
    assert_eq!(render_block(&vec![simple("a ;"), simple("b")]), "a ; b ");
    assert_eq!(render_block(&vec![]), "");
}

#[test]
fn function_renders_metadata_then_body() {
    let mut f = function("fn f ()", "f", vec![simple("x ;")]);
    f.outer = "# [test]".to_string();
    assert_eq!(render_function(&f), "# [test] fn f () { x ; }");
}
