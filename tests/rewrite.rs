use sledgehammer::model::{Function, Statement};
use sledgehammer::rewrite::{post_text, pre_text, rewrite_function, trace, transform, transform_block};

fn simple(text: &str) -> Statement {
    Statement::Simple { text: text.to_string() }
}

fn for_loop(pattern: &str, iterable: &str, body: Vec<Statement>) -> Statement {
    Statement::ForLoop {
        prefix: String::new(),
        pattern: pattern.to_string(),
        iterable: iterable.to_string(),
        body,
    }
}

fn traced(fn_name: &str, message: &str) -> Statement {
    Statement::Trace { line: format!("[SLEDGEHAMMER {}] {}", fn_name, message) }
}

fn without_traces(block: Vec<Statement>) -> Vec<Statement> {
    let mut out = Vec::new();
    for stmt in block {
        match stmt {
            Statement::Trace { .. } => {}
            Statement::ForLoop { prefix, pattern, iterable, body } => out.push(Statement::ForLoop {
                prefix,
                pattern,
                iterable,
                body: without_traces(body),
            }),
            other => out.push(other),
        }
    }
    out
}

fn sample_block() -> Vec<Statement> {
    vec![
        simple("let x = 1 ;"),
        for_loop("i", "0 .. x", vec![simple("g (i) ;"), for_loop("j", "v", vec![simple("h (j) ;")])]),
        simple("if c { for k in w { k ; } }"),
        simple("x"),
    ]
}

#[test]
fn example_print_then_loop() {
    let body = vec![simple("print(1);"), for_loop("i", "0..3", vec![simple("print(i);")])];
    let expected = vec![
        traced("f", "print(1);"),
        simple("print(1);"),
        traced("f", "for i in 0..3 {"),
        for_loop("i", "0..3", vec![traced("f", "print(i);"), simple("print(i);")]),
        traced("f", "}"),
    ];
    assert_eq!(transform_block("f", body), expected);
}

#[test]
fn trace_line_format() {
    assert_eq!(
        trace("test_inner", "println ! (\"{}\" , i) ;"),
        Statement::Trace { line: "[SLEDGEHAMMER test_inner] println ! (\"{}\" , i) ;".to_string() }
    );
}

#[test]
fn pre_text_of_simple_is_its_text() {
    assert_eq!(pre_text(&simple("test_inner () ;")), "test_inner () ;");
    assert_eq!(post_text(&simple("test_inner () ;")), None);
}

#[test]
fn loop_texts_are_header_and_brace() {
    let l = for_loop("i", "0 .. 10", vec![]);
    assert_eq!(pre_text(&l), "for i in 0 .. 10 {");
    assert_eq!(post_text(&l), Some("}".to_string()));
}

#[test]
fn trace_statement_texts() {
    let t = traced("f", "x ;");
    assert_eq!(pre_text(&t), "[SLEDGEHAMMER f] x ;");
    assert_eq!(post_text(&t), None);
}

#[test]
fn empty_block_stays_empty() {
    assert_eq!(transform_block("f", vec![]), vec![]);
}

#[test]
fn simple_statement_gets_one_trace_before() {
    let out = transform_block("f", vec![simple("a ;"), simple("b ;")]);
    assert_eq!(out, vec![traced("f", "a ;"), simple("a ;"), traced("f", "b ;"), simple("b ;")]);
}

#[test]
fn loop_is_bracketed() {
    let out = transform_block("f", vec![for_loop("x", "xs", vec![simple("b1 ;"), simple("b2 ;")])]);
    let inner = transform_block("f", vec![simple("b1 ;"), simple("b2 ;")]);
    assert_eq!(
        out,
        vec![traced("f", "for x in xs {"), for_loop("x", "xs", inner), traced("f", "}")]
    );
}

#[test]
fn nested_loops_recurse() {
    let out = transform_block("g", vec![for_loop("i", "a", vec![for_loop("j", "b", vec![simple("s ;")])])]);
    let expected = vec![
        traced("g", "for i in a {"),
        for_loop(
            "i",
            "a",
            vec![
                traced("g", "for j in b {"),
                for_loop("j", "b", vec![traced("g", "s ;"), simple("s ;")]),
                traced("g", "}"),
            ],
        ),
        traced("g", "}"),
    ];
    assert_eq!(out, expected);
}

#[test]
fn loop_inside_conditional_is_opaque() {
    let s = "if c { for i in v { f (i) ; } }";
    assert_eq!(transform_block("f", vec![simple(s)]), vec![traced("f", s), simple(s)]);
}

#[test]
fn existing_trace_is_left_alone() {
    let t = traced("f", "earlier");
    assert_eq!(transform_block("f", vec![traced("f", "earlier")]), vec![t]);
}

#[test]
fn removing_traces_gives_back_the_block() {
    assert_eq!(without_traces(transform_block("h", sample_block())), sample_block());
}

#[test]
fn transform_rewrites_only_loops() {
    assert_eq!(transform("f", simple("a ;")), simple("a ;"));
    assert_eq!(
        transform("f", for_loop("i", "v", vec![simple("a ;")])),
        for_loop("i", "v", vec![traced("f", "a ;"), simple("a ;")])
    );
}

#[test]
fn loop_prefix_is_kept() {
    let l = Statement::ForLoop {
        prefix: "'outer :".to_string(),
        pattern: "i".to_string(),
        iterable: "v".to_string(),
        body: vec![simple("break 'outer ;")],
    };
    let out = transform_block("f", vec![l]);
    assert_eq!(
        out[1],
        Statement::ForLoop {
            prefix: "'outer :".to_string(),
            pattern: "i".to_string(),
            iterable: "v".to_string(),
            body: vec![traced("f", "break 'outer ;"), simple("break 'outer ;")],
        }
    );
    assert_eq!(out[0], traced("f", "for i in v {"));
}

#[test]
fn function_metadata_passes_through() {
    let f = Function {
        outer: "# [inline] pub".to_string(),
        signature: "fn work (n : u32) -> u32".to_string(),
        name: "work".to_string(),
        body: vec![simple("n")],
    };
    let r = rewrite_function(f);
    assert_eq!(r.outer, "# [inline] pub");
    assert_eq!(r.signature, "fn work (n : u32) -> u32");
    assert_eq!(r.name, "work");
    assert_eq!(r.body, vec![traced("work", "n"), simple("n")]);
}
