use vstd::prelude::*;
use crate::model::{block_view, lemma_block_view_push, Function, FunctionModel, statement_view, Statement, StatementModel};

verus! {

/// The line that a trace statement of function `name` prints for `message`.
pub open spec fn trace_line(name: Seq<char>, message: Seq<char>) -> Seq<char> {
    "[SLEDGEHAMMER "@ + name + "] "@ + message
}

pub open spec fn trace_of(name: Seq<char>, message: Seq<char>) -> StatementModel {
    StatementModel::Trace { line: trace_line(name, message) }
}

/// The header traced before a `for` loop.
pub open spec fn loop_header(pattern: Seq<char>, iterable: Seq<char>) -> Seq<char> {
    "for "@ + pattern + " in "@ + iterable + " {"@
}

/// The text traced before a statement.
pub open spec fn pre_message(s: StatementModel) -> Seq<char> {
    match s {
        StatementModel::Simple { text } => text,
        StatementModel::ForLoop { pattern, iterable, .. } => loop_header(pattern, iterable),
        StatementModel::Trace { line } => line,
    }
}

/// The text traced after a statement, if any.
pub open spec fn post_message(s: StatementModel) -> Option<Seq<char>> {
    match s {
        StatementModel::ForLoop { .. } => Some("}"@),
        _ => None,
    }
}

/// The instrumented form of a block: each statement in order, expanded.
pub open spec fn transformed_block(name: Seq<char>, b: Seq<StatementModel>) -> Seq<StatementModel>
    decreases b, 0int,
{
    if b.len() == 0 {
        Seq::empty()
    } else {
        transformed_block(name, b.drop_last()) + expansion(name, b.last())
    }
}

/// A statement itself after instrumentation: a loop gets its body
/// instrumented, anything else stays as it is.
pub open spec fn rewritten(name: Seq<char>, s: StatementModel) -> StatementModel
    decreases s, 1int,
{
    match s {
        StatementModel::ForLoop { prefix, pattern, iterable, body } => StatementModel::ForLoop {
            prefix,
            pattern,
            iterable,
            body: transformed_block(name, body),
        },
        _ => s,
    }
}

/// What one statement of a block becomes: a trace before it, the statement
/// rewritten, and a trace after it where it has a closing text. A trace
/// statement is left alone.
pub open spec fn expansion(name: Seq<char>, s: StatementModel) -> Seq<StatementModel>
    decreases s, 2int,
{
    if s is Trace {
        seq![s]
    } else {
        let post = match post_message(s) {
            Some(m) => seq![trace_of(name, m)],
            None => Seq::empty(),
        };
        seq![trace_of(name, pre_message(s)), rewritten(name, s)] + post
    }
}

/// Instrumenting a block with one more statement appends that statement's expansion.
pub proof fn lemma_transformed_push(name: Seq<char>, b: Seq<StatementModel>, s: StatementModel)
    ensures
        transformed_block(name, b.push(s)) == transformed_block(name, b) + expansion(name, s),
{
    assert(b.push(s).drop_last() =~= b);
}

/// Builds a statement that prints `[SLEDGEHAMMER <fn_name>] <message>` to
/// standard error.
pub fn trace(fn_name: &str, message: &str) -> (r: Statement)
    ensures
        r@ == trace_of(fn_name@, message@),
{
    let mut line = String::from_str("[SLEDGEHAMMER ");
    line.append(fn_name);
    line.append("] ");
    line.append(message);
    Statement::Trace { line }
}

/// The text traced before a statement: its source text, or for a loop its
/// header `for <pattern> in <iterable> {`.
pub fn pre_text(stmt: &Statement) -> (r: String)
    ensures
        r@ == pre_message(stmt@),
{
    match stmt {
        Statement::Simple { text } => text.clone(),
        Statement::ForLoop { pattern, iterable, .. } => {
            let mut header = String::from_str("for ");
            header.append(pattern.as_str());
            header.append(" in ");
            header.append(iterable.as_str());
            header.append(" {");
            header
        },
        Statement::Trace { line } => line.clone(),
    }
}

/// The text traced after a statement: `}` for a loop, nothing otherwise.
pub fn post_text(stmt: &Statement) -> (r: Option<String>)
    ensures
        post_message(stmt@) == (match r {
            Some(t) => Some(t@),
            None => None,
        }),
{
    match stmt {
        Statement::ForLoop { .. } => Some(String::from_str("}")),
        _ => None,
    }
}

/// Rewrites one statement in place: a loop gets its body instrumented.
pub fn transform(fn_name: &str, stmt: Statement) -> (r: Statement)
    ensures
        r@ == rewritten(fn_name@, stmt@),
    decreases stmt,
{
    match stmt {
        Statement::ForLoop { prefix, pattern, iterable, body } => {
            let body = transform_block(fn_name, body);
            Statement::ForLoop { prefix, pattern, iterable, body }
        },
        _ => stmt,
    }
}

/// Instruments a block: before each statement a trace of its text, and after
/// each loop a trace of its closing brace. Loop bodies are instrumented in
/// turn; trace statements already present are kept as they are.
pub fn transform_block(fn_name: &str, block: Vec<Statement>) -> (r: Vec<Statement>)
    ensures
        block_view(r@) == transformed_block(fn_name@, block_view(block@)),
    decreases block,
{
    let ghost whole = block@;
    let mut out: Vec<Statement> = Vec::new();
    for stmt in it: block.into_iter()
        invariant
            it.seq() == whole,
            block_view(out@) == transformed_block(fn_name@, block_view(whole.take(it.index() as int))),
    {
        let ghost i = it.index() as int;
        let ghost before = out@;
        let ghost model = stmt@;
        proof {
            assert(stmt == whole[i]);
            assert(whole.take(i + 1) =~= whole.take(i).push(whole[i]));
            lemma_block_view_push(whole.take(i), stmt);
            lemma_transformed_push(fn_name@, block_view(whole.take(i)), model);
        }
        if matches!(stmt, Statement::Trace { .. }) {
            out.push(stmt);
            proof {
                lemma_block_view_push(before, out@.last());
                assert(out@ =~= before.push(out@.last()));
            }
        } else {
            let pre = trace(fn_name, pre_text(&stmt).as_str());
            let post = post_text(&stmt);
            let stmt = transform(fn_name, stmt);
            out.push(pre);
            proof {
                lemma_block_view_push(before, pre);
            }
            let ghost mid = out@;
            out.push(stmt);
            proof {
                lemma_block_view_push(mid, stmt);
            }
            match post {
                Some(text) => {
                    let closing = trace(fn_name, text.as_str());
                    let ghost last = out@;
                    out.push(closing);
                    proof {
                        lemma_block_view_push(last, closing);
                        assert(expansion(fn_name@, model) =~= seq![pre@, stmt@, closing@]);
                        assert(block_view(out@) =~= block_view(before) + expansion(fn_name@, model));
                    }
                },
                None => {
                    proof {
                        assert(expansion(fn_name@, model) =~= seq![pre@, stmt@]);
                        assert(block_view(out@) =~= block_view(before) + expansion(fn_name@, model));
                    }
                },
            }
        }
    }
    proof {
        assert(whole.take(whole.len() as int) =~= whole);
    }
    out
}

/// A function after instrumentation: everything but the body is kept.
pub open spec fn rewritten_function(f: FunctionModel) -> FunctionModel {
    FunctionModel { body: transformed_block(f.name, f.body), ..f }
}

/// Instruments the body of a function; its attributes, visibility,
/// signature and name are handed back untouched.
pub fn rewrite_function(f: Function) -> (r: Function)
    ensures
        r@ == rewritten_function(f@),
        r.outer == f.outer,
        r.signature == f.signature,
        r.name == f.name,
{
    let Function { outer, signature, name, body } = f;
    let body = transform_block(name.as_str(), body);
    Function { outer, signature, name, body }
}

} // verus!
