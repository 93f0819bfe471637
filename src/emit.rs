use vstd::prelude::*;
use crate::model::{
    block_view, lemma_block_view_push, ExpandError, Function, FunctionModel, Item, Statement,
    StatementModel,
};
use crate::rewrite::{rewrite_function, rewritten_function};

verus! {

/// Whether `literal` is a Rust string literal that denotes `text`. Which of
/// the possible spellings (escapes) is used is left open.
pub uninterp spec fn is_string_literal_of(literal: Seq<char>, text: Seq<char>) -> bool;

/// Relies on quote's `ToTokens` for `str`, which appends proc_macro2's
/// `Literal::string(text)`: a string literal, escapes included, that denotes
/// `text`. Its spelling may differ between a macro expansion and other code.
#[verifier::external_body]
fn string_literal(text: &str) -> (r: String)
    ensures
        is_string_literal_of(r@, text@),
{
    quote::ToTokens::to_token_stream(text).to_string()
}

/// The code of a trace statement whose line is written as `literal`.
pub open spec fn trace_code(literal: Seq<char>) -> Seq<char> {
    "eprintln!(\"{}\", "@ + literal + ");"@
}

/// The code of a `for` loop whose body is written as `inner`.
pub open spec fn loop_code(
    prefix: Seq<char>,
    pattern: Seq<char>,
    iterable: Seq<char>,
    inner: Seq<char>,
) -> Seq<char> {
    prefix + " for "@ + pattern + " in "@ + iterable + " { "@ + inner + "}"@
}

/// Whether `code` is source code of the statement `s`: a simple statement
/// is its text, a loop is written around code of its body, and a trace is
/// a print of a string literal of its line.
pub open spec fn is_statement_code(s: StatementModel, code: Seq<char>) -> bool
    decreases s, 1int,
{
    match s {
        StatementModel::Simple { text } => code == text,
        StatementModel::ForLoop { prefix, pattern, iterable, body } => exists|inner: Seq<char>|
            #![trigger loop_code(prefix, pattern, iterable, inner)]
            is_block_code(body, inner) && code == loop_code(prefix, pattern, iterable, inner),
        StatementModel::Trace { line } => exists|literal: Seq<char>|
            #![trigger is_string_literal_of(literal, line)]
            is_string_literal_of(literal, line) && code == trace_code(literal),
    }
}

/// Whether `code` is source code of the block `b`: code of each statement in
/// order, each followed by a space.
pub open spec fn is_block_code(b: Seq<StatementModel>, code: Seq<char>) -> bool
    decreases b, 0int,
{
    if b.len() == 0 {
        code.len() == 0
    } else {
        exists|init: Seq<char>, last: Seq<char>|
            #![trigger init + last]
            is_block_code(b.drop_last(), init) && is_statement_code(b.last(), last) && code
                == init + last + " "@
    }
}

/// The code of a function item whose body is written as `inner`.
pub open spec fn function_code(outer: Seq<char>, signature: Seq<char>, inner: Seq<char>) -> Seq<
    char,
> {
    outer + " "@ + signature + " { "@ + inner + "}"@
}

/// Whether `code` is source code of the function item `f`.
pub open spec fn is_function_code(f: FunctionModel, code: Seq<char>) -> bool {
    exists|inner: Seq<char>|
        #![trigger function_code(f.outer, f.signature, inner)]
        is_block_code(f.body, inner) && code == function_code(f.outer, f.signature, inner)
}

/// Writes the statement that prints the string literal `literal`.
pub fn trace_statement_code(literal: &str) -> (r: String)
    ensures
        r@ == trace_code(literal@),
{
    let mut code = String::from_str("eprintln!(\"{}\", ");
    code.append(literal);
    code.append(");");
    code
}

/// Writes a statement back as source code.
pub fn render_statement(s: &Statement) -> (r: String)
    ensures
        is_statement_code(s@, r@),
    decreases s, 1int,
{
    match s {
        Statement::Simple { text } => {
            let code = text.clone();
            assert(s@ == StatementModel::Simple { text: text@ });
            assert(is_statement_code(s@, code@));
            code
        },
        Statement::ForLoop { prefix, pattern, iterable, body } => {
            let mut code = prefix.clone();
            code.append(" for ");
            code.append(pattern.as_str());
            code.append(" in ");
            code.append(iterable.as_str());
            code.append(" { ");
            let inner = render_block(body);
            code.append(inner.as_str());
            code.append("}");
            proof {
                assert(is_block_code(block_view(body@), inner@));
                assert(code@ == loop_code(prefix@, pattern@, iterable@, inner@));
                assert(s@ is ForLoop && s@->body == block_view(body@));
                assert(s@->prefix == prefix@ && s@->pattern == pattern@ && s@->iterable == iterable@);
                assert(is_statement_code(s@, code@));
            }
            code
        },
        Statement::Trace { line } => {
            let literal = string_literal(line.as_str());
            let code = trace_statement_code(literal.as_str());
            assert(is_string_literal_of(literal@, line@) && code@ == trace_code(literal@));
            assert(s@ is Trace && s@->line == line@);
            assert(is_statement_code(s@, code@));
            code
        },
    }
}

/// Writes a block's statements back as source code, each followed by a space.
pub fn render_block(b: &Vec<Statement>) -> (r: String)
    ensures
        is_block_code(block_view(b@), r@),
    decreases b, 0int,
{
    let mut code = String::new();
    let mut i: usize = 0;
    proof {
        assert(block_view(b@.take(0)) =~= Seq::<StatementModel>::empty()) by {
            assert(b@.take(0).len() == 0);
        }
    }
    while i < b.len()
        invariant
            i <= b.len(),
            is_block_code(block_view(b@.take(i as int)), code@),
        decreases b.len() - i,
    {
        let ghost views = block_view(b@.take(i as int));
        let ghost before = code@;
        proof {
            assert(b@.take(i + 1) =~= b@.take(i as int).push(b@[i as int]));
            lemma_block_view_push(b@.take(i as int), b@[i as int]);
            assert(views.push(b@[i as int]@).drop_last() =~= views);
        }
        let stmt = render_statement(&b[i]);
        code.append(stmt.as_str());
        code.append(" ");
        proof {
            let grown = views.push(b@[i as int]@);
            assert(grown.last() == b@[i as int]@);
            assert(is_block_code(grown.drop_last(), before));
            assert(is_statement_code(grown.last(), stmt@));
            assert(code@ == before + stmt@ + " "@);
            assert(grown.len() > 0);
            assert(is_block_code(grown, code@));
            assert(block_view(b@.take(i + 1)) == grown);
        }
        i = i + 1;
    }
    proof {
        assert(b@.take(b.len() as int) =~= b@);
    }
    code
}

/// Writes a function item back as source code.
pub fn render_function(f: &Function) -> (r: String)
    ensures
        is_function_code(f@, r@),
{
    let mut code = f.outer.clone();
    code.append(" ");
    code.append(f.signature.as_str());
    code.append(" { ");
    let body = render_block(&f.body);
    code.append(body.as_str());
    code.append("}");
    proof {
        assert(is_block_code(f@.body, body@));
        assert(code@ == function_code(f@.outer, f@.signature, body@));
    }
    code
}

/// Instruments an item and writes it back as source code: a function comes
/// back with its body instrumented under its own name; anything else is
/// refused.
pub fn sledgehammer(item: Item) -> (r: Result<String, ExpandError>)
    ensures
        item is Other ==> r == Err::<String, ExpandError>(ExpandError::MalformedInput),
        item matches Item::Function(f) ==> r is Ok && is_function_code(
            rewritten_function(f@),
            r->Ok_0@,
        ),
{
    match item {
        Item::Function(f) => {
            let rewritten = rewrite_function(f);
            Ok(render_function(&rewritten))
        },
        Item::Other { .. } => Err(ExpandError::MalformedInput),
    }
}

} // verus!
