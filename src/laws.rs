use vstd::prelude::*;
use crate::model::StatementModel;
use crate::rewrite::{expansion, loop_header, post_message, pre_message, rewritten, trace_of, transformed_block};

verus! {

/// A block with every trace statement taken out, at every depth of loop
/// nesting.
pub open spec fn without_traces(b: Seq<StatementModel>) -> Seq<StatementModel>
    decreases b, 0int,
{
    if b.len() == 0 {
        Seq::empty()
    } else if b.last() is Trace {
        without_traces(b.drop_last())
    } else {
        without_traces(b.drop_last()).push(stripped(b.last()))
    }
}

/// A statement with the trace statements inside its loop body taken out.
pub open spec fn stripped(s: StatementModel) -> StatementModel
    decreases s, 1int,
{
    match s {
        StatementModel::ForLoop { prefix, pattern, iterable, body } => StatementModel::ForLoop {
            prefix,
            pattern,
            iterable,
            body: without_traces(body),
        },
        _ => s,
    }
}

/// A block that holds no trace statement, at any depth of loop nesting.
pub open spec fn trace_free(b: Seq<StatementModel>) -> bool
    decreases b,
{
    if b.len() == 0 {
        true
    } else {
        &&& trace_free(b.drop_last())
        &&& !(b.last() is Trace)
        &&& (b.last() matches StatementModel::ForLoop { body, .. } ==> trace_free(body))
    }
}

/// Instrumenting a concatenation instruments each part.
pub proof fn lemma_transformed_concat(name: Seq<char>, a: Seq<StatementModel>, b: Seq<StatementModel>)
    ensures
        transformed_block(name, a + b) == transformed_block(name, a) + transformed_block(name, b),
    decreases b.len(),
{
    if b.len() == 0 {
        assert(a + b =~= a);
        assert(transformed_block(name, a) + transformed_block(name, b) =~= transformed_block(name, a));
    } else {
        assert((a + b).drop_last() =~= a + b.drop_last());
        lemma_transformed_concat(name, a, b.drop_last());
        assert(transformed_block(name, a + b) =~= transformed_block(name, a) + transformed_block(name, b));
    }
}

/// Taking traces out of a concatenation takes them out of each part.
pub proof fn lemma_without_traces_concat(a: Seq<StatementModel>, b: Seq<StatementModel>)
    ensures
        without_traces(a + b) == without_traces(a) + without_traces(b),
    decreases b.len(),
{
    if b.len() == 0 {
        assert(a + b =~= a);
        assert(without_traces(a) + without_traces(b) =~= without_traces(a));
    } else {
        assert((a + b).drop_last() =~= a + b.drop_last());
        lemma_without_traces_concat(a, b.drop_last());
        assert(without_traces(a + b) =~= without_traces(a) + without_traces(b));
    }
}

/// Taking traces out of a one-statement block.
proof fn lemma_without_traces_single(x: StatementModel)
    ensures
        without_traces(seq![x]) == (if x is Trace {
            Seq::<StatementModel>::empty()
        } else {
            seq![stripped(x)]
        }),
{
    assert(seq![x].drop_last() =~= Seq::<StatementModel>::empty());
    assert(without_traces(Seq::<StatementModel>::empty()) == Seq::<StatementModel>::empty());
    assert(Seq::<StatementModel>::empty().push(stripped(x)) =~= seq![stripped(x)]);
}

/// What is left of one statement's expansion once its traces are taken out.
proof fn lemma_without_traces_expansion(name: Seq<char>, s: StatementModel)
    ensures
        without_traces(expansion(name, s)) == (if s is Trace {
            Seq::<StatementModel>::empty()
        } else {
            seq![stripped(rewritten(name, s))]
        }),
{
    let e = expansion(name, s);
    if s is Trace {
        lemma_without_traces_single(s);
    } else {
        let t = trace_of(name, pre_message(s));
        let r = rewritten(name, s);
        lemma_without_traces_single(t);
        lemma_without_traces_single(r);
        lemma_without_traces_concat(seq![t], seq![r]);
        assert(seq![t] + seq![r] =~= seq![t, r]);
        if let Some(m) = post_message(s) {
            let u = trace_of(name, m);
            lemma_without_traces_single(u);
            lemma_without_traces_concat(seq![t, r], seq![u]);
            assert(e =~= seq![t, r] + seq![u]);
        } else {
            assert(e =~= seq![t, r]);
        }
        assert(Seq::<StatementModel>::empty() + seq![stripped(r)] =~= seq![stripped(r)]);
        assert(seq![stripped(r)] + Seq::<StatementModel>::empty() =~= seq![stripped(r)]);
    }
}

/// Instrumentation only inserts trace statements: once they are all taken
/// out again, the statements that remain are those of the input, in the
/// same order, at every depth.
pub proof fn lemma_order_preserved(name: Seq<char>, b: Seq<StatementModel>)
    ensures
        without_traces(transformed_block(name, b)) == without_traces(b),
    decreases b, 0int,
{
    if b.len() > 0 {
        let s = b.last();
        lemma_order_preserved(name, b.drop_last());
        lemma_without_traces_concat(transformed_block(name, b.drop_last()), expansion(name, s));
        lemma_without_traces_expansion(name, s);
        if let StatementModel::ForLoop { body, .. } = s {
            lemma_order_preserved(name, body);
        }
        if s is Trace {
            assert(without_traces(b.drop_last()) + Seq::<StatementModel>::empty() =~= without_traces(b.drop_last()));
        } else {
            assert(stripped(rewritten(name, s)) == stripped(s));
            assert(without_traces(b.drop_last()).push(stripped(s)) =~= without_traces(b.drop_last()) + seq![stripped(s)]);
        }
    }
}

/// For a block without trace statements, taking out the traces of its
/// instrumented form gives back exactly the block.
pub proof fn lemma_original_statements_kept(name: Seq<char>, b: Seq<StatementModel>)
    requires
        trace_free(b),
    ensures
        without_traces(transformed_block(name, b)) == b,
{
    lemma_order_preserved(name, b);
    lemma_without_traces_of_trace_free(b);
}

/// Taking traces out of a block that holds none leaves it as it is.
pub proof fn lemma_without_traces_of_trace_free(b: Seq<StatementModel>)
    requires
        trace_free(b),
    ensures
        without_traces(b) == b,
    decreases b, 0int,
{
    if b.len() > 0 {
        lemma_without_traces_of_trace_free(b.drop_last());
        if let StatementModel::ForLoop { body, .. } = b.last() {
            assert(trace_free(body));
            lemma_without_traces_of_trace_free(body);
        }
        assert(stripped(b.last()) == b.last());
        assert(b.drop_last().push(b.last()) =~= b);
    }
}

/// A statement other than a loop gets exactly one trace of its text right
/// before it, and nothing after it, wherever it stands in a block; the
/// statement itself is kept as it is, whatever its text holds.
pub proof fn lemma_simple_shape(
    name: Seq<char>,
    before: Seq<StatementModel>,
    s: StatementModel,
    after: Seq<StatementModel>,
)
    requires
        s is Simple,
    ensures
        transformed_block(name, before + seq![s] + after) == transformed_block(name, before) + seq![
            trace_of(name, pre_message(s)),
            s,
        ] + transformed_block(name, after),
{
    lemma_transformed_concat(name, before + seq![s], after);
    lemma_transformed_concat(name, before, seq![s]);
    assert(seq![s].drop_last() =~= Seq::<StatementModel>::empty());
    assert(expansion(name, s) =~= seq![trace_of(name, pre_message(s)), s]);
    assert(transformed_block(name, Seq::<StatementModel>::empty()) == Seq::<StatementModel>::empty());
    assert(seq![s].last() == s);
    assert(Seq::<StatementModel>::empty() + expansion(name, s) =~= expansion(name, s));
    assert(transformed_block(name, seq![s]) =~= expansion(name, s));
}

/// A loop is bracketed: a trace of its header right before it, the loop with
/// its body instrumented in the same way, and a trace of `}` right after it.
pub proof fn lemma_loop_bracketing(
    name: Seq<char>,
    before: Seq<StatementModel>,
    prefix: Seq<char>,
    pattern: Seq<char>,
    iterable: Seq<char>,
    body: Seq<StatementModel>,
    after: Seq<StatementModel>,
)
    ensures
        ({
            let s = StatementModel::ForLoop { prefix, pattern, iterable, body };
            let instrumented = StatementModel::ForLoop {
                prefix,
                pattern,
                iterable,
                body: transformed_block(name, body),
            };
            transformed_block(name, before + seq![s] + after) == transformed_block(name, before)
                + seq![trace_of(name, loop_header(pattern, iterable)), instrumented, trace_of(name, "}"@)]
                + transformed_block(name, after)
        }),
{
    let s = StatementModel::ForLoop { prefix, pattern, iterable, body };
    lemma_transformed_concat(name, before + seq![s], after);
    lemma_transformed_concat(name, before, seq![s]);
    assert(seq![s].drop_last() =~= Seq::<StatementModel>::empty());
    assert(transformed_block(name, Seq::<StatementModel>::empty()) == Seq::<StatementModel>::empty());
    assert(seq![s].last() == s);
    assert(Seq::<StatementModel>::empty() + expansion(name, s) =~= expansion(name, s));
    assert(transformed_block(name, seq![s]) =~= expansion(name, s));
}

/// The block reached from `b` by following `path`: each index picks a loop of
/// the current block, whose body becomes the current block. `None` where an
/// index is out of range or picks something other than a loop.
pub open spec fn nested_block(b: Seq<StatementModel>, path: Seq<int>) -> Option<Seq<StatementModel>>
    decreases path.len(),
{
    if path.len() == 0 {
        Some(b)
    } else if 0 <= path[0] < b.len() && b[path[0]] is ForLoop {
        nested_block(b[path[0]]->body, path.drop_first())
    } else {
        None
    }
}

/// Where the statement at index `i` of a block stands once the block is
/// instrumented: after the expansions of the statements before it and the
/// trace that precedes it.
pub open spec fn instrumented_index(name: Seq<char>, b: Seq<StatementModel>, i: int) -> int {
    transformed_block(name, b.take(i)).len() + 1int
}

/// The path in the instrumented block that matches `path` in `b`.
pub open spec fn instrumented_path(name: Seq<char>, b: Seq<StatementModel>, path: Seq<int>) -> Seq<int>
    decreases path.len(),
{
    if path.len() == 0 {
        Seq::empty()
    } else if 0 <= path[0] < b.len() && b[path[0]] is ForLoop {
        seq![instrumented_index(name, b, path[0])] + instrumented_path(
            name,
            b[path[0]]->body,
            path.drop_first(),
        )
    } else {
        Seq::empty()
    }
}

/// The loop at index `i` of a block stands, once the block is instrumented,
/// between a trace of its header and a trace of `}`, with its body
/// instrumented.
pub proof fn lemma_loop_in_place(name: Seq<char>, b: Seq<StatementModel>, i: int)
    requires
        0 <= i < b.len(),
        b[i] is ForLoop,
    ensures
        ({
            let out = transformed_block(name, b);
            let k = instrumented_index(name, b, i);
            let s = b[i];
            &&& 1 <= k && k + 1 < out.len()
            &&& out[k - 1] == trace_of(name, loop_header(s->pattern, s->iterable))
            &&& out[k] == StatementModel::ForLoop {
                prefix: s->prefix,
                pattern: s->pattern,
                iterable: s->iterable,
                body: transformed_block(name, s->body),
            }
            &&& out[k + 1] == trace_of(name, "}"@)
        }),
{
    let s = b[i];
    let before = b.take(i);
    let after = b.skip(i + 1);
    assert(b =~= before + seq![s] + after);
    lemma_loop_bracketing(name, before, s->prefix, s->pattern, s->iterable, s->body, after);
}

/// Loops are bracketed in the same way at every depth of nesting: following
/// the matching path through the instrumented block reaches the instrumented
/// form of the block that `path` reaches in `b`, and each loop of that block
/// stands between a trace of its header and a trace of `}`, its body
/// instrumented in turn.
pub proof fn lemma_bracketing_at_every_depth(
    name: Seq<char>,
    b: Seq<StatementModel>,
    path: Seq<int>,
    j: int,
)
    requires
        nested_block(b, path) is Some,
    ensures
        ({
            let inner = nested_block(b, path)->0;
            let reached = nested_block(transformed_block(name, b), instrumented_path(name, b, path));
            &&& reached == Some(transformed_block(name, inner))
            &&& (0 <= j < inner.len() && inner[j] is ForLoop) ==> {
                let out = transformed_block(name, inner);
                let k = instrumented_index(name, inner, j);
                let s = inner[j];
                &&& 1 <= k && k + 1 < out.len()
                &&& out[k - 1] == trace_of(name, loop_header(s->pattern, s->iterable))
                &&& out[k] == StatementModel::ForLoop {
                    prefix: s->prefix,
                    pattern: s->pattern,
                    iterable: s->iterable,
                    body: transformed_block(name, s->body),
                }
                &&& out[k + 1] == trace_of(name, "}"@)
            }
        }),
    decreases path.len(),
{
    let inner = nested_block(b, path)->0;
    if 0 <= j < inner.len() && inner[j] is ForLoop {
        lemma_loop_in_place(name, inner, j);
    }
    if path.len() > 0 {
        let i = path[0];
        let body = b[i]->body;
        let rest = path.drop_first();
        lemma_loop_in_place(name, b, i);
        lemma_bracketing_at_every_depth(name, body, rest, j);
        let k = instrumented_index(name, b, i);
        let p = instrumented_path(name, b, path);
        assert(p == seq![k] + instrumented_path(name, body, rest));
        assert(p[0] == k);
        assert(p.drop_first() =~= instrumented_path(name, body, rest));
    }
}

} // verus!
