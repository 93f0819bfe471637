use vstd::prelude::*;

verus! {

/// The library's mathematical picture of a statement: every text is a sequence
/// of characters and every block a sequence of statements.
pub enum StatementModel {
    Simple { text: Seq<char> },
    ForLoop { prefix: Seq<char>, pattern: Seq<char>, iterable: Seq<char>, body: Seq<StatementModel> },
    Trace { line: Seq<char> },
}

/// One statement of a function body.
#[derive(Debug, PartialEq, Eq)]
pub enum Statement {
    /// Any statement other than a `for` loop, held as its source text.
    Simple { text: String },
    /// A `for` loop: the attributes and label written before `for` (often
    /// empty), the pattern, the iterated expression, and the loop body.
    ForLoop { prefix: String, pattern: String, iterable: String, body: Vec<Statement> },
    /// A synthetic statement that prints `line` to standard error.
    Trace { line: String },
}

pub open spec fn block_view(b: Seq<Statement>) -> Seq<StatementModel>
    decreases b,
{
    if b.len() == 0 {
        Seq::empty()
    } else {
        block_view(b.drop_last()).push(statement_view(b.last()))
    }
}

pub open spec fn statement_view(s: Statement) -> StatementModel
    decreases s,
{
    match s {
        Statement::Simple { text } => StatementModel::Simple { text: text@ },
        Statement::ForLoop { prefix, pattern, iterable, body } => StatementModel::ForLoop {
            prefix: prefix@,
            pattern: pattern@,
            iterable: iterable@,
            body: block_view(body@),
        },
        Statement::Trace { line } => StatementModel::Trace { line: line@ },
    }
}

impl View for Statement {
    type V = StatementModel;

    open spec fn view(&self) -> StatementModel {
        statement_view(*self)
    }
}

/// The mathematical picture of a function item.
pub struct FunctionModel {
    pub outer: Seq<char>,
    pub signature: Seq<char>,
    pub name: Seq<char>,
    pub body: Seq<StatementModel>,
}

/// A function item: its attributes and visibility (`outer`), its signature,
/// its name, and the statements of its body.
#[derive(Debug, PartialEq, Eq)]
pub struct Function {
    pub outer: String,
    pub signature: String,
    pub name: String,
    pub body: Vec<Statement>,
}

impl View for Function {
    type V = FunctionModel;

    open spec fn view(&self) -> FunctionModel {
        FunctionModel {
            outer: self.outer@,
            signature: self.signature@,
            name: self.name@,
            body: block_view(self.body@),
        }
    }
}

/// An item handed over for instrumentation: a function, or anything else
/// (held as its source text).
#[derive(Debug, PartialEq, Eq)]
pub enum Item {
    Function(Function),
    Other { text: String },
}

/// Why an expansion fails.
#[derive(Debug, Clone, Copy, PartialEq, Eq, Structural)]
pub enum ExpandError {
    /// The item is not a function.
    MalformedInput,
    /// The instrumented code does not read back as tokens.
    UnrenderableStatement,
}

/// Viewing a block statement by statement: appending a statement appends its view.
pub proof fn lemma_block_view_push(b: Seq<Statement>, s: Statement)
    ensures
        block_view(b.push(s)) == block_view(b).push(s@),
{
    assert(b.push(s).drop_last() =~= b);
}

} // verus!
