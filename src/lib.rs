// Instrumentation of a function body with trace statements.
//
// `model`: statements, functions and items, with their mathematical views.
// `rewrite`: the statement classifier, the trace emitter and the block
// transformer, each against a recursive specification.
// `laws`: what holds of every instrumented block.
// `emit`: writing an instrumented function back as source code.
pub mod model;
pub mod rewrite;
pub mod laws;
pub mod emit;
