//! What holds of every parse.
use crate::lexer::SpecToken;
use crate::parser::grammar::{block, end_of_input, expression, lemma_end_of_input, program, remaining};
use crate::parser::expr::SpecExpr;
use vstd::prelude::*;

verus! {

/// Parsing gives at most one result per token: each statement, parsed or
/// refused, consumes at least one token. With no token left, it gives none.
pub proof fn lemma_program_length(ts: Seq<SpecToken>, p: int, id: int)
    ensures
        program(ts, p, id).len() <= remaining(ts, p),
    decreases remaining(ts, p),
{
    reveal_with_fuel(program, 1);
    if 0 <= p < ts.len() {
        let b = block(ts, p, id);
        lemma_program_length(ts, p + 1 + b.extra, id + b.ids);
    }
}

/// With tokens left, parsing gives at least one result; at or past the end
/// of the tokens it gives none, and an expression meets the end of input. So
/// once `parse` has run, parsing again gives nothing.
pub proof fn lemma_parse_at_end(ts: Seq<SpecToken>, p: int, id: int)
    requires
        0 <= p,
    ensures
        p < ts.len() ==> program(ts, p, id).len() >= 1,
        p >= ts.len() ==> program(ts, p, id) == Seq::<Result<crate::parser::stmt::SpecStmt, crate::parser::grammar::SpecParseError>>::empty(),
        p >= ts.len() ==> expression(ts, p, id) == end_of_input::<SpecExpr>(),
{
    reveal_with_fuel(program, 1);
    lemma_program_length(ts, p, id);
    lemma_end_of_input(ts, p, id);
}

} // verus!
