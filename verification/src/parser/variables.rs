//! Variables.

use vstd::prelude::*;
use crate::ast::atom::joined;
use crate::ast::atom::mark;
use crate::ast::variables::BracedVariableVariable;
use crate::ast::variables::SimpleVariable;
use crate::ast::variables::Variable;
use crate::ast::variables::VariableVariable;
use crate::parser::error::Expectation;
use crate::parser::error::Extent;
use crate::parser::error::ParseError;
use crate::parser::error::ParseResult;
use crate::parser::error::kind_at;
use crate::parser::error::span_at;
use crate::parser::error::stopped;
use crate::parser::expressions::create;
use crate::parser::expressions::expression_extent;
use crate::parser::lossless::lemma_lossless_both;
use crate::parser::lossless::lemma_lossless_join3;
use crate::parser::lossless::lemma_lossless_join;
use crate::parser::lossless::lemma_lossless_lexeme;
use crate::parser::lossless::lemma_lossless_mark;
use crate::parser::lossless::lossless;
use crate::parser::state::State;
use crate::parser::state::parsed;
use crate::parser::utils::after;
use crate::parser::utils::closing;
use crate::parser::utils::remaining;
use crate::parser::utils::skip_right_brace;
use crate::parser::utils::value_at;
use crate::token::Token;
use crate::token::TokenKind;

verus! {

/// A simple variable is one `Variable` token.
pub open spec fn simple_variable_extent(tokens: Seq<Token>, pos: int) -> Extent {
    if kind_at(tokens, pos) == TokenKind::Variable {
        Ok(1)
    } else {
        stopped(tokens, pos, pos, Expectation::Variable)
    }
}

/// A variable is `$name`; or `${`, an expression and `}`, where `${` may
/// come as one token or as `$` and `{`; or `$` before another variable.
pub open spec fn dynamic_variable_extent(tokens: Seq<Token>, pos: int) -> Extent
    decreases remaining(tokens, pos), 0int,
{
    match kind_at(tokens, pos) {
        TokenKind::Variable => Ok(1),
        TokenKind::DollarLeftBrace => after(
            1,
            closing(tokens, pos + 1, expression_extent(tokens, pos + 1), TokenKind::RightBrace),
        ),
        TokenKind::Dollar => if kind_at(tokens, pos + 1) == TokenKind::LeftBrace {
            after(
                2,
                closing(
                    tokens,
                    pos + 2,
                    expression_extent(tokens, pos + 2),
                    TokenKind::RightBrace,
                ),
            )
        } else {
            after(1, dynamic_variable_extent(tokens, pos + 1))
        },
        _ => stopped(tokens, pos, pos, Expectation::Variable),
    }
}

impl SimpleVariable {
    /// The node is the token at `pos`.
    pub open spec fn stands_at(self, tokens: Seq<Token>, pos: int) -> bool {
        &&& kind_at(tokens, pos) == TokenKind::Variable
        &&& self.span == span_at(tokens, pos)
        &&& self.name@ == value_at(tokens, pos)
    }
}

impl Variable {
    /// The node is the tree of the variable that starts at `pos`.
    pub open spec fn stands_at(self, tokens: Seq<Token>, pos: int) -> bool
        decreases self,
    {
        match self {
            Variable::SimpleVariable(variable) => variable.stands_at(tokens, pos),
            Variable::VariableVariable(ladder) => {
                &&& kind_at(tokens, pos) == TokenKind::Dollar
                &&& kind_at(tokens, pos + 1) != TokenKind::LeftBrace
                &&& ladder.span == span_at(tokens, pos)
                &&& ladder.variable.stands_at(tokens, pos + 1)
            },
            Variable::BracedVariableVariable(braced) => {
                let inner = if kind_at(tokens, pos) == TokenKind::Dollar {
                    pos + 2
                } else {
                    pos + 1
                };
                &&& kind_at(tokens, pos) == TokenKind::DollarLeftBrace || (kind_at(tokens, pos)
                    == TokenKind::Dollar && kind_at(tokens, pos + 1) == TokenKind::LeftBrace)
                &&& braced.start == if kind_at(tokens, pos) == TokenKind::Dollar {
                    joined(span_at(tokens, pos), span_at(tokens, pos + 1))
                } else {
                    span_at(tokens, pos)
                }
                &&& braced.variable.stands_at(tokens, inner)
                &&& expression_extent(tokens, inner) matches Ok(n) && braced.end == span_at(
                    tokens,
                    inner + n,
                )
            },
        }
    }
}

/// Reads `$name`.
pub fn simple_variable(state: &mut State) -> (r: ParseResult<SimpleVariable>)
    requires
        old(state).wf(),
    ensures
        parsed(
            *old(state),
            *final(state),
            simple_variable_extent(old(state).tokens@, old(state).cursor as int),
            r,
        ),
        final(state).attributes@ == old(state).attributes@,
        r matches Ok(variable) ==> variable.stands_at(old(state).tokens@, old(state).cursor as int),
        r matches Ok(node) ==> lossless(
            node.atoms(),
            old(state).tokens@,
            old(state).cursor as int,
            final(state).cursor as int,
        ),
{
    let ghost tokens = state.tokens@;
    let ghost pos = state.cursor as int;
    let current = state.current();
    if current.kind == TokenKind::Variable {
        let span = current.span;
        let name = current.value.clone();
        state.next();
        proof {
            lemma_lossless_lexeme(TokenKind::Variable, span, name@, tokens, pos);
        }
        return Ok(SimpleVariable { span, name });
    }
    Err(
        ParseError::UnexpectedToken {
            expected: Expectation::Variable,
            found: current.kind,
            span: current.span,
        },
    )
}

/// Reads a variable of any form.
pub fn dynamic_variable(state: &mut State) -> (r: ParseResult<Variable>)
    requires
        old(state).wf(),
    ensures
        parsed(
            *old(state),
            *final(state),
            dynamic_variable_extent(old(state).tokens@, old(state).cursor as int),
            r,
        ),
        final(state).attributes@ == old(state).attributes@,
        r matches Ok(variable) ==> variable.stands_at(old(state).tokens@, old(state).cursor as int),
        r matches Ok(node) ==> lossless(
            node.atoms(),
            old(state).tokens@,
            old(state).cursor as int,
            final(state).cursor as int,
        ),
    decreases remaining(old(state).tokens@, old(state).cursor as int), 0int,
{
    let ghost tokens = state.tokens@;
    let ghost pos = state.cursor as int;
    let current = state.current();
    let kind = current.kind;
    let span = current.span;
    match kind {
        TokenKind::Variable => {
            let name = current.value.clone();
            state.next();
            proof {
                lemma_lossless_lexeme(TokenKind::Variable, span, name@, tokens, pos);
            }
            Ok(Variable::SimpleVariable(SimpleVariable { span, name }))
        },
        TokenKind::DollarLeftBrace => {
            state.next();
            let expr = create(state)?;
            let ghost close = state.cursor as int;
            let ghost inner = expr.atoms();
            let end = skip_right_brace(state)?;
            proof {
                lemma_lossless_mark(TokenKind::DollarLeftBrace, span, tokens, pos);
                lemma_lossless_mark(TokenKind::RightBrace, end, tokens, close);
                lemma_lossless_join3(
                    seq![mark(TokenKind::DollarLeftBrace, span)],
                    inner,
                    seq![mark(TokenKind::RightBrace, end)],
                    tokens,
                    pos,
                    pos + 1,
                    close,
                    close + 1,
                );
            }
            Ok(
                Variable::BracedVariableVariable(
                    BracedVariableVariable { start: span, variable: Box::new(expr), end },
                ),
            )
        },
        TokenKind::Dollar => {
            let peeked = state.peek();
            if peeked.kind == TokenKind::LeftBrace {
                // `${` that came as two tokens: the node is the same as
                // for one, from the start of `$` to the end of `{`
                let start = span.to(peeked.span);
                state.next();
                state.next();
                let expr = create(state)?;
                let ghost close = state.cursor as int;
                let ghost inner = expr.atoms();
                let end = skip_right_brace(state)?;
                proof {
                    lemma_lossless_both(start, tokens, pos);
                    lemma_lossless_mark(TokenKind::RightBrace, end, tokens, close);
                    lemma_lossless_join3(
                        seq![mark(TokenKind::DollarLeftBrace, start)],
                        inner,
                        seq![mark(TokenKind::RightBrace, end)],
                        tokens,
                        pos,
                        pos + 2,
                        close,
                        close + 1,
                    );
                }
                Ok(
                    Variable::BracedVariableVariable(
                        BracedVariableVariable { start, variable: Box::new(expr), end },
                    ),
                )
            } else {
                state.next();
                let variable = dynamic_variable(state)?;
                proof {
                    lemma_lossless_mark(TokenKind::Dollar, span, tokens, pos);
                    lemma_lossless_join(
                        seq![mark(TokenKind::Dollar, span)],
                        variable.atoms(),
                        tokens,
                        pos,
                        pos + 1,
                        state.cursor as int,
                    );
                }
                Ok(
                    Variable::VariableVariable(
                        VariableVariable { span, variable: Box::new(variable) },
                    ),
                )
            }
        },
        _ => Err(
            ParseError::UnexpectedToken { expected: Expectation::Variable, found: kind, span },
        ),
    }
}

} // verus!
