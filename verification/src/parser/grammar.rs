//! The grammar, as mathematical functions of the tokens that the parser has before it.
//!
//! The parser's tokens are a sequence: first the current token, then the one it peeks
//! at, then those that the lexer still holds. A production takes that sequence and
//! gives the expression it found, if any, and the sequence that it leaves.

use vstd::prelude::*;
use crate::ast::expressions::ExprView;
use crate::ast::node::NodeView;
use crate::lexer::token::{TokenType, TokenView};

verus! {

/// The token after the current one, if there is one.
pub open spec fn peek_of(tokens: Seq<TokenView>) -> Option<TokenView> {
    if tokens.len() > 1 {
        Some(tokens[1])
    } else {
        None
    }
}

/// The class of the token after the current one, if there is one.
pub open spec fn peek_kind(tokens: Seq<TokenView>) -> Option<TokenType> {
    match peek_of(tokens) {
        Some(next) => Some(next.kind),
        None => None,
    }
}

/// The tokens after one step: the current token is left behind, unless it is the last.
pub open spec fn advanced(tokens: Seq<TokenView>) -> Seq<TokenView> {
    if tokens.len() > 1 {
        tokens.skip(1)
    } else {
        tokens
    }
}

/// The end of the stream: no token follows the current one, or `EOF` does.
pub open spec fn at_end(tokens: Seq<TokenView>) -> bool {
    tokens.len() <= 1 || tokens[1].kind == TokenType::EOF
}

/// The end of a statement: the current token is `;` or a line break, or the stream is
/// at its end.
pub open spec fn at_end_of_expression(tokens: Seq<TokenView>) -> bool {
    ||| tokens[0].kind == TokenType::SEMICOLON
    ||| tokens[0].kind == TokenType::NEWLINE
    ||| at_end(tokens)
}

/// The tokens from the end of the current statement on.
pub open spec fn statement_end(tokens: Seq<TokenView>) -> Seq<TokenView>
    decreases tokens.len(),
{
    if at_end_of_expression(tokens) {
        tokens
    } else {
        statement_end(tokens.skip(1))
    }
}

/// The diagnostic for a token that was expected after the current one and is not
/// there. `found` is the class of the token that stands there, if one does.
pub open spec fn peek_error_message(expected: TokenType, found: Option<TokenType>) -> Seq<char> {
    "expected next token to be "@ + expected.spec_name() + ", got "@ + match found {
        Some(kind) => kind.spec_name(),
        None => "EOF"@,
    } + " instead"@
}

/// What a production gives.
pub ghost struct Parsed {
    /// The expression, if the production found one.
    pub expr: Option<ExprView>,
    /// The tokens that the production leaves, the first of them current.
    pub rest: Seq<TokenView>,
    /// The diagnostics that the production recorded, oldest first.
    pub diagnostics: Seq<Seq<char>>,
}

/// A production that finds nothing and takes no token.
pub open spec fn nothing(tokens: Seq<TokenView>) -> Parsed {
    Parsed { expr: None, rest: tokens, diagnostics: Seq::empty() }
}

/// The node of the name that the token spells.
pub open spec fn name_of(token: TokenView) -> NodeView {
    NodeView::Identifier(token, token.literal)
}

/// An expression, chosen by the class of the current token: a name, an integer or a
/// `return` begins one. No other token does: it is passed over, and no diagnostic says
/// so.
pub open spec fn parse_expression(tokens: Seq<TokenView>) -> Parsed
    decreases tokens.len(), 2nat,
{
    match tokens[0].kind {
        TokenType::IDENT => parse_ident_expression(tokens),
        TokenType::INT => parse_integer(tokens),
        TokenType::RETURN => parse_return_expression(tokens),
        _ => nothing(tokens),
    }
}

/// A name: the target of an assignment where `=` follows it, an expression of its own
/// where `;` or `EOF` follows it, and no expression before any other token.
pub open spec fn parse_ident_expression(tokens: Seq<TokenView>) -> Parsed
    decreases tokens.len(), 1nat,
{
    match peek_of(tokens) {
        Some(next) => match next.kind {
            TokenType::ASSIGN => parse_assign_expression(tokens),
            TokenType::SEMICOLON => create_ident_expression(tokens),
            TokenType::EOF => create_ident_expression(tokens),
            _ => nothing(tokens),
        },
        None => nothing(tokens),
    }
}

/// An assignment: a name, `=`, and an expression. Where the current token is no name,
/// nothing is taken. Where `=` does not follow, nothing is taken and a diagnostic is
/// recorded. Past the `=`, where no expression follows, there is no assignment.
pub open spec fn parse_assign_expression(tokens: Seq<TokenView>) -> Parsed
    decreases tokens.len(), 0nat,
{
    if tokens[0].kind != TokenType::IDENT {
        nothing(tokens)
    } else if tokens.len() > 1 && tokens[1].kind == TokenType::ASSIGN {
        let value = parse_expression(advanced(tokens.skip(1)));
        Parsed {
            expr: match value.expr {
                Some(e) => Some(ExprView::Assign(tokens[1], name_of(tokens[0]), Box::new(e))),
                None => None,
            },
            ..value
        }
    } else {
        Parsed {
            expr: None,
            rest: tokens,
            diagnostics: seq![peek_error_message(TokenType::ASSIGN, peek_kind(tokens))],
        }
    }
}

/// A name that stands alone. Where the current token is no name, nothing is taken.
pub open spec fn create_ident_expression(tokens: Seq<TokenView>) -> Parsed {
    if tokens[0].kind != TokenType::IDENT {
        nothing(tokens)
    } else {
        Parsed {
            expr: Some(ExprView::Identifier(tokens[0], name_of(tokens[0]))),
            rest: advanced(tokens),
            diagnostics: Seq::empty(),
        }
    }
}

/// An integer literal, with the rest of its statement, which is passed over. Its value
/// is always 0.
pub open spec fn parse_integer(tokens: Seq<TokenView>) -> Parsed {
    Parsed {
        expr: Some(ExprView::Value(tokens[0], 0)),
        rest: statement_end(tokens),
        diagnostics: Seq::empty(),
    }
}

/// A `return` and the expression after it. Where no expression follows, or no token at
/// all, there is no `return` expression.
pub open spec fn parse_return_expression(tokens: Seq<TokenView>) -> Parsed
    decreases tokens.len(), 0nat,
{
    if tokens.len() <= 1 {
        nothing(tokens)
    } else {
        let value = parse_expression(tokens.skip(1));
        Parsed {
            expr: match value.expr {
                Some(e) => Some(ExprView::Return(tokens[0], Box::new(e))),
                None => None,
            },
            ..value
        }
    }
}

/// What a whole parse gives.
pub ghost struct ParsedProgram {
    /// The expressions that were found, in the order of the source.
    pub expressions: Seq<ExprView>,
    /// The tokens that the parse leaves.
    pub rest: Seq<TokenView>,
    /// The diagnostics that the parse recorded, oldest first.
    pub diagnostics: Seq<Seq<char>>,
}

/// The expressions of the stream, one after the other, until the stream is at its end.
/// After each attempt, whether it found an expression or not, one more token is left
/// behind.
pub open spec fn parse_program(tokens: Seq<TokenView>) -> ParsedProgram
    decreases tokens.len(),
{
    if at_end(tokens) {
        ParsedProgram { expressions: Seq::empty(), rest: tokens, diagnostics: Seq::empty() }
    } else {
        let first = parse_expression(tokens);
        proof {
            lemma_parse_expression_rest(tokens);
        }
        let others = parse_program(advanced(first.rest));
        ParsedProgram {
            expressions: match first.expr {
                Some(e) => seq![e] + others.expressions,
                None => others.expressions,
            },
            rest: others.rest,
            diagnostics: first.diagnostics + others.diagnostics,
        }
    }
}

/// Whether `rest` is what is left of `tokens` after some of its first tokens, but not
/// all of them, were left behind.
pub open spec fn is_rest_of(rest: Seq<TokenView>, tokens: Seq<TokenView>) -> bool {
    exists|k: int| 0 <= k < tokens.len() && rest == #[trigger] tokens.skip(k)
}

pub proof fn lemma_is_rest_of(rest: Seq<TokenView>, tokens: Seq<TokenView>, k: int)
    requires
        0 <= k < tokens.len(),
        rest == tokens.skip(k),
    ensures
        is_rest_of(rest, tokens),
        0 < rest.len() <= tokens.len(),
        rest.last() == tokens.last(),
{
}

/// What is left of what is left of `tokens` is left of `tokens`.
pub proof fn lemma_is_rest_of_rest(a: Seq<TokenView>, b: Seq<TokenView>, c: Seq<TokenView>)
    requires
        is_rest_of(a, b),
        is_rest_of(b, c),
    ensures
        is_rest_of(a, c),
{
    let j = choose|j: int| 0 <= j < b.len() && a == #[trigger] b.skip(j);
    let k = choose|k: int| 0 <= k < c.len() && b == #[trigger] c.skip(k);
    assert(c.skip(k).skip(j) == c.skip(k + j));
    lemma_is_rest_of(a, c, k + j);
}

/// Passing over a statement leaves a rest of the tokens.
pub proof fn lemma_statement_end_rest(tokens: Seq<TokenView>)
    requires
        tokens.len() > 0,
    ensures
        is_rest_of(statement_end(tokens), tokens),
        at_end_of_expression(statement_end(tokens)),
    decreases tokens.len(),
{
    if at_end_of_expression(tokens) {
        assert(tokens.skip(0) == tokens);
        lemma_is_rest_of(tokens, tokens, 0);
    } else {
        lemma_statement_end_rest(tokens.skip(1));
        lemma_is_rest_of(tokens.skip(1), tokens, 1);
        lemma_is_rest_of_rest(statement_end(tokens), tokens.skip(1), tokens);
    }
}

/// One step leaves a rest of the tokens.
pub proof fn lemma_advanced_rest(tokens: Seq<TokenView>)
    requires
        tokens.len() > 0,
    ensures
        is_rest_of(advanced(tokens), tokens),
{
    if tokens.len() > 1 {
        lemma_is_rest_of(tokens.skip(1), tokens, 1);
    } else {
        assert(tokens.skip(0) == tokens);
        lemma_is_rest_of(tokens, tokens, 0);
    }
}

/// Every production leaves a rest of the tokens that it was given: it never gives a
/// token back, and never takes the last one.
pub proof fn lemma_parse_expression_rest(tokens: Seq<TokenView>)
    requires
        tokens.len() > 0,
    ensures
        is_rest_of(parse_expression(tokens).rest, tokens),
        is_rest_of(parse_ident_expression(tokens).rest, tokens),
        is_rest_of(parse_assign_expression(tokens).rest, tokens),
        is_rest_of(create_ident_expression(tokens).rest, tokens),
        is_rest_of(parse_integer(tokens).rest, tokens),
        is_rest_of(parse_return_expression(tokens).rest, tokens),
    decreases tokens.len(),
{
    assert(tokens.skip(0) == tokens);
    lemma_is_rest_of(tokens, tokens, 0);
    lemma_advanced_rest(tokens);
    lemma_statement_end_rest(tokens);
    if tokens.len() > 1 {
        let after = tokens.skip(1);
        lemma_is_rest_of(after, tokens, 1);
        lemma_parse_expression_rest(after);
        lemma_is_rest_of_rest(parse_expression(after).rest, after, tokens);
        lemma_advanced_rest(after);
        lemma_is_rest_of_rest(advanced(after), after, tokens);
        if advanced(after).len() < tokens.len() {
            lemma_parse_expression_rest(advanced(after));
            lemma_is_rest_of_rest(parse_expression(advanced(after)).rest, advanced(after), tokens);
        }
    }
}

} // verus!
