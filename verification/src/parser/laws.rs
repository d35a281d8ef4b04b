//! What holds of every parse.

use vstd::prelude::*;
use super::grammar::{
    at_end, lemma_parse_expression_rest, name_of, parse_assign_expression, parse_expression,
    parse_ident_expression, parse_integer, parse_program, parse_return_expression, peek_of,
    statement_end, ParsedProgram,
};
use crate::ast::expressions::ExprView;
use super::ParserView;
use crate::lexer::stream::{lemma_tokens_from_step, lex};
use crate::lexer::token::{eof_token, TokenType, TokenView};

verus! {

/// What a parser that starts on a fresh lexer over `source` gives when it parses the
/// whole program.
pub open spec fn parse_source(source: Seq<char>) -> ParsedProgram {
    parse_program(ParserView::starting(lex(source)).pending)
}

/// A parser that starts on the empty source has `EOF` as its current token and peeks at
/// nothing.
pub proof fn start_on_empty_source()
    ensures
        ParserView::starting(lex(Seq::empty())).pending == seq![eof_token()],
        peek_of(ParserView::starting(lex(Seq::empty())).pending) is None,
{
    lemma_tokens_from_step(Seq::empty(), 0);
}

/// Parsing is a function of the source text: a source that is parsed twice gives the
/// same expressions, the same diagnostics and the same tokens left over.
pub proof fn reparse_gives_the_same(first: Seq<char>, second: Seq<char>)
    requires
        first == second,
    ensures
        parse_source(first).expressions == parse_source(second).expressions,
        parse_source(first).diagnostics == parse_source(second).diagnostics,
        parse_source(first).rest == parse_source(second).rest,
{
}

/// An expression that is parsed from the current token on records no diagnostic: an
/// assignment is only tried where `=` follows the name.
pub proof fn parse_expression_records_nothing(tokens: Seq<TokenView>)
    ensures
        parse_expression(tokens).diagnostics == Seq::<Seq<char>>::empty(),
        parse_ident_expression(tokens).diagnostics == Seq::<Seq<char>>::empty(),
        parse_integer(tokens).diagnostics == Seq::<Seq<char>>::empty(),
        parse_return_expression(tokens).diagnostics == Seq::<Seq<char>>::empty(),
        tokens.len() > 1 && tokens[1].kind == TokenType::ASSIGN ==> parse_assign_expression(
            tokens,
        ).diagnostics == Seq::<Seq<char>>::empty(),
    decreases tokens.len(),
{
    if tokens.len() > 1 {
        let after = tokens.skip(1);
        parse_expression_records_nothing(after);
        if after.len() > 1 {
            parse_expression_records_nothing(after.skip(1));
        }
    }
}

/// A whole parse records no diagnostic.
pub proof fn parse_program_records_nothing(tokens: Seq<TokenView>)
    ensures
        parse_program(tokens).diagnostics == Seq::<Seq<char>>::empty(),
    decreases tokens.len(),
{
    if tokens.len() > 1 && tokens[1].kind != TokenType::EOF {
        parse_expression_records_nothing(tokens);
        lemma_parse_expression_rest(tokens);
        let rest = parse_expression(tokens).rest;
        let after = if rest.len() > 1 {
            rest.skip(1)
        } else {
            rest
        };
        parse_program_records_nothing(after);
    }
}

/// A name, `=`, an integer and the token that ends the statement give the assignment of
/// the integer to the name, and the statement's end is left as the current token.
pub proof fn assignment_of_an_integer(tokens: Seq<TokenView>)
    requires
        tokens.len() >= 4,
        tokens[0].kind == TokenType::IDENT,
        tokens[1].kind == TokenType::ASSIGN,
        tokens[2].kind == TokenType::INT,
        tokens[3].kind == TokenType::SEMICOLON || tokens[3].kind == TokenType::NEWLINE,
    ensures
        parse_expression(tokens).expr == Some(
            ExprView::Assign(
                tokens[1],
                name_of(tokens[0]),
                Box::new(ExprView::Value(tokens[2], 0)),
            ),
        ),
        parse_expression(tokens).rest == tokens.skip(3),
{
    let value = tokens.skip(1).skip(1);
    assert(statement_end(value.skip(1)) == value.skip(1));
    assert(parse_ident_expression(tokens) == parse_assign_expression(tokens));
}

/// `return`, an integer and the token that ends the statement give the `return` of the
/// integer, and the statement's end is left as the current token.
pub proof fn return_of_an_integer(tokens: Seq<TokenView>)
    requires
        tokens.len() >= 3,
        tokens[0].kind == TokenType::RETURN,
        tokens[1].kind == TokenType::INT,
        tokens[2].kind == TokenType::SEMICOLON || tokens[2].kind == TokenType::NEWLINE,
    ensures
        parse_expression(tokens).expr == Some(
            ExprView::Return(tokens[0], Box::new(ExprView::Value(tokens[1], 0))),
        ),
        parse_expression(tokens).rest == tokens.skip(2),
{
    let value = tokens.skip(1);
    assert(statement_end(value.skip(1)) == value.skip(1));
    assert(parse_expression(value) == parse_integer(value));
}

/// A whole parse finds at most one expression for every token but the last.
pub proof fn parse_program_is_short(tokens: Seq<TokenView>)
    requires
        tokens.len() > 0,
    ensures
        parse_program(tokens).expressions.len() <= tokens.len() - 1,
    decreases tokens.len(),
{
    if !at_end(tokens) {
        lemma_parse_expression_rest(tokens);
        let rest = parse_expression(tokens).rest;
        let after = if rest.len() > 1 {
            rest.skip(1)
        } else {
            rest
        };
        parse_program_is_short(after);
    }
}

/// A whole parse leaves the stream at its end: no token follows the current one, or
/// `EOF` does.
pub proof fn parse_program_stops_at_end(tokens: Seq<TokenView>)
    ensures
        at_end(parse_program(tokens).rest),
    decreases tokens.len(),
{
    if !at_end(tokens) {
        lemma_parse_expression_rest(tokens);
        let rest = parse_expression(tokens).rest;
        let after = if rest.len() > 1 {
            rest.skip(1)
        } else {
            rest
        };
        parse_program_stops_at_end(after);
    }
}

} // verus!
