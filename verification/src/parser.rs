//! The parser: two tokens of lookahead over a lexer, and the productions of the grammar.

pub mod grammar;
pub mod laws;

use vstd::prelude::*;
use crate::ast::expressions::{ExprView, Expression};
use crate::ast::node::Node;
use crate::lexer::token::{eof_token, token_view_of, Token, TokenType, TokenView};
use crate::lexer::Lexer;
use crate::program::Program;
use crate::text::text_of_char;
use grammar::{
    advanced, at_end, at_end_of_expression, create_ident_expression,
    lemma_parse_expression_rest, parse_assign_expression, parse_expression,
    parse_ident_expression, parse_integer, parse_program, parse_return_expression,
    peek_error_message, peek_kind, peek_of, statement_end,
};

verus! {

/// A parser over a lexer. It holds the current token and the one after it, and the
/// diagnostics that its productions have recorded.
pub struct Parser<'a> {
    lexer: &'a mut Lexer,
    current_token: Token,
    peek_token: Option<Token>,
    errors: Vec<String>,
}

/// The mathematical value of a [`Parser`].
pub ghost struct ParserView {
    /// The tokens that the parser has before it: the current token, the one it peeks
    /// at, and those that its lexer still holds.
    pub pending: Seq<TokenView>,
    /// The diagnostics recorded so far, oldest first.
    pub errors: Seq<Seq<char>>,
}

impl ParserView {
    /// The parser at its start over a lexer that still holds `stream`: it has the
    /// stream before it, or a lone `EOF` where the lexer holds nothing more, and no
    /// diagnostics.
    pub open spec fn starting(stream: Seq<TokenView>) -> ParserView {
        ParserView {
            pending: if stream.len() == 0 {
                seq![eof_token()]
            } else {
                stream
            },
            errors: Seq::empty(),
        }
    }
}

/// The value of an expression that may be absent.
pub open spec fn view_of(expression: Option<Expression>) -> Option<ExprView> {
    match expression {
        Some(e) => Some(e@),
        None => None,
    }
}

impl<'a> View for Parser<'a> {
    type V = ParserView;

    closed spec fn view(&self) -> ParserView {
        ParserView {
            pending: seq![self.current_token@] + match self.peek_token {
                Some(t) => seq![t@] + self.lexer@.remaining(),
                None => Seq::empty(),
            },
            errors: self.errors.deep_view(),
        }
    }
}

impl<'a> Parser<'a> {
    /// The lexer is well-formed and holds nothing more where the parser peeks at
    /// nothing, and the last of the tokens before the parser is `EOF`.
    pub closed spec fn wf(&self) -> bool {
        &&& self.lexer.wf()
        &&& self.peek_token is None ==> self.lexer@.remaining().len() == 0
        &&& self@.pending.last().kind == TokenType::EOF
    }

    /// A well-formed parser has at least one token before it, and the last is `EOF`.
    pub proof fn lemma_pending(&self)
        requires
            self.wf(),
        ensures
            self@.pending.len() > 0,
            self@.pending.last().kind == TokenType::EOF,
    {
    }

    /// A parser over `lexer`, with the first two tokens that the lexer hands out as the
    /// current token and the one after it.
    pub fn new(lexer: &'a mut Lexer) -> (parser: Self)
        requires
            old(lexer).wf(),
        ensures
            parser.wf(),
            parser@ == ParserView::starting(old(lexer)@.remaining()),
    {
        proof {
            lexer.lemma_remaining();
        }
        let current = match lexer.next() {
            Some(token) => token,
            None => Token::new(TokenType::EOF, text_of_char('\0')),
        };
        proof {
            lexer.lemma_remaining();
        }
        let peek = lexer.next();
        let parser =
            Self { lexer: lexer, current_token: current, peek_token: peek, errors: Vec::new() };
        assert(parser@.errors =~= Seq::<Seq<char>>::empty());
        parser
    }

    /// The diagnostics recorded so far, oldest first.
    pub fn errors(&self) -> (list: Vec<String>)
        ensures
            list.deep_view() == self@.errors,
    {
        self.errors.clone()
    }

    /// The current token.
    pub fn current(&self) -> (token: Token)
        ensures
            token@ == self@.pending[0],
    {
        self.current_token.clone()
    }

    /// The token after the current one. There is none only where the lexer was
    /// exhausted when that token was asked for.
    pub fn peek(&self) -> (token: Option<Token>)
        ensures
            token_view_of(token) == peek_of(self@.pending),
    {
        match &self.peek_token {
            Some(token) => Some(token.clone()),
            None => None,
        }
    }

    /// Moves one token on: the token peeked at becomes the current one, and the next
    /// token of the lexer the one peeked at. Returns the new current token. Where the
    /// parser peeks at nothing, it stays as it is and returns nothing.
    pub fn advance(&mut self) -> (token: Option<Token>)
        requires
            old(self).wf(),
        ensures
            final(self).wf(),
            final(self)@.pending == advanced(old(self)@.pending),
            final(self)@.errors == old(self)@.errors,
            token_view_of(token) == peek_of(old(self)@.pending),
    {
        let result = self.peek();
        match &result {
            Some(token) => {
                self.current_token = token.clone();
                self.peek_token = self.lexer.next();
            },
            None => {},
        }
        result
    }

    /// Parses the expressions of the stream, one after the other, until the stream is
    /// at its end, and returns them with the diagnostics recorded so far. A token that
    /// begins no expression is passed over without a diagnostic, so an empty list of
    /// diagnostics does not say that every token was understood.
    pub fn parse_program(&mut self) -> (parsed: (Program<'a>, Vec<String>))
        requires
            old(self).wf(),
        ensures
            final(self).wf(),
            parsed.0@ == parse_program(old(self)@.pending).expressions,
            final(self)@.pending == parse_program(old(self)@.pending).rest,
            final(self)@.errors == old(self)@.errors + parse_program(
                old(self)@.pending,
            ).diagnostics,
            parsed.1.deep_view() == final(self)@.errors,
    {
        let mut program = Program::new();
        let ghost mut recorded: Seq<Seq<char>> = Seq::empty();
        while !self.is_eof()
            invariant
                self.wf(),
                self@.errors == old(self)@.errors + recorded,
                parse_program(old(self)@.pending).expressions == program@ + parse_program(
                    self@.pending,
                ).expressions,
                parse_program(old(self)@.pending).rest == parse_program(self@.pending).rest,
                parse_program(old(self)@.pending).diagnostics == recorded + parse_program(
                    self@.pending,
                ).diagnostics,
            decreases self@.pending.len(),
        {
            let ghost before = self@.pending;
            proof {
                lemma_parse_expression_rest(before);
            }
            let expr = self.parse_expression();
            let ghost first = parse_expression(before);
            match expr {
                Some(expression) => program.push(expression),
                None => (),
            }
            self.advance();
            proof {
                recorded = recorded + first.diagnostics;
            }
        }
        (program, self.errors())
    }

    /// Parses the expression that the current token begins, if it begins one.
    fn parse_expression(&mut self) -> (expr: Option<Expression<'a>>)
        requires
            old(self).wf(),
        ensures
            final(self).wf(),
            view_of(expr) == parse_expression(old(self)@.pending).expr,
            final(self)@.pending == parse_expression(old(self)@.pending).rest,
            final(self)@.errors == old(self)@.errors + parse_expression(
                old(self)@.pending,
            ).diagnostics,
        decreases old(self)@.pending.len(), 2nat,
    {
        match self.current_token.token_type {
            TokenType::IDENT => self.parse_ident_expression(),
            TokenType::INT => self.parse_integer(),
            TokenType::RETURN => self.parse_return_expression(),
            _ => None,
        }
    }

    /// Parses what a name begins: an assignment, or the name alone.
    fn parse_ident_expression(&mut self) -> (expr: Option<Expression<'a>>)
        requires
            old(self).wf(),
        ensures
            final(self).wf(),
            view_of(expr) == parse_ident_expression(old(self)@.pending).expr,
            final(self)@.pending == parse_ident_expression(old(self)@.pending).rest,
            final(self)@.errors == old(self)@.errors + parse_ident_expression(
                old(self)@.pending,
            ).diagnostics,
        decreases old(self)@.pending.len(), 1nat,
    {
        match &self.peek_token {
            Some(peek_token) => {
                match peek_token.token_type {
                    TokenType::ASSIGN => self.parse_assign_expression(),
                    TokenType::SEMICOLON => self.create_ident_expression(),
                    TokenType::EOF => self.create_ident_expression(),
                    _ => None,
                }
            },
            None => None,
        }
    }

    /// Parses an assignment: a name, `=`, and the expression that is assigned.
    fn parse_assign_expression(&mut self) -> (expr: Option<Expression<'a>>)
        requires
            old(self).wf(),
        ensures
            final(self).wf(),
            view_of(expr) == parse_assign_expression(old(self)@.pending).expr,
            final(self)@.pending == parse_assign_expression(old(self)@.pending).rest,
            final(self)@.errors == old(self)@.errors + parse_assign_expression(
                old(self)@.pending,
            ).diagnostics,
        decreases old(self)@.pending.len(), 0nat,
    {
        if !self.cur_token_is(TokenType::IDENT) {
            return None;
        }
        let name = Node::Identifier(self.current(), self.current().literal);
        if !self.expect_peek(TokenType::ASSIGN) {
            return None;
        }
        let assign = self.current();
        self.advance();
        match self.parse_expression() {
            Some(right_expr) => Some(Expression::Assign(assign, name, Box::new(right_expr))),
            None => None,
        }
    }

    /// Makes the expression of a name that stands alone, and moves past the name.
    fn create_ident_expression(&mut self) -> (expr: Option<Expression<'a>>)
        requires
            old(self).wf(),
        ensures
            final(self).wf(),
            view_of(expr) == create_ident_expression(old(self)@.pending).expr,
            final(self)@.pending == create_ident_expression(old(self)@.pending).rest,
            final(self)@.errors == old(self)@.errors,
    {
        if !self.cur_token_is(TokenType::IDENT) {
            return None;
        }
        let ident = Some(
            Expression::Identifier(
                self.current(),
                Node::Identifier(self.current(), self.current().literal),
            ),
        );
        self.advance();
        ident
    }

    /// Makes the expression of an integer literal, and moves to the end of its
    /// statement.
    fn parse_integer(&mut self) -> (expr: Option<Expression<'a>>)
        requires
            old(self).wf(),
        ensures
            final(self).wf(),
            view_of(expr) == parse_integer(old(self)@.pending).expr,
            final(self)@.pending == parse_integer(old(self)@.pending).rest,
            final(self)@.errors == old(self)@.errors,
    {
        let current = self.current();
        while !self.is_end_of_expression()
            invariant
                self.wf(),
                self@.errors == old(self)@.errors,
                statement_end(self@.pending) == statement_end(old(self)@.pending),
            decreases self@.pending.len(),
        {
            self.advance();
        }
        Some(Expression::Value(current, 0))
    }

    /// Parses a `return` and the expression that is returned.
    fn parse_return_expression(&mut self) -> (expr: Option<Expression<'a>>)
        requires
            old(self).wf(),
            old(self)@.pending[0].kind == TokenType::RETURN,
        ensures
            final(self).wf(),
            view_of(expr) == parse_return_expression(old(self)@.pending).expr,
            final(self)@.pending == parse_return_expression(old(self)@.pending).rest,
            final(self)@.errors == old(self)@.errors + parse_return_expression(
                old(self)@.pending,
            ).diagnostics,
        decreases old(self)@.pending.len(), 0nat,
    {
        let return_token = self.current();
        self.advance();
        match self.parse_expression() {
            Some(right_expr) => Some(Expression::Return(return_token, Box::new(right_expr))),
            None => None,
        }
    }

    /// Whether the current token ends a statement, or the stream is at its end.
    fn is_end_of_expression(&self) -> (yes: bool)
        ensures
            yes == at_end_of_expression(self@.pending),
    {
        self.cur_token_is(TokenType::SEMICOLON) || self.cur_token_is(TokenType::NEWLINE)
            || self.is_eof()
    }

    /// Whether the current token has the class `expected_type`.
    fn cur_token_is(&self, expected_type: TokenType) -> (yes: bool)
        ensures
            yes == (self@.pending[0].kind == expected_type),
    {
        self.current_token.token_type == expected_type
    }

    /// Checks that the token after the current one has the class `expected_type`. If
    /// it has, the parser moves one token on. If it has not, the parser stays and
    /// records a diagnostic.
    pub fn expect_peek(&mut self, expected_type: TokenType) -> (met: bool)
        requires
            old(self).wf(),
        ensures
            final(self).wf(),
            met == (peek_kind(old(self)@.pending) == Some(expected_type)),
            met ==> final(self)@.pending == advanced(old(self)@.pending),
            met ==> final(self)@.errors == old(self)@.errors,
            !met ==> final(self)@.pending == old(self)@.pending,
            !met ==> final(self)@.errors == old(self)@.errors.push(
                peek_error_message(expected_type, peek_kind(old(self)@.pending)),
            ),
    {
        if self.peek_token_is(expected_type) {
            self.advance();
            true
        } else {
            self.peek_error(expected_type);
            false
        }
    }

    /// Records that the token after the current one is not of the class
    /// `expected_type`.
    fn peek_error(&mut self, expected_type: TokenType)
        requires
            old(self).wf(),
        ensures
            final(self).wf(),
            final(self)@.pending == old(self)@.pending,
            final(self)@.errors == old(self)@.errors.push(
                peek_error_message(expected_type, peek_kind(old(self)@.pending)),
            ),
    {
        let mut msg = String::from_str("expected next token to be ");
        msg.append(expected_type.name());
        msg.append(", got ");
        match &self.peek_token {
            Some(token) => msg.append(token.token_type.name()),
            None => msg.append("EOF"),
        }
        msg.append(" instead");
        self.errors.push(msg);
    }

    /// Whether the token after the current one has the class `expected_type`.
    fn peek_token_is(&self, expected_type: TokenType) -> (yes: bool)
        ensures
            yes == (peek_kind(self@.pending) == Some(expected_type)),
    {
        match &self.peek_token {
            Some(token) => token.token_type == expected_type,
            None => false,
        }
    }

    /// Whether the stream is at its end: the parser peeks at nothing, or at `EOF`.
    fn is_eof(&self) -> (yes: bool)
        ensures
            yes == at_end(self@.pending),
    {
        match &self.peek_token {
            Some(token) => token.token_type == TokenType::EOF,
            None => true,
        }
    }
}

} // verus!
