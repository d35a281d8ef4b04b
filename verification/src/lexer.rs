//! The lexer: a cursor over a source text that hands out its tokens one by one.

pub mod laws;
pub mod stream;
pub mod token;

use vstd::prelude::*;
use crate::text::{chars_of, same_text, text_of, text_of_char};
use stream::{
    is_blank, is_digit, is_letter, lemma_token_end, lemma_tokens_from_step, run_end, token_end,
    tokens_from, CharClass,
};
use laws::tokens_from_end_with_single_eof;
use token::{
    eof_token, lemma_word_kind, token_view_of, word_kind, Token, TokenType, TokenView,
};

verus! {

/// A cursor over a source text. Each call of [`Lexer::next`] hands out one token; after
/// the closing `EOF` token it hands out nothing more.
pub struct Lexer {
    body: Vec<char>,
    pos: usize,
    read_pos: usize,
    ch: char,
    done: bool,
}

/// The mathematical value of a [`Lexer`].
pub ghost struct LexerView {
    /// The characters of the source text.
    pub source: Seq<char>,
    /// The index of the current character; the length of the source at its end.
    pub position: int,
    /// Whether the closing `EOF` token was handed out.
    pub finished: bool,
}

impl LexerView {
    /// The same lexer with its cursor at `position`.
    pub open spec fn at(self, position: int) -> LexerView {
        LexerView { position, ..self }
    }

    /// The same lexer with its cursor one character on, or at the end of the source
    /// where it stood at the last character or at the end.
    pub open spec fn after_char(self) -> LexerView {
        if self.position < self.source.len() {
            self.at(self.position + 1)
        } else {
            self
        }
    }

    /// The tokens that are still to come.
    pub open spec fn remaining(self) -> Seq<TokenView> {
        if self.finished {
            Seq::empty()
        } else {
            tokens_from(self.source, self.position)
        }
    }

    /// The token that comes next, if one is still to come.
    pub open spec fn next_token(self) -> Option<TokenView> {
        if self.remaining().len() > 0 {
            Some(self.remaining()[0])
        } else {
            None
        }
    }

    /// The lexer after it has handed out one token.
    pub open spec fn after_token(self) -> LexerView {
        let p = run_end(self.source, self.position, CharClass::Blank);
        if self.finished {
            self
        } else if p < self.source.len() {
            self.at(token_end(self.source, p))
        } else {
            LexerView { position: p, finished: true, ..self }
        }
    }
}

impl View for Lexer {
    type V = LexerView;

    closed spec fn view(&self) -> LexerView {
        LexerView { source: self.body@, position: self.pos as int, finished: self.done }
    }
}

impl Lexer {
    /// The cursor stands within the source or at its end, and the character and the
    /// lookahead index that the lexer keeps are those of that position.
    pub closed spec fn wf(&self) -> bool {
        &&& self.pos <= self.body.len()
        &&& self.read_pos == if self.pos < self.body.len() {
            self.pos + 1
        } else {
            self.pos as int
        }
        &&& self.ch == if self.pos < self.body.len() {
            self.body@[self.pos as int]
        } else {
            '\0'
        }
        &&& self.done ==> self.pos == self.body.len()
    }

    /// The cursor of a well-formed lexer stands within the source or at its end, and a
    /// lexer that has handed out `EOF` stands at the end.
    pub proof fn lemma_position(&self)
        requires
            self.wf(),
        ensures
            0 <= self@.position <= self@.source.len(),
            self@.finished ==> self@.position == self@.source.len(),
    {
    }

    /// What a well-formed lexer still holds is nothing, once it has handed out `EOF`,
    /// and else a stream that ends with `EOF` and holds no other `EOF`.
    pub proof fn lemma_remaining(&self)
        requires
            self.wf(),
        ensures
            self@.finished <==> self@.remaining().len() == 0,
            !self@.finished ==> self@.remaining().last() == eof_token(),
            forall|i: int|
                0 <= i < self@.remaining().len() - 1 ==> (#[trigger] self@.remaining()[i]).kind
                    != TokenType::EOF,
    {
        tokens_from_end_with_single_eof(self@.source, self@.position);
    }

    /// A lexer at the start of `body`.
    pub fn new(body: String) -> (lexer: Self)
        ensures
            lexer.wf(),
            lexer@ == (LexerView { source: body@, position: 0, finished: false }),
    {
        let chars = chars_of(body.as_str());
        if chars.len() > 0 {
            let first = chars[0];
            Lexer { body: chars, pos: 0, read_pos: 1, ch: first, done: false }
        } else {
            Lexer { body: chars, pos: 0, read_pos: 0, ch: '\0', done: false }
        }
    }

    /// Moves the cursor one character on. At the end of the source it stays.
    pub fn read_char(&mut self)
        requires
            old(self).wf(),
        ensures
            final(self).wf(),
            final(self)@ == old(self)@.after_char(),
    {
        if self.read_pos >= self.body.len() {
            self.ch = '\0';
        } else {
            self.ch = self.body[self.read_pos];
        }
        self.pos = self.read_pos;
        if self.read_pos < self.body.len() {
            self.read_pos += 1;
        }
    }

    /// Reads the run of word characters that starts at the cursor.
    pub fn read_identifier(&mut self) -> (word: String)
        requires
            old(self).wf(),
        ensures
            final(self).wf(),
            final(self)@ == old(self)@.at(
                run_end(old(self)@.source, old(self)@.position, CharClass::Letter),
            ),
            word@ == old(self)@.source.subrange(old(self)@.position, final(self)@.position),
    {
        let pos: usize = self.pos;
        while self.is_letter(self.ch)
            invariant
                self.wf(),
                self@.source == old(self)@.source,
                self@.finished == old(self)@.finished,
                pos <= self.pos,
                run_end(self@.source, self@.position, CharClass::Letter) == run_end(
                    self@.source,
                    pos as int,
                    CharClass::Letter,
                ),
            decreases self.body.len() - self.pos,
        {
            self.read_char();
        }
        text_of(&self.body, pos, self.pos)
    }

    /// Reads the run of digits that starts at the cursor.
    pub fn read_number(&mut self) -> (digits: String)
        requires
            old(self).wf(),
        ensures
            final(self).wf(),
            final(self)@ == old(self)@.at(
                run_end(old(self)@.source, old(self)@.position, CharClass::Digit),
            ),
            digits@ == old(self)@.source.subrange(old(self)@.position, final(self)@.position),
    {
        let pos: usize = self.pos;
        while self.is_digit(self.ch)
            invariant
                self.wf(),
                self@.source == old(self)@.source,
                self@.finished == old(self)@.finished,
                pos <= self.pos,
                run_end(self@.source, self@.position, CharClass::Digit) == run_end(
                    self@.source,
                    pos as int,
                    CharClass::Digit,
                ),
            decreases self.body.len() - self.pos,
        {
            self.read_char();
        }
        text_of(&self.body, pos, self.pos)
    }

    /// Whether `ch` is a character of a word: a letter, the underscore, `!` or `?`.
    pub fn is_letter(&self, ch: char) -> (yes: bool)
        ensures
            yes == is_letter(ch),
    {
        'a' <= ch && ch <= 'z' || 'A' <= ch && ch <= 'Z' || ch == '_' || ch == '!' || ch == '?'
    }

    /// Whether `ch` is one of the ten digits.
    pub fn is_digit(&self, ch: char) -> (yes: bool)
        ensures
            yes == is_digit(ch),
    {
        '0' <= ch && ch <= '9'
    }

    /// The class of a word: that of the keyword it spells, `IDENT` for any other word.
    pub fn lookup_ident(&self, ident: String) -> (kind: TokenType)
        ensures
            kind == word_kind(ident@),
    {
        proof {
            lemma_word_kind(ident@);
        }
        let word = ident.as_str();
        if same_text(word, "def") {
            TokenType::DEF
        } else if same_text(word, "end") {
            TokenType::END
        } else if same_text(word, "do") {
            TokenType::DO
        } else if same_text(word, "true") {
            TokenType::TRUE
        } else if same_text(word, "false") {
            TokenType::FALSE
        } else if same_text(word, "if") {
            TokenType::IF
        } else if same_text(word, "else") {
            TokenType::ELSE
        } else if same_text(word, "return") {
            TokenType::RETURN
        } else {
            TokenType::IDENT
        }
    }

    /// Moves the cursor past the blanks that it stands on.
    pub fn skip_whitespace(&mut self)
        requires
            old(self).wf(),
        ensures
            final(self).wf(),
            final(self)@ == old(self)@.at(
                run_end(old(self)@.source, old(self)@.position, CharClass::Blank),
            ),
    {
        while self.pos_at_whitespace()
            invariant
                self.wf(),
                self@.source == old(self)@.source,
                self@.finished == old(self)@.finished,
                run_end(self@.source, self@.position, CharClass::Blank) == run_end(
                    self@.source,
                    old(self)@.position,
                    CharClass::Blank,
                ),
            decreases self.body.len() - self.pos,
        {
            self.read_char();
        }
    }

    /// The character after the current one, or the null character where there is none.
    fn peek_char(&self) -> (c: char)
        requires
            self.wf(),
        ensures
            c == (if self.pos + 1 < self.body.len() {
                self.body@[self.pos + 1]
            } else {
                '\0'
            }),
    {
        if self.read_pos < self.body.len() && self.read_pos > self.pos {
            self.body[self.read_pos]
        } else {
            '\0'
        }
    }

    /// Hands out the next token: past the blanks, the token that starts at the cursor,
    /// or the closing `EOF` at the end of the source, and nothing once `EOF` was handed
    /// out.
    pub fn next(&mut self) -> (token: Option<Token>)
        requires
            old(self).wf(),
        ensures
            final(self).wf(),
            final(self)@ == old(self)@.after_token(),
            token_view_of(token) == old(self)@.next_token(),
            token is Some ==> old(self)@.remaining() == seq![token.unwrap()@]
                + final(self)@.remaining(),
    {
        if self.done {
            return None;
        }
        proof {
            lemma_tokens_from_step(self@.source, self@.position);
        }
        self.skip_whitespace();
        let start: usize = self.pos;
        if start >= self.body.len() {
            self.done = true;
            return Some(Token::new(TokenType::EOF, text_of_char('\0')));
        }
        let ghost src = self@.source;
        proof {
            lemma_token_end(src, start as int);
        }
        let c = self.ch;
        let kind = match c {
            '=' => {
                if self.peek_char() == '=' {
                    self.read_char();
                    TokenType::EQ
                } else {
                    TokenType::ASSIGN
                }
            },
            '!' => {
                if self.peek_char() == '=' {
                    self.read_char();
                    TokenType::NOTEQ
                } else {
                    TokenType::BANG
                }
            },
            '+' => TokenType::PLUS,
            '-' => TokenType::MINUS,
            '/' => TokenType::SLASH,
            '*' => TokenType::ASTERISK,
            '<' => TokenType::LT,
            '>' => TokenType::GT,
            ';' => TokenType::SEMICOLON,
            ',' => TokenType::COMMA,
            '(' => TokenType::LPAREN,
            ')' => TokenType::RPAREN,
            '{' => TokenType::LBRACE,
            '}' => TokenType::RBRACE,
            '\n' => TokenType::NEWLINE,
            '\r' => TokenType::NEWLINE,
            _ => {
                if self.is_letter(c) {
                    let literal = self.read_identifier();
                    return Some(Token::new(self.lookup_ident(literal.clone()), literal));
                } else if self.is_digit(c) {
                    return Some(Token::new(TokenType::INT, self.read_number()));
                } else {
                    TokenType::ILLEGAL
                }
            },
        };
        self.read_char();
        Some(Token::new(kind, text_of(&self.body, start, self.pos)))
    }

    /// Whether the cursor stands on a blank.
    fn pos_at_whitespace(&self) -> (yes: bool)
        ensures
            yes == is_blank(self.ch),
    {
        self.ch == ' ' || self.ch == '\t'
    }
}

} // verus!
