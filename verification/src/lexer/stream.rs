//! The token stream of a source text, as a mathematical function of its characters.

use vstd::prelude::*;
use super::token::{eof_token, word_kind, TokenType, TokenView};

verus! {

/// Space and tab separate tokens and belong to none. A line break is a token.
pub open spec fn is_blank(c: char) -> bool {
    c == ' ' || c == '\t'
}

/// The characters of a word: letters, the underscore, `!` and `?`.
pub open spec fn is_letter(c: char) -> bool {
    'a' <= c <= 'z' || 'A' <= c <= 'Z' || c == '_' || c == '!' || c == '?'
}

pub open spec fn is_digit(c: char) -> bool {
    '0' <= c <= '9'
}

/// The classes of characters that are scanned as a run.
pub ghost enum CharClass {
    Blank,
    Letter,
    Digit,
}

impl CharClass {
    pub open spec fn holds(self, c: char) -> bool {
        match self {
            CharClass::Blank => is_blank(c),
            CharClass::Letter => is_letter(c),
            CharClass::Digit => is_digit(c),
        }
    }
}

/// Where the longest run of `class` characters that starts at `from` ends: the first
/// index at or after `from` that holds no character of the class.
pub open spec fn run_end(src: Seq<char>, from: int, class: CharClass) -> int
    decreases src.len() - from,
{
    if 0 <= from < src.len() && class.holds(src[from]) {
        run_end(src, from + 1, class)
    } else {
        from
    }
}

/// The class of an operator, delimiter or grouping character standing alone.
pub open spec fn punctuation(c: char) -> Option<TokenType> {
    if c == '=' {
        Some(TokenType::ASSIGN)
    } else if c == '+' {
        Some(TokenType::PLUS)
    } else if c == '-' {
        Some(TokenType::MINUS)
    } else if c == '!' {
        Some(TokenType::BANG)
    } else if c == '/' {
        Some(TokenType::SLASH)
    } else if c == '*' {
        Some(TokenType::ASTERISK)
    } else if c == '<' {
        Some(TokenType::LT)
    } else if c == '>' {
        Some(TokenType::GT)
    } else if c == ';' {
        Some(TokenType::SEMICOLON)
    } else if c == ',' {
        Some(TokenType::COMMA)
    } else if c == '(' {
        Some(TokenType::LPAREN)
    } else if c == ')' {
        Some(TokenType::RPAREN)
    } else if c == '{' {
        Some(TokenType::LBRACE)
    } else if c == '}' {
        Some(TokenType::RBRACE)
    } else if c == '\n' || c == '\r' {
        Some(TokenType::NEWLINE)
    } else {
        None
    }
}

/// Whether `==` or `!=` stands at `p`.
pub open spec fn pair_at(src: Seq<char>, p: int) -> bool {
    &&& 0 <= p && p + 1 < src.len()
    &&& src[p] == '=' || src[p] == '!'
    &&& src[p + 1] == '='
}

/// One past the last character of the token that starts at `p`.
pub open spec fn token_end(src: Seq<char>, p: int) -> int {
    let c = src[p];
    if pair_at(src, p) {
        p + 2
    } else if punctuation(c) is Some {
        p + 1
    } else if is_letter(c) {
        run_end(src, p, CharClass::Letter)
    } else if is_digit(c) {
        run_end(src, p, CharClass::Digit)
    } else {
        p + 1
    }
}

/// The class of the token that starts at `p`.
pub open spec fn token_kind(src: Seq<char>, p: int) -> TokenType {
    let c = src[p];
    if pair_at(src, p) {
        if c == '=' {
            TokenType::EQ
        } else {
            TokenType::NOTEQ
        }
    } else if punctuation(c) is Some {
        punctuation(c)->0
    } else if is_letter(c) {
        word_kind(src.subrange(p, token_end(src, p)))
    } else if is_digit(c) {
        TokenType::INT
    } else {
        TokenType::ILLEGAL
    }
}

/// The token that starts at `p`, where `p` is the index of a character that is not blank.
/// Its literal is the piece of the source that it was read from.
pub open spec fn token_at(src: Seq<char>, p: int) -> TokenView {
    TokenView { kind: token_kind(src, p), literal: src.subrange(p, token_end(src, p)) }
}

/// The tokens of the source from index `from` on, the closing `EOF` included.
pub open spec fn tokens_from(src: Seq<char>, from: int) -> Seq<TokenView>
    decreases src.len() - from,
{
    let p = run_end(src, from, CharClass::Blank);
    if 0 <= p < src.len() {
        proof {
            if 0 <= from <= src.len() {
                lemma_run_end(src, from, CharClass::Blank);
            }
            lemma_token_end(src, p);
        }
        seq![token_at(src, p)] + tokens_from(src, token_end(src, p))
    } else {
        seq![eof_token()]
    }
}

/// The token stream of a whole source text.
pub open spec fn lex(src: Seq<char>) -> Seq<TokenView> {
    tokens_from(src, 0)
}

/// A run ends at or after its start and within the source; it holds characters of the
/// class only, and the character after it, if there is one, is not of the class.
pub proof fn lemma_run_end(src: Seq<char>, from: int, class: CharClass)
    requires
        0 <= from <= src.len(),
    ensures
        from <= run_end(src, from, class) <= src.len(),
        forall|i: int| from <= i < run_end(src, from, class) ==> class.holds(#[trigger] src[i]),
        run_end(src, from, class) < src.len() ==> !class.holds(src[run_end(src, from, class)]),
    decreases src.len() - from,
{
    if from < src.len() && class.holds(src[from]) {
        lemma_run_end(src, from + 1, class);
    }
}

/// A stretch of characters of the class that is followed by none of them is a run.
pub proof fn lemma_run_end_is(src: Seq<char>, from: int, to: int, class: CharClass)
    requires
        0 <= from <= to <= src.len(),
        forall|i: int| from <= i < to ==> class.holds(#[trigger] src[i]),
        to < src.len() ==> !class.holds(src[to]),
    ensures
        run_end(src, from, class) == to,
    decreases to - from,
{
    if from < to {
        lemma_run_end_is(src, from + 1, to, class);
    }
}

/// Every token holds at least one character and ends within the source.
pub proof fn lemma_token_end(src: Seq<char>, p: int)
    requires
        0 <= p < src.len(),
    ensures
        p < token_end(src, p) <= src.len(),
{
    lemma_run_end(src, p, CharClass::Letter);
    lemma_run_end(src, p, CharClass::Digit);
}

/// One step of the stream: past the blanks stands either the end of the source, and the
/// stream is the closing `EOF`, or a token, and the stream is that token and what
/// follows it.
pub proof fn lemma_tokens_from_step(src: Seq<char>, from: int)
    requires
        0 <= from <= src.len(),
    ensures
        ({
            let p = run_end(src, from, CharClass::Blank);
            &&& from <= p <= src.len()
            &&& p == src.len() ==> tokens_from(src, from) == seq![eof_token()]
            &&& p < src.len() ==> {
                &&& p < token_end(src, p) <= src.len()
                &&& tokens_from(src, from) == seq![token_at(src, p)] + tokens_from(
                    src,
                    token_end(src, p),
                )
            }
        }),
{
    lemma_run_end(src, from, CharClass::Blank);
    let p = run_end(src, from, CharClass::Blank);
    if p < src.len() {
        lemma_token_end(src, p);
    }
}

} // verus!
