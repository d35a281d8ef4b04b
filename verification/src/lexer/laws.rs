//! What holds of the token stream of every source text.

use vstd::prelude::*;
use super::stream::{
    is_digit, is_letter, lemma_run_end_is, lemma_tokens_from_step, lex, punctuation, run_end,
    token_end, token_kind, tokens_from, CharClass,
};
use super::token::{eof_token, lemma_word_kind, word_kind, TokenType, TokenView};

verus! {

/// No token that is read from the source has the class `EOF`.
pub proof fn token_is_not_eof(src: Seq<char>, p: int)
    requires
        0 <= p < src.len(),
    ensures
        token_kind(src, p) != TokenType::EOF,
{
    lemma_word_kind(src.subrange(p, token_end(src, p)));
}

/// From any index on, the stream is finite, with at most one token for each character
/// that is left and the closing `EOF`; `EOF` is its last token and it holds no other.
pub proof fn tokens_from_end_with_single_eof(src: Seq<char>, from: int)
    requires
        0 <= from <= src.len(),
    ensures
        1 <= tokens_from(src, from).len() <= src.len() - from + 1,
        tokens_from(src, from).last() == eof_token(),
        forall|i: int|
            0 <= i < tokens_from(src, from).len() - 1 ==> (#[trigger] tokens_from(
                src,
                from,
            )[i]).kind != TokenType::EOF,
    decreases src.len() - from,
{
    lemma_tokens_from_step(src, from);
    let p = run_end(src, from, CharClass::Blank);
    if p < src.len() {
        token_is_not_eof(src, p);
        tokens_from_end_with_single_eof(src, token_end(src, p));
    }
}

/// The token stream of every source text is finite, its last token is `EOF`, and no
/// token before the last is `EOF`.
pub proof fn lex_ends_with_single_eof(src: Seq<char>)
    ensures
        1 <= lex(src).len() <= src.len() + 1,
        lex(src).last() == eof_token(),
        forall|i: int| 0 <= i < lex(src).len() - 1 ==> (#[trigger] lex(src)[i]).kind
            != TokenType::EOF,
{
    tokens_from_end_with_single_eof(src, 0);
}

/// A source of one operator, delimiter, grouping or line-break character gives one
/// token of that character's class, whose literal is the character, and `EOF`.
pub proof fn lex_single_punctuation(c: char)
    requires
        punctuation(c) is Some,
    ensures
        lex(seq![c]) == seq![
            (TokenView { kind: punctuation(c)->0, literal: seq![c] }),
            eof_token(),
        ],
{
    let src = seq![c];
    lemma_tokens_from_step(src, 0);
    lemma_tokens_from_step(src, 1);
    assert(src.subrange(0, 1) == src);
}

/// A source that is `==` or `!=` gives one token, `EQ` or `NOTEQ`, whose literal is the
/// two characters, and `EOF`.
pub proof fn lex_single_pair(first: char)
    requires
        first == '=' || first == '!',
    ensures
        lex(seq![first, '=']) == seq![
            (TokenView {
                kind: if first == '=' {
                    TokenType::EQ
                } else {
                    TokenType::NOTEQ
                },
                literal: seq![first, '='],
            }),
            eof_token(),
        ],
{
    let src = seq![first, '='];
    lemma_tokens_from_step(src, 0);
    lemma_tokens_from_step(src, 2);
    assert(src.subrange(0, 2) == src);
}

/// A source that is one word, a letter or an underscore followed by word characters,
/// gives one token whose literal is the word, and `EOF`. The token has the class of
/// the keyword that the word spells, and is an identifier where it spells none.
pub proof fn lex_single_word(word: Seq<char>)
    requires
        word.len() > 0,
        'a' <= word[0] <= 'z' || 'A' <= word[0] <= 'Z' || word[0] == '_',
        forall|i: int| 0 <= i < word.len() ==> is_letter(#[trigger] word[i]),
    ensures
        lex(word) == seq![(TokenView { kind: word_kind(word), literal: word }), eof_token()],
{
    let n = word.len() as int;
    lemma_run_end_is(word, 0, n, CharClass::Letter);
    lemma_tokens_from_step(word, 0);
    lemma_tokens_from_step(word, n);
    assert(word.subrange(0, n) == word);
}

/// A source that is one run of digits gives one `INT` token whose literal is the whole
/// run, and `EOF`.
pub proof fn lex_single_number(digits: Seq<char>)
    requires
        digits.len() > 0,
        forall|i: int| 0 <= i < digits.len() ==> is_digit(#[trigger] digits[i]),
    ensures
        lex(digits) == seq![(TokenView { kind: TokenType::INT, literal: digits }), eof_token()],
{
    let n = digits.len() as int;
    lemma_run_end_is(digits, 0, n, CharClass::Digit);
    lemma_tokens_from_step(digits, 0);
    lemma_tokens_from_step(digits, n);
    assert(digits.subrange(0, n) == digits);
}

/// Whether `piece` is a stretch of `src` that holds at least one character.
pub open spec fn is_piece_of(piece: Seq<char>, src: Seq<char>) -> bool {
    exists|from: int, to: int|
        0 <= from < to <= src.len() && piece == #[trigger] src.subrange(from, to)
}

/// From any index on, the literal of every token but the closing `EOF` is a piece of
/// the source.
pub proof fn tokens_from_are_pieces(src: Seq<char>, from: int, i: int)
    requires
        0 <= from <= src.len(),
        0 <= i < tokens_from(src, from).len() - 1,
    ensures
        is_piece_of(tokens_from(src, from)[i].literal, src),
    decreases src.len() - from,
{
    lemma_tokens_from_step(src, from);
    let p = run_end(src, from, CharClass::Blank);
    if i > 0 {
        tokens_from_are_pieces(src, token_end(src, p), i - 1);
    }
}

/// The literal of every token of a source text, the closing `EOF` apart, is the piece
/// of the text that the token was read from: no literal is made up.
pub proof fn literals_are_pieces_of_the_source(src: Seq<char>, i: int)
    requires
        0 <= i < lex(src).len() - 1,
    ensures
        is_piece_of(lex(src)[i].literal, src),
{
    tokens_from_are_pieces(src, 0, i);
}

} // verus!
