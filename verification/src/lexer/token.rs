use vstd::prelude::*;

verus! {

/// The closed set of token classes.
#[allow(clippy::upper_case_acronyms)]
#[derive(Copy, Clone, Debug, PartialEq, Eq, Structural)]
pub enum TokenType {
    ILLEGAL,
    EOF,
    // Identifiers and literals
    IDENT,
    INT,
    // Operators
    ASSIGN,
    PLUS,
    MINUS,
    BANG,
    ASTERISK,
    SLASH,
    LT,
    GT,
    // Delimiters
    COMMA,
    SEMICOLON,
    // Groupings
    LPAREN,
    RPAREN,
    LBRACE,
    RBRACE,
    NEWLINE,
    // Keywords
    DEF,
    END,
    DO,
    TRUE,
    FALSE,
    IF,
    ELSE,
    RETURN,
    EQ,
    NOTEQ,
}

impl TokenType {
    /// The name of the class, as diagnostics print it.
    pub open spec fn spec_name(self) -> Seq<char> {
        match self {
            TokenType::ILLEGAL => "ILLEGAL"@,
            TokenType::EOF => "EOF"@,
            TokenType::IDENT => "IDENT"@,
            TokenType::INT => "INT"@,
            TokenType::ASSIGN => "ASSIGN"@,
            TokenType::PLUS => "PLUS"@,
            TokenType::MINUS => "MINUS"@,
            TokenType::BANG => "BANG"@,
            TokenType::ASTERISK => "ASTERISK"@,
            TokenType::SLASH => "SLASH"@,
            TokenType::LT => "LT"@,
            TokenType::GT => "GT"@,
            TokenType::COMMA => "COMMA"@,
            TokenType::SEMICOLON => "SEMICOLON"@,
            TokenType::LPAREN => "LPAREN"@,
            TokenType::RPAREN => "RPAREN"@,
            TokenType::LBRACE => "LBRACE"@,
            TokenType::RBRACE => "RBRACE"@,
            TokenType::NEWLINE => "NEWLINE"@,
            TokenType::DEF => "DEF"@,
            TokenType::END => "END"@,
            TokenType::DO => "DO"@,
            TokenType::TRUE => "TRUE"@,
            TokenType::FALSE => "FALSE"@,
            TokenType::IF => "IF"@,
            TokenType::ELSE => "ELSE"@,
            TokenType::RETURN => "RETURN"@,
            TokenType::EQ => "EQ"@,
            TokenType::NOTEQ => "NOTEQ"@,
        }
    }

    /// The name of the class, as diagnostics print it.
    pub fn name(self) -> (text: &'static str)
        ensures
            text@ == self.spec_name(),
    {
        match self {
            TokenType::ILLEGAL => "ILLEGAL",
            TokenType::EOF => "EOF",
            TokenType::IDENT => "IDENT",
            TokenType::INT => "INT",
            TokenType::ASSIGN => "ASSIGN",
            TokenType::PLUS => "PLUS",
            TokenType::MINUS => "MINUS",
            TokenType::BANG => "BANG",
            TokenType::ASTERISK => "ASTERISK",
            TokenType::SLASH => "SLASH",
            TokenType::LT => "LT",
            TokenType::GT => "GT",
            TokenType::COMMA => "COMMA",
            TokenType::SEMICOLON => "SEMICOLON",
            TokenType::LPAREN => "LPAREN",
            TokenType::RPAREN => "RPAREN",
            TokenType::LBRACE => "LBRACE",
            TokenType::RBRACE => "RBRACE",
            TokenType::NEWLINE => "NEWLINE",
            TokenType::DEF => "DEF",
            TokenType::END => "END",
            TokenType::DO => "DO",
            TokenType::TRUE => "TRUE",
            TokenType::FALSE => "FALSE",
            TokenType::IF => "IF",
            TokenType::ELSE => "ELSE",
            TokenType::RETURN => "RETURN",
            TokenType::EQ => "EQ",
            TokenType::NOTEQ => "NOTEQ",
        }
    }
}

/// The keyword table: the words that are reserved, each with its class.
pub open spec fn keywords() -> Map<Seq<char>, TokenType> {
    map![
        "def"@ => TokenType::DEF,
        "end"@ => TokenType::END,
        "do"@ => TokenType::DO,
        "true"@ => TokenType::TRUE,
        "false"@ => TokenType::FALSE,
        "if"@ => TokenType::IF,
        "else"@ => TokenType::ELSE,
        "return"@ => TokenType::RETURN,
    ]
}

/// The class of a word: that of the keyword it spells, `IDENT` for any other word.
pub open spec fn word_kind(word: Seq<char>) -> TokenType {
    if keywords().contains_key(word) {
        keywords()[word]
    } else {
        TokenType::IDENT
    }
}

/// The keyword table word by word: the eight reserved words have their classes, and
/// every other word is an identifier.
pub proof fn lemma_word_kind(word: Seq<char>)
    ensures
        word_kind(word) == (if word == "def"@ {
            TokenType::DEF
        } else if word == "end"@ {
            TokenType::END
        } else if word == "do"@ {
            TokenType::DO
        } else if word == "true"@ {
            TokenType::TRUE
        } else if word == "false"@ {
            TokenType::FALSE
        } else if word == "if"@ {
            TokenType::IF
        } else if word == "else"@ {
            TokenType::ELSE
        } else if word == "return"@ {
            TokenType::RETURN
        } else {
            TokenType::IDENT
        }),
{
    reveal_strlit("def");
    reveal_strlit("end");
    reveal_strlit("do");
    reveal_strlit("true");
    reveal_strlit("false");
    reveal_strlit("if");
    reveal_strlit("else");
    reveal_strlit("return");
    assert("def"@[0] == 'd' && "end"@[0] == 'e');
    assert("do"@[0] == 'd' && "if"@[0] == 'i');
    assert("true"@[0] == 't' && "else"@[0] == 'e');
    assert("def"@.len() == 3 && "end"@.len() == 3 && "do"@.len() == 2 && "if"@.len() == 2);
    assert("true"@.len() == 4 && "else"@.len() == 4 && "false"@.len() == 5 && "return"@.len() == 6);
}

/// A classified piece of source text.
#[derive(Debug)]
pub struct Token {
    pub token_type: TokenType,
    pub literal: String,
}

/// The mathematical value of a [`Token`]: its class and the characters of its literal.
pub ghost struct TokenView {
    pub kind: TokenType,
    pub literal: Seq<char>,
}

impl View for Token {
    type V = TokenView;

    open spec fn view(&self) -> TokenView {
        TokenView { kind: self.token_type, literal: self.literal@ }
    }
}

/// The value of a token that may be absent.
pub open spec fn token_view_of(token: Option<Token>) -> Option<TokenView> {
    match token {
        Some(t) => Some(t@),
        None => None,
    }
}

/// The token that closes every token stream: class `EOF`, literal a single null character.
pub open spec fn eof_token() -> TokenView {
    TokenView { kind: TokenType::EOF, literal: seq!['\0'] }
}

impl Token {
    /// A token of the class `tt` with the literal `lit`.
    pub fn new(tt: TokenType, lit: String) -> (token: Self)
        ensures
            token.token_type == tt,
            token.literal == lit,
    {
        Self { token_type: tt, literal: lit }
    }
}

impl Clone for Token {
    fn clone(&self) -> (copy: Self)
        ensures
            copy == *self,
    {
        Token { token_type: self.token_type, literal: self.literal.clone() }
    }
}

} // verus!
