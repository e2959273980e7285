//! Tokens and token kinds, with their mathematical views.

use vstd::prelude::*;

verus! {

/// The classification of one lexeme, as contracts see it: literal payloads
/// are sequences of characters.
#[allow(non_camel_case_types)]
pub enum SpecTokenType {
    LEFT_PAREN,
    RIGHT_PAREN,
    LEFT_BRACE,
    RIGHT_BRACE,
    COMMA,
    DOT,
    MINUS,
    PLUS,
    SEMICOLON,
    SLASH,
    STAR,
    BANG,
    BANG_EQUAL,
    EQUAL,
    EQUAL_EQUAL,
    GREATER,
    GREATER_EQUAL,
    LESS,
    LESS_EQUAL,
    IDENTIFIER,
    STRING { literal: Seq<char> },
    NUMBER { literal: Seq<char> },
    AND,
    CLASS,
    ELSE,
    FALSE,
    FUN,
    FOR,
    IF,
    NIL,
    OR,
    PRINT,
    RETURN,
    SUPER,
    THIS,
    TRUE,
    VAR,
    WHILE,
    EOF,
}

/// The classification of one lexeme.
///
/// A string literal carries its text with the surrounding quotes stripped.
/// A number literal carries the exact matched digit text; decoding that text
/// into a machine float is left to unverified callers, since the text alone
/// determines the value.
#[allow(non_camel_case_types)]
#[derive(Debug, Clone, PartialEq)]
pub enum TokenType {
    LEFT_PAREN,
    RIGHT_PAREN,
    LEFT_BRACE,
    RIGHT_BRACE,
    COMMA,
    DOT,
    MINUS,
    PLUS,
    SEMICOLON,
    SLASH,
    STAR,
    BANG,
    BANG_EQUAL,
    EQUAL,
    EQUAL_EQUAL,
    GREATER,
    GREATER_EQUAL,
    LESS,
    LESS_EQUAL,
    IDENTIFIER,
    STRING { literal: String },
    NUMBER { literal: String },
    AND,
    CLASS,
    ELSE,
    FALSE,
    FUN,
    FOR,
    IF,
    NIL,
    OR,
    PRINT,
    RETURN,
    SUPER,
    THIS,
    TRUE,
    VAR,
    WHILE,
    EOF,
}

impl View for TokenType {
    type V = SpecTokenType;

    open spec fn view(&self) -> SpecTokenType {
        match self {
            TokenType::LEFT_PAREN => SpecTokenType::LEFT_PAREN,
            TokenType::RIGHT_PAREN => SpecTokenType::RIGHT_PAREN,
            TokenType::LEFT_BRACE => SpecTokenType::LEFT_BRACE,
            TokenType::RIGHT_BRACE => SpecTokenType::RIGHT_BRACE,
            TokenType::COMMA => SpecTokenType::COMMA,
            TokenType::DOT => SpecTokenType::DOT,
            TokenType::MINUS => SpecTokenType::MINUS,
            TokenType::PLUS => SpecTokenType::PLUS,
            TokenType::SEMICOLON => SpecTokenType::SEMICOLON,
            TokenType::SLASH => SpecTokenType::SLASH,
            TokenType::STAR => SpecTokenType::STAR,
            TokenType::BANG => SpecTokenType::BANG,
            TokenType::BANG_EQUAL => SpecTokenType::BANG_EQUAL,
            TokenType::EQUAL => SpecTokenType::EQUAL,
            TokenType::EQUAL_EQUAL => SpecTokenType::EQUAL_EQUAL,
            TokenType::GREATER => SpecTokenType::GREATER,
            TokenType::GREATER_EQUAL => SpecTokenType::GREATER_EQUAL,
            TokenType::LESS => SpecTokenType::LESS,
            TokenType::LESS_EQUAL => SpecTokenType::LESS_EQUAL,
            TokenType::IDENTIFIER => SpecTokenType::IDENTIFIER,
            TokenType::STRING { literal } => SpecTokenType::STRING { literal: literal@ },
            TokenType::NUMBER { literal } => SpecTokenType::NUMBER { literal: literal@ },
            TokenType::AND => SpecTokenType::AND,
            TokenType::CLASS => SpecTokenType::CLASS,
            TokenType::ELSE => SpecTokenType::ELSE,
            TokenType::FALSE => SpecTokenType::FALSE,
            TokenType::FUN => SpecTokenType::FUN,
            TokenType::FOR => SpecTokenType::FOR,
            TokenType::IF => SpecTokenType::IF,
            TokenType::NIL => SpecTokenType::NIL,
            TokenType::OR => SpecTokenType::OR,
            TokenType::PRINT => SpecTokenType::PRINT,
            TokenType::RETURN => SpecTokenType::RETURN,
            TokenType::SUPER => SpecTokenType::SUPER,
            TokenType::THIS => SpecTokenType::THIS,
            TokenType::TRUE => SpecTokenType::TRUE,
            TokenType::VAR => SpecTokenType::VAR,
            TokenType::WHILE => SpecTokenType::WHILE,
            TokenType::EOF => SpecTokenType::EOF,
        }
    }
}

/// One classified lexeme, as contracts see it.
pub struct SpecToken {
    pub token_type: SpecTokenType,
    pub lexeme: Seq<char>,
    pub line: int,
}

/// One classified lexeme: its kind, the exact source text that produced it,
/// and the 1-based source line of its first character.  Created once during
/// scanning and never mutated afterward.
#[derive(Debug, Clone, PartialEq)]
pub struct Token {
    pub token_type: TokenType,
    pub lexeme: String,
    pub line: i32,
}

impl View for Token {
    type V = SpecToken;

    open spec fn view(&self) -> SpecToken {
        SpecToken {
            token_type: self.token_type@,
            lexeme: self.lexeme@,
            line: self.line as int,
        }
    }
}

impl Token {
    pub fn new(token_type: TokenType, lexeme: &str, line: i32) -> (t: Token)
        ensures
            t@ == (SpecToken { token_type: token_type@, lexeme: lexeme@, line: line as int }),
    {
        Self { token_type, lexeme: lexeme.to_owned(), line }
    }
}

/// The reserved words of the language, as a total, case-sensitive,
/// exact-match decision: any other spelling is an identifier.
pub open spec fn spec_keyword(text: Seq<char>) -> SpecTokenType {
    if text == "and"@ {
        SpecTokenType::AND
    } else if text == "class"@ {
        SpecTokenType::CLASS
    } else if text == "else"@ {
        SpecTokenType::ELSE
    } else if text == "false"@ {
        SpecTokenType::FALSE
    } else if text == "for"@ {
        SpecTokenType::FOR
    } else if text == "fun"@ {
        SpecTokenType::FUN
    } else if text == "if"@ {
        SpecTokenType::IF
    } else if text == "nil"@ {
        SpecTokenType::NIL
    } else if text == "or"@ {
        SpecTokenType::OR
    } else if text == "print"@ {
        SpecTokenType::PRINT
    } else if text == "return"@ {
        SpecTokenType::RETURN
    } else if text == "super"@ {
        SpecTokenType::SUPER
    } else if text == "this"@ {
        SpecTokenType::THIS
    } else if text == "true"@ {
        SpecTokenType::TRUE
    } else if text == "var"@ {
        SpecTokenType::VAR
    } else if text == "while"@ {
        SpecTokenType::WHILE
    } else {
        SpecTokenType::IDENTIFIER
    }
}

/// Looks an identifier-shaped lexeme up in the keyword table: the matching
/// reserved-word kind if the spelling is reserved, else IDENTIFIER.
pub fn keyword_or_identifier(text: &String) -> (t: TokenType)
    ensures
        t@ == spec_keyword(text@),
{
    if *text == "and".to_owned() {
        TokenType::AND
    } else if *text == "class".to_owned() {
        TokenType::CLASS
    } else if *text == "else".to_owned() {
        TokenType::ELSE
    } else if *text == "false".to_owned() {
        TokenType::FALSE
    } else if *text == "for".to_owned() {
        TokenType::FOR
    } else if *text == "fun".to_owned() {
        TokenType::FUN
    } else if *text == "if".to_owned() {
        TokenType::IF
    } else if *text == "nil".to_owned() {
        TokenType::NIL
    } else if *text == "or".to_owned() {
        TokenType::OR
    } else if *text == "print".to_owned() {
        TokenType::PRINT
    } else if *text == "return".to_owned() {
        TokenType::RETURN
    } else if *text == "super".to_owned() {
        TokenType::SUPER
    } else if *text == "this".to_owned() {
        TokenType::THIS
    } else if *text == "true".to_owned() {
        TokenType::TRUE
    } else if *text == "var".to_owned() {
        TokenType::VAR
    } else if *text == "while".to_owned() {
        TokenType::WHILE
    } else {
        TokenType::IDENTIFIER
    }
}

} // verus!
