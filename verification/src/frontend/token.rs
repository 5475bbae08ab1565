use std::ops::Range;
use vstd::prelude::*;
use vstd::std_specs::cmp::PartialEqSpecImpl;

verus! {

/// The kinds of token of the source language.
#[derive(PartialEq, Eq, Debug, Clone, Copy, Structural)]
#[allow(non_camel_case_types)]
pub enum TokenType {
    IDENTIFIER,
    INTEGER,
    FLOAT,
    STRING,
    CHAR,
    FN,
    LET,
    CONST,
    IF,
    ELSE,
    WHILE,
    RETURN,
    PLUS,
    MINUS,
    ASTERISK,
    SLASH,
    EQ,
    NEQ,
    LT,
    GT,
    LTE,
    GTE,
    NOT,
    AND,
    OR,
    LOGICAL_AND,
    LOGICAL_OR,
    ASSIGN,
    PLUS_ASSIGN,
    MINUS_ASSIGN,
    DOT,
    LPAREN,
    RPAREN,
    LBRACE,
    RBRACE,
    LBRACKET,
    RBRACKET,
    COMMA,
    COLON,
    SEMICOLON,
    ARROW,
    WS,
}

pub const LOGICAL_OPERATORS: [TokenType; 2] = [TokenType::LOGICAL_AND, TokenType::LOGICAL_OR];

pub const ARITHMETIC_OPERATORS: [TokenType; 4] = [
    TokenType::PLUS,
    TokenType::MINUS,
    TokenType::ASTERISK,
    TokenType::SLASH,
];

pub const ASSIGN_OPERATORS: [TokenType; 3] = [
    TokenType::ASSIGN,
    TokenType::PLUS_ASSIGN,
    TokenType::MINUS_ASSIGN,
];

pub const COMPARISSON_OPERATORS: [TokenType; 6] = [
    TokenType::EQ,
    TokenType::NEQ,
    TokenType::GT,
    TokenType::GTE,
    TokenType::LT,
    TokenType::LTE,
];

pub const BINARY_OPERATORS: [TokenType; 15] = [
    TokenType::LOGICAL_AND,
    TokenType::LOGICAL_OR,
    TokenType::PLUS,
    TokenType::MINUS,
    TokenType::ASTERISK,
    TokenType::SLASH,
    TokenType::ASSIGN,
    TokenType::PLUS_ASSIGN,
    TokenType::MINUS_ASSIGN,
    TokenType::EQ,
    TokenType::NEQ,
    TokenType::GT,
    TokenType::GTE,
    TokenType::LT,
    TokenType::LTE,
];

/// A token: its kind, its text, and where it stands, as a range of lines
/// and a range of columns.
#[derive(Debug)]
pub struct Token {
    pub token_type: TokenType,
    pub literal: String,
    pub position: (Range<usize>, Range<usize>),
    pub src: usize,
}

pub struct TokenModel {
    pub token_type: TokenType,
    pub literal: Seq<char>,
    pub lines: (usize, usize),
    pub columns: (usize, usize),
    pub src: usize,
}

impl View for Token {
    type V = TokenModel;

    open spec fn view(&self) -> TokenModel {
        TokenModel {
            token_type: self.token_type,
            literal: self.literal@,
            lines: (self.position.0.start, self.position.0.end),
            columns: (self.position.1.start, self.position.1.end),
            src: self.src,
        }
    }
}

impl Token {
    pub fn new(
        token_type: TokenType,
        literal: String,
        position: (Range<usize>, Range<usize>),
        src: usize,
    ) -> (token: Token)
        ensures
            token@ == (TokenModel {
                token_type,
                literal: literal@,
                lines: (position.0.start, position.0.end),
                columns: (position.1.start, position.1.end),
                src,
            }),
    {
        Token { token_type, literal, position, src }
    }
}

impl Clone for Token {
    fn clone(&self) -> (token: Token)
        ensures
            token@ == self@,
    {
        Token {
            token_type: self.token_type,
            literal: self.literal.clone(),
            position: (
                self.position.0.start..self.position.0.end,
                self.position.1.start..self.position.1.end,
            ),
            src: self.src,
        }
    }
}

/// Two tokens are equal where their kinds and their texts are: where they
/// stand does not count.
impl PartialEq for Token {
    fn eq(&self, other: &Token) -> (r: bool) {
        self.token_type == other.token_type && self.literal == other.literal
    }
}

impl PartialEqSpecImpl for Token {
    open spec fn obeys_eq_spec() -> bool {
        true
    }

    open spec fn eq_spec(&self, other: &Token) -> bool {
        self.token_type == other.token_type && self.literal@ == other.literal@
    }
}

} // verus!
