//! The closed set of token kinds produced by the lexer.

use vstd::prelude::*;

verus! {

/// A single lexical token. Tokens are immutable once created; the lexer
/// hands them out one at a time and the parser consumes them strictly
/// forward with two tokens of lookahead.
#[derive(Debug, Clone, PartialEq)]
pub enum Token {
    Illegal,
    Eof,

    Ident(String),
    Int(i32),
    Str(String),
    Bool(bool),

    Assign,
    Plus,
    Minus,
    Bang,
    Asterisk,
    Slash,
    Percent,

    Lt,
    Gt,
    LtEq,
    GtEq,
    Equal,
    NotEq,

    Comma,
    SemiColon,
    Colon,

    RParen,
    LParen,
    LBrace,
    RBrace,
    LBracket,
    RBracket,

    Function,
    Let,
    If,
    Else,
    Return,
    Import,
}

/// Mathematical model of a token: identifier and string payloads are
/// sequences of characters.
pub enum TokenV {
    Illegal,
    Eof,

    Ident(Seq<char>),
    Int(i32),
    Str(Seq<char>),
    Bool(bool),

    Assign,
    Plus,
    Minus,
    Bang,
    Asterisk,
    Slash,
    Percent,

    Lt,
    Gt,
    LtEq,
    GtEq,
    Equal,
    NotEq,

    Comma,
    SemiColon,
    Colon,

    RParen,
    LParen,
    LBrace,
    RBrace,
    LBracket,
    RBracket,

    Function,
    Let,
    If,
    Else,
    Return,
    Import,
}

impl View for Token {
    type V = TokenV;

    open spec fn view(&self) -> TokenV {
        match self {
            Token::Illegal => TokenV::Illegal,
            Token::Eof => TokenV::Eof,
            Token::Ident(s) => TokenV::Ident(s@),
            Token::Int(i) => TokenV::Int(*i),
            Token::Str(s) => TokenV::Str(s@),
            Token::Bool(b) => TokenV::Bool(*b),
            Token::Assign => TokenV::Assign,
            Token::Plus => TokenV::Plus,
            Token::Minus => TokenV::Minus,
            Token::Bang => TokenV::Bang,
            Token::Asterisk => TokenV::Asterisk,
            Token::Slash => TokenV::Slash,
            Token::Percent => TokenV::Percent,
            Token::Lt => TokenV::Lt,
            Token::Gt => TokenV::Gt,
            Token::LtEq => TokenV::LtEq,
            Token::GtEq => TokenV::GtEq,
            Token::Equal => TokenV::Equal,
            Token::NotEq => TokenV::NotEq,
            Token::Comma => TokenV::Comma,
            Token::SemiColon => TokenV::SemiColon,
            Token::Colon => TokenV::Colon,
            Token::RParen => TokenV::RParen,
            Token::LParen => TokenV::LParen,
            Token::LBrace => TokenV::LBrace,
            Token::RBrace => TokenV::RBrace,
            Token::LBracket => TokenV::LBracket,
            Token::RBracket => TokenV::RBracket,
            Token::Function => TokenV::Function,
            Token::Let => TokenV::Let,
            Token::If => TokenV::If,
            Token::Else => TokenV::Else,
            Token::Return => TokenV::Return,
            Token::Import => TokenV::Import,
        }
    }
}

impl DeepView for Token {
    type V = TokenV;

    open spec fn deep_view(&self) -> TokenV {
        self.view()
    }
}

} // verus!
