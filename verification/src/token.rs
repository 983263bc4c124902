//! The lexical units of the language.
use vstd::prelude::*;

verus! {

/// A token as the lexer hands it out.
///
/// `Ident` carries the identifier's name and `Num` the spelling of a numeric
/// literal, which is always a well-formed decimal literal (see
/// [`crate::lexer::is_number_literal`]).
#[derive(PartialEq, Eq, Debug)]
pub enum Token {
    Eof,
    Illegal,
    Plus,
    Minus,
    Asterisk,
    Slash,
    Assign,
    Equal,
    NotEqual,
    Bang,
    Gt,
    Lt,
    Gte,
    Lte,
    Comma,
    Semicolon,
    LParen,
    RParen,
    LCurlyBracket,
    RCurlyBracket,
    LSquareBracket,
    RSquareBracket,
    If,
    Else,
    Return,
    Let,
    Fn,
    Ident(String),
    Num(String),
    True,
    False,
}

/// The mathematical value of a [`Token`]: the same variants, with text as a
/// sequence of characters.
pub enum TokenView {
    Eof,
    Illegal,
    Plus,
    Minus,
    Asterisk,
    Slash,
    Assign,
    Equal,
    NotEqual,
    Bang,
    Gt,
    Lt,
    Gte,
    Lte,
    Comma,
    Semicolon,
    LParen,
    RParen,
    LCurlyBracket,
    RCurlyBracket,
    LSquareBracket,
    RSquareBracket,
    If,
    Else,
    Return,
    Let,
    Fn,
    Ident(Seq<char>),
    Num(Seq<char>),
    True,
    False,
}

impl View for Token {
    type V = TokenView;

    open spec fn view(&self) -> TokenView {
        match self {
            Token::Eof => TokenView::Eof,
            Token::Illegal => TokenView::Illegal,
            Token::Plus => TokenView::Plus,
            Token::Minus => TokenView::Minus,
            Token::Asterisk => TokenView::Asterisk,
            Token::Slash => TokenView::Slash,
            Token::Assign => TokenView::Assign,
            Token::Equal => TokenView::Equal,
            Token::NotEqual => TokenView::NotEqual,
            Token::Bang => TokenView::Bang,
            Token::Gt => TokenView::Gt,
            Token::Lt => TokenView::Lt,
            Token::Gte => TokenView::Gte,
            Token::Lte => TokenView::Lte,
            Token::Comma => TokenView::Comma,
            Token::Semicolon => TokenView::Semicolon,
            Token::LParen => TokenView::LParen,
            Token::RParen => TokenView::RParen,
            Token::LCurlyBracket => TokenView::LCurlyBracket,
            Token::RCurlyBracket => TokenView::RCurlyBracket,
            Token::LSquareBracket => TokenView::LSquareBracket,
            Token::RSquareBracket => TokenView::RSquareBracket,
            Token::If => TokenView::If,
            Token::Else => TokenView::Else,
            Token::Return => TokenView::Return,
            Token::Let => TokenView::Let,
            Token::Fn => TokenView::Fn,
            Token::Ident(name) => TokenView::Ident(name@),
            Token::Num(literal) => TokenView::Num(literal@),
            Token::True => TokenView::True,
            Token::False => TokenView::False,
        }
    }
}

impl Clone for Token {
    fn clone(&self) -> (copy: Token)
        ensures
            copy@ == self@,
    {
        match self {
            Token::Eof => Token::Eof,
            Token::Illegal => Token::Illegal,
            Token::Plus => Token::Plus,
            Token::Minus => Token::Minus,
            Token::Asterisk => Token::Asterisk,
            Token::Slash => Token::Slash,
            Token::Assign => Token::Assign,
            Token::Equal => Token::Equal,
            Token::NotEqual => Token::NotEqual,
            Token::Bang => Token::Bang,
            Token::Gt => Token::Gt,
            Token::Lt => Token::Lt,
            Token::Gte => Token::Gte,
            Token::Lte => Token::Lte,
            Token::Comma => Token::Comma,
            Token::Semicolon => Token::Semicolon,
            Token::LParen => Token::LParen,
            Token::RParen => Token::RParen,
            Token::LCurlyBracket => Token::LCurlyBracket,
            Token::RCurlyBracket => Token::RCurlyBracket,
            Token::LSquareBracket => Token::LSquareBracket,
            Token::RSquareBracket => Token::RSquareBracket,
            Token::If => Token::If,
            Token::Else => Token::Else,
            Token::Return => Token::Return,
            Token::Let => Token::Let,
            Token::Fn => Token::Fn,
            Token::Ident(name) => Token::Ident(name.clone()),
            Token::Num(literal) => Token::Num(literal.clone()),
            Token::True => Token::True,
            Token::False => Token::False,
        }
    }
}

} // verus!
