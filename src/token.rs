use vstd::prelude::*;

verus! {

/// The lexical category of a token, without its text.
#[derive(Clone, Copy, Debug, PartialEq, Eq, Structural)]
pub enum TokenKind {
    Illegal,
    EoF,
    Plus,
    Minus,
    Multiply,
    Divide,
    Lparen,
    Rparen,
    Ident,
    Log,
    Exp,
}

/// A token of formula text; each variant carries its lexeme verbatim.
#[derive(Debug, PartialEq)]
pub enum Token {
    Illegal(String),
    EoF(String),
    Plus(String),
    Minus(String),
    Multiply(String),
    Divide(String),
    Lparen(String),
    Rparen(String),
    Ident(String),
    Log(String),
    Exp(String),
}

impl View for Token {
    /// A token is seen as its category and the characters of its lexeme.
    type V = (TokenKind, Seq<char>);

    open spec fn view(&self) -> (TokenKind, Seq<char>) {
        match self {
            Token::Illegal(s) => (TokenKind::Illegal, s@),
            Token::EoF(s) => (TokenKind::EoF, s@),
            Token::Plus(s) => (TokenKind::Plus, s@),
            Token::Minus(s) => (TokenKind::Minus, s@),
            Token::Multiply(s) => (TokenKind::Multiply, s@),
            Token::Divide(s) => (TokenKind::Divide, s@),
            Token::Lparen(s) => (TokenKind::Lparen, s@),
            Token::Rparen(s) => (TokenKind::Rparen, s@),
            Token::Ident(s) => (TokenKind::Ident, s@),
            Token::Log(s) => (TokenKind::Log, s@),
            Token::Exp(s) => (TokenKind::Exp, s@),
        }
    }
}

impl Token {
    /// Builds the token of the given category around a lexeme.
    pub fn new(kind: TokenKind, lexeme: String) -> (r: Token)
        ensures
            r@ == (kind, lexeme@),
    {
        match kind {
            TokenKind::Illegal => Token::Illegal(lexeme),
            TokenKind::EoF => Token::EoF(lexeme),
            TokenKind::Plus => Token::Plus(lexeme),
            TokenKind::Minus => Token::Minus(lexeme),
            TokenKind::Multiply => Token::Multiply(lexeme),
            TokenKind::Divide => Token::Divide(lexeme),
            TokenKind::Lparen => Token::Lparen(lexeme),
            TokenKind::Rparen => Token::Rparen(lexeme),
            TokenKind::Ident => Token::Ident(lexeme),
            TokenKind::Log => Token::Log(lexeme),
            TokenKind::Exp => Token::Exp(lexeme),
        }
    }

    /// The category of this token.
    pub fn kind(&self) -> (r: TokenKind)
        ensures
            r == self@.0,
    {
        match self {
            Token::Illegal(_) => TokenKind::Illegal,
            Token::EoF(_) => TokenKind::EoF,
            Token::Plus(_) => TokenKind::Plus,
            Token::Minus(_) => TokenKind::Minus,
            Token::Multiply(_) => TokenKind::Multiply,
            Token::Divide(_) => TokenKind::Divide,
            Token::Lparen(_) => TokenKind::Lparen,
            Token::Rparen(_) => TokenKind::Rparen,
            Token::Ident(_) => TokenKind::Ident,
            Token::Log(_) => TokenKind::Log,
            Token::Exp(_) => TokenKind::Exp,
        }
    }
}

} // verus!
