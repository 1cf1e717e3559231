use vstd::prelude::*;

verus! {

/// The closed set of token categories.
#[derive(Clone, Copy, Debug, PartialEq, Eq, Structural)]
pub enum TokenType {
    LeftParen,
    RightParen,
    LeftBrace,
    RightBrace,
    Comma,
    Dot,
    Minus,
    Plus,
    SemiColon,
    Star,
    Bang,
    BangEqual,
    Assign,
    Equals,
    Greater,
    GreaterEqual,
    Less,
    LessEqual,
    Slash,
    Identifier,
    String,
    Number,
    And,
    Class,
    Else,
    False,
    Fun,
    For,
    If,
    Nil,
    Or,
    Print,
    Return,
    Super,
    This,
    True,
    Var,
    While,
    Eof,
}

/// The payload of a literal token. A number is held as the decimal text
/// that denotes it; turning that text into a binary float is the caller's
/// business.
#[derive(Clone, Debug)]
pub enum Object {
    Num(String),
    Str(String),
    Nil,
    True,
    False,
}

/// The mathematical value of an [`Object`].
pub enum ObjectView {
    Num(Seq<char>),
    Str(Seq<char>),
    Nil,
    True,
    False,
}

impl View for Object {
    type V = ObjectView;

    open spec fn view(&self) -> ObjectView {
        match self {
            Object::Num(s) => ObjectView::Num(s@),
            Object::Str(s) => ObjectView::Str(s@),
            Object::Nil => ObjectView::Nil,
            Object::True => ObjectView::True,
            Object::False => ObjectView::False,
        }
    }
}

/// The mathematical value of a [`Token`].
pub struct TokenView {
    pub kind: TokenType,
    pub lexeme: Seq<char>,
    pub literal: Option<ObjectView>,
    pub line: nat,
}

pub open spec fn literal_view(l: Option<Object>) -> Option<ObjectView> {
    match l {
        Some(o) => Some(o@),
        None => None,
    }
}

/// One classified lexical unit: its kind, the exact source text it was
/// made from, its literal payload if any, and the line on which it began.
#[derive(Clone, Debug)]
pub struct Token {
    t_type: TokenType,
    lexeme: String,
    literal: Option<Object>,
    line: usize,
}

impl View for Token {
    type V = TokenView;

    closed spec fn view(&self) -> TokenView {
        TokenView {
            kind: self.t_type,
            lexeme: self.lexeme@,
            literal: literal_view(self.literal),
            line: self.line as nat,
        }
    }
}

/// The end-of-input marker on a given line.
pub open spec fn eof_view(line: nat) -> TokenView {
    TokenView { kind: TokenType::Eof, lexeme: Seq::empty(), literal: None, line }
}

impl Token {
    pub fn new(t_type: TokenType, lexeme: String, literal: Option<Object>, line: usize) -> (r: Token)
        ensures
            r@ == (TokenView {
                kind: t_type,
                lexeme: lexeme@,
                literal: literal_view(literal),
                line: line as nat,
            }),
    {
        Token { t_type, lexeme, literal, line }
    }

    pub fn eof(line: usize) -> (r: Token)
        ensures
            r@ == eof_view(line as nat),
    {
        Token { t_type: TokenType::Eof, lexeme: String::new(), literal: None, line }
    }

    pub fn kind(&self) -> (r: TokenType)
        ensures
            r == self@.kind,
    {
        self.t_type
    }

    pub fn lexeme(&self) -> (r: &String)
        ensures
            r@ == self@.lexeme,
    {
        &self.lexeme
    }

    pub fn literal(&self) -> (r: &Option<Object>)
        ensures
            literal_view(*r) == self@.literal,
    {
        &self.literal
    }

    pub fn line(&self) -> (r: usize)
        ensures
            r as nat == self@.line,
    {
        self.line
    }
}

} // verus!
