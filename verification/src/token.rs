use vstd::prelude::*;

verus! {

/// The kinds of tokens that the lexer produces.
#[derive(Clone, Copy, Debug, PartialEq, Eq, Structural, Hash)]
pub enum Token {
    // Not really tokens: they carry no meaning for the evaluator
    Comment,
    Error,
    Whitespace,

    // Keywords
    Assert,
    Else,
    If,
    In,
    Inherit,
    Let,
    Rec,
    Then,
    With,

    // Symbols
    CurlyBOpen,
    CurlyBClose,
    SquareBOpen,
    SquareBClose,
    Assign,
    At,
    Colon,
    Comma,
    Dot,
    Ellipsis,
    Question,
    Semicolon,

    // Operators
    ParenOpen,
    ParenClose,
    Concat,
    Invert,
    Merge,

    Add,
    Sub,
    Mul,
    Div,

    And,
    Equal,
    Implication,
    Less,
    LessOrEq,
    More,
    MoreOrEq,
    NotEqual,
    Or,

    // Identifiers and values
    Dynamic,
    DynamicEnd,
    Float,
    Ident,
    Integer,
    InterpolEnd,
    InterpolEndStart,
    InterpolStart,
    Path,
    Value,
}

impl Token {
    /// Trivia is what carries no meaning: comments, whitespace and lexer errors.
    pub open spec fn spec_is_trivia(self) -> bool {
        self == Token::Comment || self == Token::Error || self == Token::Whitespace
    }

    /// A value token: a number, a path or a string-like value.
    pub open spec fn spec_is_value(self) -> bool {
        self == Token::Float || self == Token::Integer || self == Token::Path || self == Token::Value
    }

    /// Returns true if this token is trivia (a comment, whitespace or an error)
    #[verifier::when_used_as_spec(spec_is_trivia)]
    pub fn is_trivia(self) -> (res: bool)
        ensures
            res == self.spec_is_trivia(),
    {
        match self {
            Token::Comment | Token::Error | Token::Whitespace => true,
            _ => false,
        }
    }

    /// Returns true if this token is a value, such as an integer or a path
    #[verifier::when_used_as_spec(spec_is_value)]
    pub fn is_value(self) -> (res: bool)
        ensures
            res == self.spec_is_value(),
    {
        match self {
            Token::Float | Token::Integer | Token::Path | Token::Value => true,
            _ => false,
        }
    }
}

} // verus!
