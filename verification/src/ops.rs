use vstd::prelude::*;
use crate::token::Token;

verus! {

/// The kind of a binary operation
#[derive(Clone, Copy, Debug, PartialEq, Eq, Structural, Hash)]
pub enum OpKind {
    Concat,
    IsSet,
    Merge,

    Add,
    Sub,
    Mul,
    Div,

    And,
    Equal,
    Implication,
    Less,
    LessOrEq,
    More,
    MoreOrEq,
    NotEqual,
    Or,
}

/// The binary operation that a token stands for, if any.
pub open spec fn op_kind_of(token: Token) -> Option<OpKind> {
    match token {
        Token::Concat => Some(OpKind::Concat),
        Token::Question => Some(OpKind::IsSet),
        Token::Merge => Some(OpKind::Merge),
        Token::Add => Some(OpKind::Add),
        Token::Sub => Some(OpKind::Sub),
        Token::Mul => Some(OpKind::Mul),
        Token::Div => Some(OpKind::Div),
        Token::And => Some(OpKind::And),
        Token::Equal => Some(OpKind::Equal),
        Token::Implication => Some(OpKind::Implication),
        Token::Less => Some(OpKind::Less),
        Token::LessOrEq => Some(OpKind::LessOrEq),
        Token::More => Some(OpKind::More),
        Token::MoreOrEq => Some(OpKind::MoreOrEq),
        Token::NotEqual => Some(OpKind::NotEqual),
        Token::Or => Some(OpKind::Or),
        _ => None,
    }
}

impl OpKind {
    /// Get the operation kind from a token in the AST
    pub fn from_token(token: Token) -> (res: Option<Self>)
        ensures
            res == op_kind_of(token),
    {
        match token {
            Token::Concat => Some(OpKind::Concat),
            Token::Question => Some(OpKind::IsSet),
            Token::Merge => Some(OpKind::Merge),

            Token::Add => Some(OpKind::Add),
            Token::Sub => Some(OpKind::Sub),
            Token::Mul => Some(OpKind::Mul),
            Token::Div => Some(OpKind::Div),

            Token::And => Some(OpKind::And),
            Token::Equal => Some(OpKind::Equal),
            Token::Implication => Some(OpKind::Implication),
            Token::Less => Some(OpKind::Less),
            Token::LessOrEq => Some(OpKind::LessOrEq),
            Token::More => Some(OpKind::More),
            Token::MoreOrEq => Some(OpKind::MoreOrEq),
            Token::NotEqual => Some(OpKind::NotEqual),
            Token::Or => Some(OpKind::Or),

            _ => None,
        }
    }
}

/// The kind of a unary operation
#[derive(Clone, Copy, Debug, PartialEq, Eq, Structural, Hash)]
pub enum UnaryOpKind {
    Invert,
    Negate,
}

/// The unary operation that a token stands for, if any.
pub open spec fn unary_op_kind_of(token: Token) -> Option<UnaryOpKind> {
    match token {
        Token::Invert => Some(UnaryOpKind::Invert),
        Token::Sub => Some(UnaryOpKind::Negate),
        _ => None,
    }
}

impl UnaryOpKind {
    /// Get the operation kind from a token in the AST
    pub fn from_token(token: Token) -> (res: Option<Self>)
        ensures
            res == unary_op_kind_of(token),
    {
        match token {
            Token::Invert => Some(UnaryOpKind::Invert),
            Token::Sub => Some(UnaryOpKind::Negate),
            _ => None,
        }
    }
}

/// Every binary operation comes from exactly one token: two tokens that
/// stand for an operation stand for the same one only if they are the same
/// token.
pub proof fn lemma_op_kind_injective(a: Token, b: Token)
    requires
        op_kind_of(a) is Some,
        op_kind_of(a) == op_kind_of(b),
    ensures
        a == b,
{
}

/// Every binary operation is reachable from some token.
pub proof fn lemma_op_kind_surjective(k: OpKind)
    ensures
        exists|t: Token| op_kind_of(t) == Some(k),
{
    let t = match k {
        OpKind::Concat => Token::Concat,
        OpKind::IsSet => Token::Question,
        OpKind::Merge => Token::Merge,
        OpKind::Add => Token::Add,
        OpKind::Sub => Token::Sub,
        OpKind::Mul => Token::Mul,
        OpKind::Div => Token::Div,
        OpKind::And => Token::And,
        OpKind::Equal => Token::Equal,
        OpKind::Implication => Token::Implication,
        OpKind::Less => Token::Less,
        OpKind::LessOrEq => Token::LessOrEq,
        OpKind::More => Token::More,
        OpKind::MoreOrEq => Token::MoreOrEq,
        OpKind::NotEqual => Token::NotEqual,
        OpKind::Or => Token::Or,
    };
    assert(op_kind_of(t) == Some(k));
}

/// Two tokens that stand for the same unary operation are the same token.
pub proof fn lemma_unary_op_kind_injective(a: Token, b: Token)
    requires
        unary_op_kind_of(a) is Some,
        unary_op_kind_of(a) == unary_op_kind_of(b),
    ensures
        a == b,
{
}

/// Operator tokens are never trivia, and `-` is the one token that stands
/// both for a binary and for a unary operation.
pub proof fn lemma_operator_tokens(t: Token)
    ensures
        op_kind_of(t) is Some ==> !t.spec_is_trivia(),
        unary_op_kind_of(t) is Some ==> !t.spec_is_trivia(),
        (op_kind_of(t) is Some && unary_op_kind_of(t) is Some) <==> t == Token::Sub,
{
}

} // verus!
