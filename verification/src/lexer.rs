//! The tokens that a constant macro can stand for.

use vstd::prelude::*;

verus! {

/// A literal token.
#[derive(Debug, PartialEq, Eq)]
pub enum Token {
    /// An integer literal.
    Int(i32),
    /// A string literal.
    String(String),
}

/// The model of a [`Token`].
pub enum TokenView {
    Int(int),
    String(Seq<char>),
}

impl View for Token {
    type V = TokenView;

    open spec fn view(&self) -> TokenView {
        match *self {
            Token::Int(value) => TokenView::Int(value as int),
            Token::String(text) => TokenView::String(text@),
        }
    }
}

impl Clone for Token {
    fn clone(&self) -> (copy: Self)
        ensures
            copy@ == self@,
    {
        match self {
            Token::Int(value) => Token::Int(*value),
            Token::String(text) => Token::String(text.clone()),
        }
    }
}

/// The models of a sequence of tokens, in order.
pub open spec fn tokens_view(tokens: Seq<Token>) -> Seq<TokenView> {
    tokens.map_values(|token: Token| token@)
}

} // verus!
