//! The expressions that a declaration can give as a default value.

use vstd::prelude::*;
use crate::path::clone_path;

verus! {

/// A constant expression.
#[derive(Debug, PartialEq, Eq)]
pub enum Expression {
    /// An integer literal.
    Int(i32),
    /// A string literal.
    String(String),
    /// A reference to a type by its path from the root, as in `/atom/movable`.
    TypePath(Vec<String>),
}

/// The model of an [`Expression`].
pub enum ExpressionView {
    Int(int),
    String(Seq<char>),
    TypePath(Seq<Seq<char>>),
}

impl View for Expression {
    type V = ExpressionView;

    open spec fn view(&self) -> ExpressionView {
        match *self {
            Expression::Int(value) => ExpressionView::Int(value as int),
            Expression::String(text) => ExpressionView::String(text@),
            Expression::TypePath(path) => ExpressionView::TypePath(path.deep_view()),
        }
    }
}

impl Clone for Expression {
    fn clone(&self) -> (copy: Self)
        ensures
            copy@ == self@,
    {
        match self {
            Expression::Int(value) => Expression::Int(*value),
            Expression::String(text) => Expression::String(text.clone()),
            Expression::TypePath(path) => Expression::TypePath(clone_path(path.as_slice())),
        }
    }
}

/// The model of an optional default value.
pub open spec fn default_view(value: Option<Expression>) -> Option<ExpressionView> {
    match value {
        Some(expression) => Some(expression@),
        None => None,
    }
}

} // verus!
