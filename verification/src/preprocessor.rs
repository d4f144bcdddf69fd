//! The macros that the preprocessor knows, by name.

use vstd::prelude::*;
use vstd::hash_map::StringHashMap;
use crate::lexer::{tokens_view, Token, TokenView};

verus! {

/// What a macro name stands for.
#[derive(Debug, PartialEq, Eq)]
pub enum Define {
    /// A constant: the name is replaced by the tokens.
    Constant { subst: Vec<Token> },
    /// A macro with parameters.
    Function { params: Vec<String>, subst: Vec<Token>, variadic: bool },
}

/// The model of a [`Define`].
pub enum DefineView {
    Constant { subst: Seq<TokenView> },
    Function { params: Seq<Seq<char>>, subst: Seq<TokenView>, variadic: bool },
}

impl View for Define {
    type V = DefineView;

    open spec fn view(&self) -> DefineView {
        match *self {
            Define::Constant { subst } => DefineView::Constant { subst: tokens_view(subst@) },
            Define::Function { params, subst, variadic } => DefineView::Function {
                params: params.deep_view(),
                subst: tokens_view(subst@),
                variadic,
            },
        }
    }
}

/// The constant that stands for one integer literal.
pub open spec fn int_constant(value: int) -> DefineView {
    DefineView::Constant { subst: seq![TokenView::Int(value)] }
}

/// The constant that stands for one string literal.
pub open spec fn string_constant(text: Seq<char>) -> DefineView {
    DefineView::Constant { subst: seq![TokenView::String(text)] }
}

impl Define {
    /// The constant that stands for one integer literal.
    pub fn from_int(value: i32) -> (define: Define)
        ensures
            define@ == int_constant(value as int),
    {
        let mut subst: Vec<Token> = Vec::new();
        subst.push(Token::Int(value));
        proof {
            assert(tokens_view(subst@) =~= seq![TokenView::Int(value as int)]);
        }
        Define::Constant { subst }
    }

    /// The constant that stands for one string literal.
    pub fn from_string(text: &str) -> (define: Define)
        ensures
            define@ == string_constant(text@),
    {
        let mut subst: Vec<Token> = Vec::new();
        subst.push(Token::String(String::from_str(text)));
        proof {
            assert(tokens_view(subst@) =~= seq![TokenView::String(text@)]);
        }
        Define::Constant { subst }
    }
}

/// The macros that are defined, by name.
pub struct DefineMap {
    map: StringHashMap<Define>,
}

impl View for DefineMap {
    type V = Map<Seq<char>, DefineView>;

    closed spec fn view(&self) -> Map<Seq<char>, DefineView> {
        self.map@.map_values(|define: Define| define@)
    }
}

impl DefineMap {
    /// A map in which nothing is defined.
    pub fn new() -> (defines: DefineMap)
        ensures
            defines@ == Map::<Seq<char>, DefineView>::empty(),
    {
        let defines = DefineMap { map: StringHashMap::new() };
        proof {
            assert(defines@ =~= Map::<Seq<char>, DefineView>::empty());
        }
        defines
    }

    /// Defines `name`, replacing what it stood for before.
    pub fn insert(&mut self, name: String, define: Define)
        ensures
            final(self)@ == old(self)@.insert(name@, define@),
    {
        self.map.insert(name, define);
        proof {
            assert(self@ =~= old(self)@.insert(name@, define@));
        }
    }

    /// What `name` stands for, if it is defined.
    pub fn get(&self, name: &str) -> (r: Option<&Define>)
        ensures
            match r {
                Some(define) => self@.dom().contains(name@) && self@[name@] == define@,
                None => !self@.dom().contains(name@),
            },
    {
        self.map.get(name)
    }

    /// Whether `name` is defined.
    pub fn contains_key(&self, name: &str) -> (b: bool)
        ensures
            b == self@.dom().contains(name@),
    {
        self.map.contains_key(name)
    }

    /// The number of names that are defined.
    pub fn len(&self) -> (n: usize)
        ensures
            n == self@.dom().len(),
    {
        proof {
            assert(self@.dom() =~= self.map@.dom());
        }
        self.map.len()
    }
}

} // verus!
