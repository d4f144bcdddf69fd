//! BYOND built-ins for a DreamMaker front end: the constant macros that the
//! preprocessor starts from, and the object tree of built-in types and their
//! variables that user code is layered onto.

pub mod ast;
pub mod builtins;
pub mod entry;
pub mod error;
pub mod lexer;
pub mod location;
pub mod objtree;
pub mod path;
pub mod preprocessor;

pub use builtins::{default_defines, register_builtins};
