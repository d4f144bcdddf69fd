//! Why a declaration could not be registered.

use vstd::prelude::*;

verus! {

/// The ways in which registering a declaration can fail.
#[derive(Clone, Copy, Debug, PartialEq, Eq, Structural)]
pub enum RegistrationError {
    /// The path has no segments, or one of its segments is empty.
    EmptySegment,
    /// A name is declared both as a type and as a variable of the same type,
    /// or a variable is declared twice.
    KindConflict,
    /// A default names a type that is not in the tree.
    UnresolvedReference,
}

impl RegistrationError {
    /// A one-line description for diagnostics.
    pub fn description(&self) -> (text: &'static str)
        ensures
            text@ == match *self {
                RegistrationError::EmptySegment => "path with an empty segment"@,
                RegistrationError::KindConflict => "name declared twice on the same type"@,
                RegistrationError::UnresolvedReference => "reference to an undeclared type"@,
            },
    {
        match self {
            RegistrationError::EmptySegment => "path with an empty segment",
            RegistrationError::KindConflict => "name declared twice on the same type",
            RegistrationError::UnresolvedReference => "reference to an undeclared type",
        }
    }
}

} // verus!
