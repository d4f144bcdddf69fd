//! Where a symbol was declared.

use vstd::prelude::*;

verus! {

/// The identity of a source file.
///
/// One identity is reserved for the language's built-ins; it is never the
/// identity of a file on disk.
#[derive(Clone, Copy, Debug, PartialEq, Eq, Structural)]
pub struct FileId(pub u16);

/// The identity under which every built-in symbol is declared.
pub const FILEID_BUILTINS: u16 = 0;

impl FileId {
    /// The reserved identity of the built-ins.
    pub fn builtins() -> (id: FileId)
        ensures
            id == FileId(FILEID_BUILTINS),
    {
        FileId(FILEID_BUILTINS)
    }

    /// Whether this is the reserved identity of the built-ins.
    pub fn is_builtins(&self) -> (b: bool)
        ensures
            b == (self.0 == FILEID_BUILTINS),
    {
        self.0 == FILEID_BUILTINS
    }
}

/// A position in a source file.
#[derive(Clone, Copy, Debug, PartialEq, Eq, Structural)]
pub struct Location {
    pub file: FileId,
    pub line: u32,
    pub column: u16,
}

impl Location {
    /// The position that stands for "declared by the language itself".
    pub open spec fn spec_builtins() -> Location {
        Location { file: FileId(FILEID_BUILTINS), line: 1, column: 1 }
    }

    /// The position stamped on every built-in node and variable.
    #[verifier::when_used_as_spec(spec_builtins)]
    pub fn builtins() -> (location: Location)
        ensures
            location == Location::spec_builtins(),
    {
        Location { file: FileId::builtins(), line: 1, column: 1 }
    }

    /// Whether the position belongs to a built-in symbol.
    pub fn is_builtins(&self) -> (b: bool)
        ensures
            b == (self.file.0 == FILEID_BUILTINS),
    {
        self.file.is_builtins()
    }
}

} // verus!
