//! Declarations: what one line of a table of types and variables says.
//!
//! An [`Entry`] is a path written as text, with or without a default value.
//! What it declares follows from the path. A segment `var` before the last
//! segment makes it a variable of the type that the segments before `var`
//! name; the last segment is the variable's name, and what stands between
//! is the path of its declared type, qualifiers such as `static` included.
//! Without such a segment the entry declares the type at the path, unless it
//! has a default: `a/b/parent_type` with a default makes `a/b` inherit from
//! the type that the default refers to, and any other path with a default
//! sets a variable of the type one level up.

use vstd::prelude::*;
use crate::ast::{default_view, Expression, ExpressionView};
use crate::error::RegistrationError;
use crate::location::Location;
use crate::objtree::{
    entry_added, keeps_declarations, lemma_entry_added_keeps, lemma_var_added_keeps, var_added,
    ObjectTree, TreeView, TypeVar, TypeVarView,
};
use crate::path::{clone_range, segments_valid, split, split_path, valid_segments};

verus! {

/// The segment that marks what follows it as a variable.
pub open spec fn var_marker() -> Seq<char> {
    "var"@
}

/// The name under which a type's parent is given.
pub open spec fn parent_type_name() -> Seq<char> {
    "parent_type"@
}

/// One line of a table of declarations.
#[derive(Debug, PartialEq, Eq)]
pub struct Entry {
    /// The path, its segments separated by `/`.
    pub path: String,
    /// The default value, if the line gives one.
    pub default: Option<Expression>,
}

/// The model of an [`Entry`].
pub struct EntryView {
    pub path: Seq<char>,
    pub default: Option<ExpressionView>,
}

impl View for Entry {
    type V = EntryView;

    open spec fn view(&self) -> EntryView {
        EntryView { path: self.path@, default: default_view(self.default) }
    }
}

/// What an entry declares.
#[derive(Debug, PartialEq, Eq)]
pub enum Declaration {
    /// The type at `path`; with `parent`, also what it inherits from.
    Type { path: Vec<String>, parent: Option<Expression> },
    /// The variable `var` of the type at `path`.
    Var { path: Vec<String>, var: TypeVar },
}

/// The model of a [`Declaration`].
pub enum DeclarationView {
    Type { path: Seq<Seq<char>>, parent: Option<ExpressionView> },
    Var { path: Seq<Seq<char>>, name: Seq<char>, var: TypeVarView },
}

impl View for Declaration {
    type V = DeclarationView;

    open spec fn view(&self) -> DeclarationView {
        match *self {
            Declaration::Type { path, parent } => DeclarationView::Type {
                path: path.deep_view(),
                parent: default_view(parent),
            },
            Declaration::Var { path, var } => DeclarationView::Var {
                path: path.deep_view(),
                name: var.name@,
                var: var@,
            },
        }
    }
}

/// The index of the first segment at or after `from` that is the marker and
/// is not the last segment.
pub open spec fn first_marker(segments: Seq<Seq<char>>, from: int) -> Option<int>
    decreases segments.len() - from,
{
    if from < 0 || from + 1 >= segments.len() {
        None
    } else if segments[from] == var_marker() {
        Some(from)
    } else {
        first_marker(segments, from + 1)
    }
}

/// What the segments of a path declare, with or without a default.
pub open spec fn classify(
    segments: Seq<Seq<char>>,
    default: Option<ExpressionView>,
    location: Location,
) -> DeclarationView {
    match first_marker(segments, 0) {
        Some(i) => DeclarationView::Var {
            path: segments.subrange(0, i),
            name: segments.last(),
            var: TypeVarView {
                type_path: segments.subrange(i + 1, segments.len() - 1),
                value: default,
                location,
            },
        },
        None => match default {
            None => DeclarationView::Type { path: segments, parent: None },
            Some(value) => if segments.last() == parent_type_name() {
                DeclarationView::Type {
                    path: segments.subrange(0, segments.len() - 1),
                    parent: default,
                }
            } else {
                DeclarationView::Var {
                    path: segments.subrange(0, segments.len() - 1),
                    name: segments.last(),
                    var: TypeVarView { type_path: Seq::empty(), value: default, location },
                }
            },
        },
    }
}

/// What an entry declares. An entry whose path has an empty segment
/// declares nothing.
pub open spec fn parsed(entry: EntryView, location: Location) -> Result<
    DeclarationView,
    RegistrationError,
> {
    let segments = split(entry.path);
    if valid_segments(segments) {
        Ok(classify(segments, entry.default, location))
    } else {
        Err(RegistrationError::EmptySegment)
    }
}

/// What a declaration does to a tree, and how it ends. Only the
/// declaration of a type uses `location`: a variable has its own.
pub open spec fn declared(t: TreeView, location: Location, declaration: DeclarationView) -> (
    TreeView,
    Result<(), RegistrationError>,
) {
    match declaration {
        DeclarationView::Type { path, parent } => entry_added(t, location, path, parent),
        DeclarationView::Var { path, name, var } => var_added(t, path, name, var),
    }
}

/// What an entry does to a tree, and how it ends. An entry that declares
/// nothing changes nothing.
pub open spec fn entry_inserted(t: TreeView, location: Location, entry: EntryView) -> (
    TreeView,
    Result<(), RegistrationError>,
) {
    match parsed(entry, location) {
        Ok(declaration) => declared(t, location, declaration),
        Err(e) => (t, Err(e)),
    }
}

/// A path with an empty segment never changes a tree.
pub proof fn lemma_empty_segment_changes_nothing(
    t: TreeView,
    location: Location,
    entry: EntryView,
)
    requires
        !valid_segments(split(entry.path)),
    ensures
        entry_inserted(t, location, entry) == (t, Err::<(), _>(RegistrationError::EmptySegment)),
{
}

/// The models of a sequence of entries, in order.
pub open spec fn entries_view(entries: Seq<Entry>) -> Seq<EntryView> {
    entries.map_values(|entry: Entry| entry@)
}

/// What a sequence of entries does to a tree, and how it ends: the entries
/// are carried out in order up to the first that fails.
pub open spec fn entries_inserted(t: TreeView, location: Location, entries: Seq<EntryView>) -> (
    TreeView,
    Result<(), RegistrationError>,
)
    decreases entries.len(),
{
    if entries.len() == 0 {
        (t, Ok(()))
    } else {
        let first = entry_inserted(t, location, entries[0]);
        if first.1 is Err {
            first
        } else {
            entries_inserted(first.0, location, entries.skip(1))
        }
    }
}

/// Whatever an entry does, it removes no type and changes no variable that
/// was there.
pub proof fn lemma_entry_inserted_keeps(t: TreeView, location: Location, entry: EntryView)
    ensures
        keeps_declarations(t, entry_inserted(t, location, entry).0),
{
    match parsed(entry, location) {
        Ok(DeclarationView::Type { path, parent }) => {
            lemma_entry_added_keeps(t, location, path, parent);
        },
        Ok(DeclarationView::Var { path, name, var }) => {
            lemma_var_added_keeps(t, path, name, var);
        },
        Err(_) => {},
    }
}

/// Whatever a sequence of entries does, however it ends, it removes no type
/// and changes no variable that was there before the first of them.
pub proof fn lemma_entries_inserted_keep(
    t: TreeView,
    location: Location,
    entries: Seq<EntryView>,
)
    ensures
        keeps_declarations(t, entries_inserted(t, location, entries).0),
    decreases entries.len(),
{
    if entries.len() > 0 {
        let first = entry_inserted(t, location, entries[0]);
        lemma_entry_inserted_keeps(t, location, entries[0]);
        if first.1 is Ok {
            lemma_entries_inserted_keep(first.0, location, entries.skip(1));
        }
    }
}

fn first_marker_index(segments: &[String]) -> (r: Option<usize>)
    ensures
        match r {
            Some(i) => i + 1 < segments.len() && first_marker(segments.deep_view(), 0) == Some(
                i as int,
            ),
            None => first_marker(segments.deep_view(), 0) is None,
        },
{
    let marker = String::from_str("var");
    let n = segments.len();
    let mut i: usize = 0;
    while i < n && i < n - 1
        invariant
            n == segments.len(),
            i <= n,
            marker@ == var_marker(),
            first_marker(segments.deep_view(), 0) == first_marker(segments.deep_view(), i as int),
        decreases n - i,
    {
        proof {
            assert(segments.deep_view()[i as int] == segments[i as int]@);
        }
        if segments[i] == marker {
            return Some(i);
        }
        i += 1;
    }
    None
}

fn clone_default(default: &Option<Expression>) -> (copy: Option<Expression>)
    ensures
        default_view(copy) == default_view(*default),
{
    match default {
        Some(value) => Some(value.clone()),
        None => None,
    }
}

impl Entry {
    /// An entry without a default.
    pub fn new(path: &str) -> (entry: Entry)
        ensures
            entry@ == (EntryView { path: path@, default: None }),
    {
        Entry { path: String::from_str(path), default: None }
    }

    /// An entry with a default.
    pub fn with_default(path: &str, default: Expression) -> (entry: Entry)
        ensures
            entry@ == (EntryView { path: path@, default: Some(default@) }),
    {
        Entry { path: String::from_str(path), default: Some(default) }
    }

    /// What the entry declares, for a declaration made at `location`.
    pub fn parse(&self, location: Location) -> (r: Result<Declaration, RegistrationError>)
        ensures
            match r {
                Ok(declaration) => parsed(self@, location) == Ok::<_, RegistrationError>(
                    declaration@,
                ),
                Err(e) => parsed(self@, location) == Err::<DeclarationView, _>(e),
            },
    {
        let segments = split_path(self.path.as_str());
        if !segments_valid(segments.as_slice()) {
            return Err(RegistrationError::EmptySegment);
        }
        proof {
            crate::path::lemma_split_nonempty(self.path@);
        }
        let n = segments.len();
        let ghost s = segments.deep_view();
        proof {
            assert(s[n - 1] == segments[n - 1]@);
        }
        match first_marker_index(segments.as_slice()) {
            Some(i) => {
                let var = TypeVar {
                    name: segments[n - 1].clone(),
                    type_path: clone_range(segments.as_slice(), i + 1, n - 1),
                    value: clone_default(&self.default),
                    location,
                };
                Ok(Declaration::Var { path: clone_range(segments.as_slice(), 0, i), var })
            },
            None => {
                match &self.default {
                    None => Ok(Declaration::Type { path: segments, parent: None }),
                    Some(value) => {
                        let path = clone_range(segments.as_slice(), 0, n - 1);
                        if segments[n - 1] == String::from_str("parent_type") {
                            Ok(Declaration::Type { path, parent: Some(value.clone()) })
                        } else {
                            let var = TypeVar {
                                name: segments[n - 1].clone(),
                                type_path: Vec::new(),
                                value: Some(value.clone()),
                                location,
                            };
                            proof {
                                assert(var.type_path.deep_view() =~= Seq::empty());
                            }
                            Ok(Declaration::Var { path, var })
                        }
                    },
                }
            },
        }
    }
}

impl ObjectTree {
    /// Carries out a declaration. Types that it creates are stamped with
    /// `location` where it declares a type, and with the variable's own
    /// location where it declares a variable.
    pub fn declare(&mut self, location: Location, declaration: Declaration) -> (r: Result<
        (),
        RegistrationError,
    >)
        requires
            old(self).wf(),
        ensures
            final(self).wf(),
            (final(self)@, r) == declared(old(self)@, location, declaration@),
    {
        match declaration {
            Declaration::Type { path, parent } => self.add_entry(
                location,
                path.as_slice(),
                parent.as_ref(),
            ),
            Declaration::Var { path, var } => self.add_var(path.as_slice(), var),
        }
    }

    /// Carries out what an entry declares, as a declaration made at
    /// `location`. An entry whose path has an empty segment fails with
    /// `EmptySegment` and leaves the tree as it was.
    pub fn insert(&mut self, location: Location, entry: &Entry) -> (r: Result<
        (),
        RegistrationError,
    >)
        requires
            old(self).wf(),
        ensures
            final(self).wf(),
            (final(self)@, r) == entry_inserted(old(self)@, location, entry@),
    {
        match entry.parse(location) {
            Ok(declaration) => self.declare(location, declaration),
            Err(e) => Err(e),
        }
    }

    /// Carries out the entries in order, as declarations made at `location`.
    /// Stops at the first entry that fails and returns its error; what the
    /// entries before it declared stays in the tree.
    pub fn insert_all(&mut self, location: Location, entries: &[Entry]) -> (r: Result<
        (),
        RegistrationError,
    >)
        requires
            old(self).wf(),
        ensures
            final(self).wf(),
            (final(self)@, r) == entries_inserted(old(self)@, location, entries_view(entries@)),
    {
        let ghost all = entries_view(entries@);
        let ghost start = self@;
        let mut i: usize = 0;
        proof {
            assert(all.skip(0) =~= all);
        }
        while i < entries.len()
            invariant
                self.wf(),
                i <= entries.len(),
                all == entries_view(entries@),
                start == old(self)@,
                entries_inserted(start, location, all) == entries_inserted(
                    self@,
                    location,
                    all.skip(i as int),
                ),
            decreases entries.len() - i,
        {
            let ghost before = self@;
            proof {
                assert(all.skip(i as int)[0] == entries[i as int]@);
                assert(all.skip(i as int).skip(1) =~= all.skip(i + 1));
            }
            match self.insert(location, &entries[i]) {
                Ok(()) => {},
                Err(e) => {
                    proof {
                        let first = entry_inserted(before, location, all.skip(i as int)[0]);
                        assert(first == (self@, Err::<(), _>(e)));
                        assert(entries_inserted(before, location, all.skip(i as int)) == first);
                    }
                    return Err(e);
                },
            }
            i += 1;
        }
        Ok(())
    }
}

} // verus!
