use dreammaker::ast::Expression;
use dreammaker::entry::{Declaration, Entry};
use dreammaker::error::RegistrationError;
use dreammaker::location::{FileId, Location};
use dreammaker::objtree::TypeVar;

fn names(items: &[&str]) -> Vec<String> {
    items.iter().map(|item| item.to_string()).collect()
}

fn here() -> Location {
    Location { file: FileId(3), line: 10, column: 2 }
}

fn variable(name: &str, type_path: &[&str], value: Option<Expression>) -> TypeVar {
    TypeVar { name: name.to_string(), type_path: names(type_path), value, location: here() }
}

#[test]
fn entry_constructors() {
    assert_eq!(Entry::new("atom"), Entry { path: "atom".to_string(), default: None });
    assert_eq!(
        Entry::with_default("world/var/static/fps", Expression::Int(10)),
        Entry { path: "world/var/static/fps".to_string(), default: Some(Expression::Int(10)) }
    );
}

#[test]
fn a_path_without_marker_declares_a_type() {
    assert_eq!(
        Entry::new("atom/movable").parse(here()),
        Ok(Declaration::Type { path: names(&["atom", "movable"]), parent: None })
    );
    assert_eq!(
        Entry::new("datum").parse(here()),
        Ok(Declaration::Type { path: names(&["datum"]), parent: None })
    );
}

#[test]
fn a_marker_declares_a_variable() {
    assert_eq!(
        Entry::new("atom/var/alpha").parse(here()),
        Ok(Declaration::Var { path: names(&["atom"]), var: variable("alpha", &[], None) })
    );
    assert_eq!(
        Entry::new("atom/movable/var/bound_x").parse(here()),
        Ok(Declaration::Var {
            path: names(&["atom", "movable"]),
            var: variable("bound_x", &[], None)
        })
    );
}

#[test]
fn a_variable_of_the_global_scope() {
    assert_eq!(
        Entry::new("var/type").parse(here()),
        Ok(Declaration::Var { path: names(&[]), var: variable("type", &[], None) })
    );
    assert_eq!(
        Entry::new("var/static/world/world").parse(here()),
        Ok(Declaration::Var {
            path: names(&[]),
            var: variable("world", &["static", "world"], None)
        })
    );
}

#[test]
fn the_declared_type_of_a_variable() {
    assert_eq!(
        Entry::new("atom/var/icon/icon").parse(here()),
        Ok(Declaration::Var { path: names(&["atom"]), var: variable("icon", &["icon"], None) })
    );
    assert_eq!(
        Entry::new("mob/var/list/group").parse(here()),
        Ok(Declaration::Var { path: names(&["mob"]), var: variable("group", &["list"], None) })
    );
    assert_eq!(
        Entry::new("a/var/b/c/d").parse(here()),
        Ok(Declaration::Var { path: names(&["a"]), var: variable("d", &["b", "c"], None) })
    );
}

#[test]
fn static_is_part_of_the_declared_type() {
    assert_eq!(
        Entry::with_default("world/var/static/fps", Expression::Int(10)).parse(here()),
        Ok(Declaration::Var {
            path: names(&["world"]),
            var: variable("fps", &["static"], Some(Expression::Int(10)))
        })
    );
    assert_eq!(
        Entry::with_default(
            "world/var/static/area/area",
            Expression::TypePath(names(&["area"]))
        )
        .parse(here()),
        Ok(Declaration::Var {
            path: names(&["world"]),
            var: variable(
                "area",
                &["static", "area"],
                Some(Expression::TypePath(names(&["area"])))
            )
        })
    );
}

#[test]
fn parent_type_with_a_default_names_the_parent() {
    assert_eq!(
        Entry::with_default("obj/parent_type", Expression::TypePath(names(&["atom", "movable"])))
            .parse(here()),
        Ok(Declaration::Type {
            path: names(&["obj"]),
            parent: Some(Expression::TypePath(names(&["atom", "movable"])))
        })
    );
    assert_eq!(
        Entry::with_default("parent_type", Expression::TypePath(names(&["datum"]))).parse(here()),
        Ok(Declaration::Type {
            path: names(&[]),
            parent: Some(Expression::TypePath(names(&["datum"])))
        })
    );
}

#[test]
fn parent_type_without_a_default_is_a_type() {
    assert_eq!(
        Entry::new("atom/parent_type").parse(here()),
        Ok(Declaration::Type { path: names(&["atom", "parent_type"]), parent: None })
    );
}

#[test]
fn parent_type_after_the_marker_is_a_variable() {
    assert_eq!(
        Entry::new("atom/var/parent_type").parse(here()),
        Ok(Declaration::Var { path: names(&["atom"]), var: variable("parent_type", &[], None) })
    );
    assert_eq!(
        Entry::with_default("atom/var/parent_type", Expression::Int(1)).parse(here()),
        Ok(Declaration::Var {
            path: names(&["atom"]),
            var: variable("parent_type", &[], Some(Expression::Int(1)))
        })
    );
}

#[test]
fn a_default_without_marker_sets_a_variable() {
    assert_eq!(
        Entry::with_default("client/dir", Expression::Int(1)).parse(here()),
        Ok(Declaration::Var {
            path: names(&["client"]),
            var: variable("dir", &[], Some(Expression::Int(1)))
        })
    );
    assert_eq!(
        Entry::with_default("name", Expression::String("byond".to_string())).parse(here()),
        Ok(Declaration::Var {
            path: names(&[]),
            var: variable("name", &[], Some(Expression::String("byond".to_string())))
        })
    );
}

#[test]
fn a_marker_in_last_place_is_a_name() {
    assert_eq!(
        Entry::new("atom/var").parse(here()),
        Ok(Declaration::Type { path: names(&["atom", "var"]), parent: None })
    );
    assert_eq!(
        Entry::new("var").parse(here()),
        Ok(Declaration::Type { path: names(&["var"]), parent: None })
    );
    assert_eq!(
        Entry::new("a/var/var").parse(here()),
        Ok(Declaration::Var { path: names(&["a"]), var: variable("var", &[], None) })
    );
}

#[test]
fn the_first_marker_counts() {
    assert_eq!(
        Entry::new("a/var/b/var/c").parse(here()),
        Ok(Declaration::Var { path: names(&["a"]), var: variable("c", &["b", "var"], None) })
    );
}

#[test]
fn the_marker_is_matched_exactly() {
    assert_eq!(
        Entry::new("a/vars/b").parse(here()),
        Ok(Declaration::Type { path: names(&["a", "vars", "b"]), parent: None })
    );
    assert_eq!(
        Entry::new("a/VAR/b").parse(here()),
        Ok(Declaration::Type { path: names(&["a", "VAR", "b"]), parent: None })
    );
}

#[test]
fn an_empty_segment_declares_nothing() {
    for path in ["", "/", "atom//movable", "/atom", "atom/", "atom/var/", "atom//var/x", "var//x"] {
        assert_eq!(
            Entry::new(path).parse(here()),
            Err(RegistrationError::EmptySegment),
            "{:?}",
            path
        );
        assert_eq!(
            Entry::with_default(path, Expression::Int(1)).parse(here()),
            Err(RegistrationError::EmptySegment),
            "{:?}",
            path
        );
    }
}

#[test]
fn expression_clone_is_equal() {
    for expression in [
        Expression::Int(-4),
        Expression::String("Commands".to_string()),
        Expression::TypePath(names(&["atom", "movable"])),
        Expression::TypePath(names(&[])),
    ] {
        assert_eq!(expression.clone(), expression);
    }
    assert_ne!(Expression::Int(1), Expression::String("1".to_string()));
}

#[test]
fn error_descriptions() {
    assert_eq!(RegistrationError::EmptySegment.description(), "path with an empty segment");
    assert_eq!(
        RegistrationError::KindConflict.description(),
        "name declared twice on the same type"
    );
    assert_eq!(
        RegistrationError::UnresolvedReference.description(),
        "reference to an undeclared type"
    );
}

#[test]
fn the_location_of_the_builtins() {
    let location = Location::builtins();
    assert_eq!(location, Location { file: FileId(0), line: 1, column: 1 });
    assert_eq!(location.file, FileId::builtins());
    assert!(location.is_builtins());
    assert!(FileId::builtins().is_builtins());
    assert!(!here().is_builtins());
    assert!(!FileId(1).is_builtins());
}
