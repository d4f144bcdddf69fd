use dreammaker::ast::Expression;
use dreammaker::builtins::entry_table;
use dreammaker::entry::Entry;
use dreammaker::error::RegistrationError;
use dreammaker::location::{FileId, Location};
use dreammaker::objtree::{ObjectTree, TypeVar};
use dreammaker::register_builtins;

fn segments(text: &str) -> Vec<String> {
    if text.is_empty() {
        Vec::new()
    } else {
        text.split('/').map(|segment| segment.to_string()).collect()
    }
}

fn builtin_tree() -> ObjectTree {
    let mut tree = ObjectTree::new();
    assert_eq!(register_builtins(&mut tree), Ok(()));
    tree
}

fn id_of(tree: &ObjectTree, text: &str) -> usize {
    match tree.find(&segments(text)) {
        Some(id) => id,
        None => panic!("no type at {:?}", text),
    }
}

fn default_of<'a>(tree: &'a ObjectTree, owner: &str, name: &str) -> &'a Option<Expression> {
    match tree.var(id_of(tree, owner), name) {
        Some(var) => &var.value,
        None => panic!("no variable {:?} on {:?}", name, owner),
    }
}

#[test]
fn registering_on_a_fresh_tree_succeeds() {
    let mut tree = ObjectTree::new();
    assert_eq!(register_builtins(&mut tree), Ok(()));
}

#[test]
fn atom_movable_inherits_from_atom() {
    let tree = builtin_tree();
    let movable = id_of(&tree, "atom/movable");
    assert_eq!(tree.parent(movable), Some(id_of(&tree, "atom")));
    assert_eq!(tree.path(tree.parent(movable).unwrap()), Some(segments("atom")));
}

#[test]
fn obj_inherits_from_atom_movable() {
    let tree = builtin_tree();
    let obj = id_of(&tree, "obj");
    assert_eq!(tree.parent(obj), Some(id_of(&tree, "atom/movable")));
    assert_ne!(tree.parent(obj), Some(id_of(&tree, "datum")));
    assert_ne!(tree.parent(obj), Some(0));
    assert_eq!(tree.path(tree.parent(obj).unwrap()), Some(segments("atom/movable")));
}

#[test]
fn the_parents_of_the_builtin_types() {
    let tree = builtin_tree();
    for (child, parent) in [
        ("datum", ""),
        ("atom", "datum"),
        ("atom/movable", "atom"),
        ("area", "atom"),
        ("turf", "atom"),
        ("obj", "atom/movable"),
        ("mob", "atom/movable"),
        ("world", ""),
        ("client", ""),
        ("sound", ""),
    ] {
        assert_eq!(tree.parent(id_of(&tree, child)), Some(id_of(&tree, parent)), "{}", child);
    }
    assert_eq!(tree.parent(0), None);
}

#[test]
fn the_builtin_types_and_no_others() {
    let tree = builtin_tree();
    assert_eq!(tree.len(), 11);
    let mut paths: Vec<String> =
        (0..tree.len()).map(|id| tree.path(id).unwrap().join("/")).collect();
    paths.sort();
    assert_eq!(
        paths,
        vec![
            "", "area", "atom", "atom/movable", "client", "datum", "mob", "obj", "sound", "turf",
            "world"
        ]
    );
    assert_eq!(tree.find(&segments("atom/parent_type")), None);
    assert_eq!(tree.find(&segments("var")), None);
    assert_eq!(tree.find(&segments("world/var")), None);
}

#[test]
fn world_defaults() {
    let tree = builtin_tree();
    assert_eq!(default_of(&tree, "world", "fps"), &Some(Expression::Int(10)));
    assert_eq!(default_of(&tree, "world", "view"), &Some(Expression::Int(5)));
    assert_eq!(default_of(&tree, "world", "icon_size"), &Some(Expression::Int(32)));
    assert_eq!(default_of(&tree, "world", "tick_lag"), &Some(Expression::Int(1)));
    assert_eq!(default_of(&tree, "world", "cache_lifespan"), &Some(Expression::Int(30)));
    assert_eq!(
        default_of(&tree, "world", "name"),
        &Some(Expression::String("byond".to_string()))
    );
    assert_eq!(default_of(&tree, "world", "address"), &None);
}

#[test]
fn world_defaults_that_refer_to_types() {
    let tree = builtin_tree();
    for name in ["area", "turf", "mob"] {
        assert_eq!(
            default_of(&tree, "world", name),
            &Some(Expression::TypePath(segments(name))),
            "{}",
            name
        );
        let var = tree.var(id_of(&tree, "world"), name).unwrap();
        assert_eq!(var.type_path, vec!["static".to_string(), name.to_string()]);
    }
}

#[test]
fn client_defaults() {
    let tree = builtin_tree();
    assert_eq!(default_of(&tree, "client", "dir"), &Some(Expression::Int(1)));
    assert_eq!(default_of(&tree, "client", "fps"), &Some(Expression::Int(0)));
    assert_eq!(default_of(&tree, "client", "preload_rsc"), &Some(Expression::Int(1)));
    assert_eq!(
        default_of(&tree, "client", "default_verb_category"),
        &Some(Expression::String("Commands".to_string()))
    );
    assert_eq!(default_of(&tree, "client", "view"), &None);
    assert_eq!(default_of(&tree, "client", "CGI"), &None);
}

#[test]
fn declared_types_of_variables() {
    let tree = builtin_tree();
    let atom = id_of(&tree, "atom");
    assert_eq!(tree.var(atom, "icon").unwrap().type_path, vec!["icon".to_string()]);
    assert_eq!(tree.var(atom, "loc").unwrap().type_path, vec!["atom".to_string()]);
    assert_eq!(tree.var(atom, "alpha").unwrap().type_path, Vec::<String>::new());
    let mob = id_of(&tree, "mob");
    assert_eq!(tree.var(mob, "client").unwrap().type_path, vec!["client".to_string()]);
    assert_eq!(tree.var(mob, "group").unwrap().type_path, vec!["list".to_string()]);
    let world = id_of(&tree, "world");
    assert_eq!(tree.var(world, "fps").unwrap().type_path, vec!["static".to_string()]);
    assert_eq!(
        tree.var(0, "world").unwrap().type_path,
        vec!["static".to_string(), "world".to_string()]
    );
}

#[test]
fn the_number_of_variables_of_each_type() {
    let tree = builtin_tree();
    for (owner, count) in [
        ("", 5),
        ("datum", 0),
        ("atom", 48),
        ("atom/movable", 11),
        ("area", 0),
        ("turf", 0),
        ("obj", 0),
        ("mob", 8),
        ("world", 37),
        ("client", 41),
        ("sound", 15),
    ] {
        assert_eq!(tree.vars(id_of(&tree, owner)).unwrap().len(), count, "{:?}", owner);
    }
}

#[test]
fn the_variables_of_the_global_scope() {
    let tree = builtin_tree();
    let names: Vec<&str> = tree.vars(0).unwrap().iter().map(|var| var.name.as_str()).collect();
    assert_eq!(names, vec!["type", "parent_type", "tag", "vars", "world"]);
}

#[test]
fn parent_type_is_a_variable_of_atom_too() {
    let tree = builtin_tree();
    let atom = id_of(&tree, "atom");
    assert!(tree.var(atom, "parent_type").is_some());
    assert_eq!(tree.var(atom, "parent_type").unwrap().value, None);
    assert_eq!(tree.var(id_of(&tree, "obj"), "parent_type"), None);
}

#[test]
fn everything_is_stamped_with_the_builtin_location() {
    let tree = builtin_tree();
    let builtin = Location { file: FileId(0), line: 1, column: 1 };
    for id in 0..tree.len() {
        assert_eq!(tree.location(id), Some(builtin));
        for var in tree.vars(id).unwrap() {
            assert_eq!(var.location, builtin);
            assert!(var.location.is_builtins());
        }
    }
}

#[test]
fn no_name_is_empty() {
    let tree = builtin_tree();
    for id in 0..tree.len() {
        assert!(tree.path(id).unwrap().iter().all(|segment| !segment.is_empty()));
        assert!(tree.vars(id).unwrap().iter().all(|var| !var.name.is_empty()));
    }
}

#[test]
fn two_fresh_trees_come_out_the_same() {
    let first = builtin_tree();
    let second = builtin_tree();
    assert_eq!(first, second);
    assert_eq!(first.len(), second.len());
    for id in 0..first.len() {
        assert_eq!(first.path(id), second.path(id));
        assert_eq!(first.parent(id), second.parent(id));
        assert_eq!(first.vars(id), second.vars(id));
    }
}

#[test]
fn a_user_type_beneath_obj_changes_no_builtin() {
    let builtin = builtin_tree();
    let mut tree = builtin_tree();
    let user = Location { file: FileId(1), line: 12, column: 1 };
    assert_eq!(tree.add_entry(user, &segments("obj/item"), None), Ok(()));
    assert_eq!(tree.len(), builtin.len() + 1);
    for id in 0..builtin.len() {
        assert_eq!(tree.path(id), builtin.path(id));
        assert_eq!(tree.parent(id), builtin.parent(id));
        assert_eq!(tree.location(id), builtin.location(id));
        assert_eq!(tree.vars(id), builtin.vars(id));
    }
    let item = id_of(&tree, "obj/item");
    assert_eq!(tree.parent(item), Some(id_of(&tree, "obj")));
    assert_eq!(tree.location(item), Some(user));
}

#[test]
fn a_user_variable_changes_no_builtin() {
    let builtin = builtin_tree();
    let mut tree = builtin_tree();
    let user = Location { file: FileId(1), line: 3, column: 9 };
    let health = TypeVar {
        name: "health".to_string(),
        type_path: Vec::new(),
        value: Some(Expression::Int(100)),
        location: user,
    };
    assert_eq!(tree.add_var(&segments("mob"), health), Ok(()));
    let mob = id_of(&tree, "mob");
    for id in 0..builtin.len() {
        assert_eq!(tree.path(id), builtin.path(id));
        assert_eq!(tree.parent(id), builtin.parent(id));
        if id != mob {
            assert_eq!(tree.vars(id), builtin.vars(id));
        }
    }
    let before = builtin.vars(mob).unwrap();
    let after = tree.vars(mob).unwrap();
    assert_eq!(&after[..before.len()], before);
    assert_eq!(after.len(), before.len() + 1);
}

#[test]
fn a_builtin_default_cannot_be_overwritten() {
    let mut tree = builtin_tree();
    let fps = TypeVar {
        name: "fps".to_string(),
        type_path: Vec::new(),
        value: Some(Expression::Int(60)),
        location: Location { file: FileId(1), line: 1, column: 1 },
    };
    assert_eq!(tree.add_var(&segments("world"), fps), Err(RegistrationError::KindConflict));
    assert_eq!(default_of(&tree, "world", "fps"), &Some(Expression::Int(10)));
}

#[test]
fn registering_twice_is_a_conflict() {
    let mut tree = builtin_tree();
    let once = builtin_tree();
    assert_eq!(register_builtins(&mut tree), Err(RegistrationError::KindConflict));
    assert_eq!(tree, once);
}

#[test]
fn registering_stops_at_the_first_conflict() {
    let mut tree = ObjectTree::new();
    let user = Location { file: FileId(2), line: 5, column: 1 };
    let alpha = TypeVar {
        name: "alpha".to_string(),
        type_path: Vec::new(),
        value: Some(Expression::Int(128)),
        location: user,
    };
    assert_eq!(tree.add_var(&segments("atom"), alpha), Ok(()));
    assert_eq!(register_builtins(&mut tree), Err(RegistrationError::KindConflict));
    let atom = id_of(&tree, "atom");
    assert_eq!(tree.parent(atom), Some(id_of(&tree, "datum")));
    assert_eq!(tree.var(atom, "alpha").unwrap().value, Some(Expression::Int(128)));
    assert_eq!(tree.var(atom, "appearance"), None);
    assert_eq!(tree.find(&segments("atom/movable")), None);
    assert_eq!(tree.vars(0).unwrap().len(), 4);
}

#[test]
fn registering_keeps_user_types() {
    let mut tree = ObjectTree::new();
    let user = Location { file: FileId(2), line: 5, column: 1 };
    assert_eq!(tree.add_entry(user, &segments("obj/item"), None), Ok(()));
    assert_eq!(register_builtins(&mut tree), Ok(()));
    assert_eq!(tree.len(), 12);
    let obj = id_of(&tree, "obj");
    assert_eq!(tree.location(obj), Some(user));
    assert_eq!(tree.parent(obj), Some(id_of(&tree, "atom/movable")));
    assert_eq!(tree.parent(id_of(&tree, "obj/item")), Some(obj));
}

#[test]
fn the_table_of_entries() {
    let table = entry_table();
    assert_eq!(table.len(), 175);
    assert_eq!(table[0], Entry::new("var/type"));
    assert_eq!(table[4], Entry::new("datum"));
    assert_eq!(
        table[5],
        Entry::with_default("atom/parent_type", Expression::TypePath(segments("datum")))
    );
    assert_eq!(
        table[68],
        Entry::with_default("obj/parent_type", Expression::TypePath(segments("atom/movable")))
    );
    assert_eq!(table[174], Entry::new("sound/var/echo"));
    assert!(table.contains(&Entry::with_default("world/var/static/fps", Expression::Int(10))));
    assert!(table.contains(&Entry::with_default(
        "world/var/static/name",
        Expression::String("byond".to_string())
    )));
    assert!(table.contains(&Entry::new("var/static/world/world")));
}

#[test]
fn a_malformed_entry_among_the_builtins() {
    let mut table = entry_table();
    table.insert(69, Entry::new("mob//ghost"));
    let mut tree = ObjectTree::new();
    assert_eq!(
        tree.insert_all(Location::builtins(), &table),
        Err(RegistrationError::EmptySegment)
    );
    assert!(tree.find(&segments("obj")).is_some());
    assert_eq!(tree.find(&segments("mob")), None);
    for id in 0..tree.len() {
        assert!(tree.path(id).unwrap().iter().all(|segment| !segment.is_empty()));
    }
}
