use dreammaker::default_defines;
use dreammaker::lexer::Token;
use dreammaker::preprocessor::{Define, DefineMap};

fn int_define(value: i32) -> Define {
    Define::Constant { subst: vec![Token::Int(value)] }
}

fn string_define(text: &str) -> Define {
    Define::Constant { subst: vec![Token::String(text.to_string())] }
}

const INT_CONSTANTS: [(&str, i32); 66] = [
    ("DM_VERSION", 511),
    ("FALSE", 0),
    ("TRUE", 1),
    ("NORTH", 1),
    ("SOUTH", 2),
    ("EAST", 4),
    ("WEST", 8),
    ("NORTHEAST", 5),
    ("SOUTHEAST", 6),
    ("NORTHWEST", 9),
    ("SOUTHWEST", 10),
    ("FLOAT_LAYER", -1),
    ("AREA_LAYER", 1),
    ("TURF_LAYER", 2),
    ("OBJ_LAYER", 3),
    ("MOB_LAYER", 4),
    ("FLY_LAYER", 5),
    ("EFFECTS_LAYER", 5000),
    ("TOPDOWN_LAYER", 10000),
    ("BACKGROUND_LAYER", 20000),
    ("ICON_ADD", 0),
    ("ICON_SUBTRACT", 1),
    ("ICON_MULTIPLY", 2),
    ("ICON_OVERLAY", 3),
    ("ICON_AND", 4),
    ("ICON_OR", 5),
    ("ICON_UNDERLAY", 6),
    ("BLEND_DEFAULT", 0),
    ("BLEND_OVERLAY", 1),
    ("BLEND_ADD", 2),
    ("BLEND_SUBTRACT", 3),
    ("BLEND_MULTIPLY", 4),
    ("NO_STEPS", 0),
    ("FORWARD_STEPS", 1),
    ("SLIDE_STEPS", 2),
    ("SYNC_STEPS", 3),
    ("BLIND", 1),
    ("SEE_MOBS", 4),
    ("SEE_OBJS", 8),
    ("SEE_TURFS", 16),
    ("SEE_SELF", 32),
    ("SEE_INFRA", 64),
    ("SEE_PIXELS", 256),
    ("SEE_THRU", 512),
    ("SEE_BLACKNESS", 1024),
    ("LONG_GLIDE", 1),
    ("RESET_COLOR", 2),
    ("RESET_ALPHA", 4),
    ("RESET_TRANSFORM", 8),
    ("NO_CLIENT_COLOR", 16),
    ("KEEP_TOGETHER", 32),
    ("KEEP_APART", 64),
    ("PLANE_MASTER", 128),
    ("TILE_BOUND", 256),
    ("PIXEL_SCALE", 512),
    ("TOPDOWN_MAP", 0),
    ("ISOMETRIC_MAP", 1),
    ("SIDE_MAP", 2),
    ("TILED_ICON_MAP", 32768),
    ("CONTROL_FREAK_ALL", 1),
    ("CONTROL_FREAK_SKIN", 2),
    ("CONTROL_FREAK_MACROS", 4),
    ("MOB_PERSPECTIVE", 0),
    ("EYE_PERSPECTIVE", 1),
    ("EDGE_PERSPECTIVE", 2),
    ("MOUSE_ACTIVE_POINTER", 1),
];

const STRING_CONSTANTS: [(&str, &str); 6] = [
    ("MS_WINDOWS", "MS Windows"),
    ("UNIX", "UNIX"),
    ("MALE", "male"),
    ("FEMALE", "female"),
    ("NEUTER", "neuter"),
    ("PLURAL", "plural"),
];

#[test]
fn true_is_one_and_false_is_zero() {
    let mut defines = DefineMap::new();
    default_defines(&mut defines);
    assert_eq!(defines.get("TRUE"), Some(&int_define(1)));
    assert_eq!(defines.get("FALSE"), Some(&int_define(0)));
}

#[test]
fn every_integer_constant_has_its_value() {
    let mut defines = DefineMap::new();
    default_defines(&mut defines);
    for (name, value) in INT_CONSTANTS.iter() {
        assert_eq!(defines.get(name), Some(&int_define(*value)), "{}", name);
    }
}

#[test]
fn every_string_constant_has_its_value() {
    let mut defines = DefineMap::new();
    default_defines(&mut defines);
    for (name, text) in STRING_CONSTANTS.iter() {
        assert_eq!(defines.get(name), Some(&string_define(text)), "{}", name);
    }
}

#[test]
fn constants_are_single_tokens() {
    let mut defines = DefineMap::new();
    default_defines(&mut defines);
    for (name, _) in INT_CONSTANTS.iter() {
        match defines.get(name) {
            Some(Define::Constant { subst }) => {
                assert_eq!(subst.len(), 1, "{}", name);
                assert!(matches!(subst[0], Token::Int(_)), "{}", name);
            }
            other => panic!("{} is {:?}", name, other),
        }
    }
    for (name, _) in STRING_CONSTANTS.iter() {
        match defines.get(name) {
            Some(Define::Constant { subst }) => {
                assert_eq!(subst.len(), 1, "{}", name);
                assert!(matches!(subst[0], Token::String(_)), "{}", name);
            }
            other => panic!("{} is {:?}", name, other),
        }
    }
}

#[test]
fn the_names_are_distinct() {
    let mut defines = DefineMap::new();
    assert_eq!(defines.len(), 0);
    default_defines(&mut defines);
    assert_eq!(defines.len(), 72);
    assert_eq!(INT_CONSTANTS.len() + STRING_CONSTANTS.len(), 72);
}

#[test]
fn negative_constant() {
    let mut defines = DefineMap::new();
    default_defines(&mut defines);
    assert_eq!(defines.get("FLOAT_LAYER"), Some(&int_define(-1)));
}

#[test]
fn unknown_names_stay_undefined() {
    let mut defines = DefineMap::new();
    default_defines(&mut defines);
    assert_eq!(defines.get("true"), None);
    assert_eq!(defines.get(""), None);
    assert_eq!(defines.get("ASSERT"), None);
    assert!(!defines.contains_key("NORTH_EAST"));
    assert!(defines.contains_key("NORTHEAST"));
}

#[test]
fn defining_twice_is_defining_once() {
    let mut once = DefineMap::new();
    default_defines(&mut once);
    let mut twice = DefineMap::new();
    default_defines(&mut twice);
    default_defines(&mut twice);
    assert_eq!(once.len(), twice.len());
    for (name, _) in INT_CONSTANTS.iter() {
        assert_eq!(once.get(name), twice.get(name), "{}", name);
    }
    for (name, _) in STRING_CONSTANTS.iter() {
        assert_eq!(once.get(name), twice.get(name), "{}", name);
    }
}

#[test]
fn defining_twice_keeps_other_names() {
    let mut defines = DefineMap::new();
    defines.insert("DEBUG".to_string(), int_define(7));
    default_defines(&mut defines);
    assert_eq!(defines.len(), 73);
    default_defines(&mut defines);
    assert_eq!(defines.len(), 73);
    assert_eq!(defines.get("DEBUG"), Some(&int_define(7)));
    assert_eq!(defines.get("TRUE"), Some(&int_define(1)));
}

#[test]
fn a_builtin_name_is_overwritten() {
    let mut defines = DefineMap::new();
    defines.insert("TRUE".to_string(), int_define(0));
    defines.insert(
        "UNIX".to_string(),
        Define::Function {
            params: vec!["x".to_string()],
            subst: vec![Token::Int(3)],
            variadic: false,
        },
    );
    default_defines(&mut defines);
    assert_eq!(defines.get("TRUE"), Some(&int_define(1)));
    assert_eq!(defines.get("UNIX"), Some(&string_define("UNIX")));
    assert_eq!(defines.len(), 72);
}

#[test]
fn define_constructors() {
    assert_eq!(Define::from_int(5), int_define(5));
    assert_eq!(Define::from_int(-5), int_define(-5));
    assert_eq!(Define::from_string("male"), string_define("male"));
    assert_ne!(Define::from_string("male"), string_define("female"));
}

#[test]
fn define_map_insert_and_get() {
    let mut defines = DefineMap::new();
    assert_eq!(defines.get("A"), None);
    defines.insert("A".to_string(), int_define(1));
    defines.insert("B".to_string(), string_define("b"));
    defines.insert("A".to_string(), int_define(2));
    assert_eq!(defines.len(), 2);
    assert_eq!(defines.get("A"), Some(&int_define(2)));
    assert_eq!(defines.get("B"), Some(&string_define("b")));
    assert!(defines.contains_key("A"));
    assert!(!defines.contains_key("C"));
}

#[test]
fn token_clone_is_equal() {
    let int = Token::Int(-3);
    let text = Token::String("plural".to_string());
    assert_eq!(int.clone(), int);
    assert_eq!(text.clone(), text);
    assert_ne!(int, text);
}
