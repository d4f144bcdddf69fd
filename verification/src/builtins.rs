//! The built-ins of BYOND: the constants that are defined before any source
//! is read, and the types and variables that every world starts with.

use vstd::prelude::*;
use crate::ast::{Expression, ExpressionView};
use crate::entry::{entries_inserted, entries_view, Entry, EntryView};
use crate::error::RegistrationError;
use crate::location::Location;
use crate::objtree::ObjectTree;
use crate::path::{split, split_path};
use crate::preprocessor::{int_constant, string_constant, Define, DefineMap, DefineView};

verus! {

// ----------------------------------------------------------------------
// Constants

/// The map `m` after every built-in constant was defined in it. A name that
/// `m` defines otherwise is redefined; every other name stays as it is.
pub open spec fn with_builtin_defines(m: Map<Seq<char>, DefineView>) -> Map<
    Seq<char>,
    DefineView,
> {
    m
        // The version of the language.
        .insert("DM_VERSION"@, int_constant(511))
        // Truth values.
        .insert("FALSE"@, int_constant(0))
        .insert("TRUE"@, int_constant(1))
        // Directions.
        .insert("NORTH"@, int_constant(1))
        .insert("SOUTH"@, int_constant(2))
        .insert("EAST"@, int_constant(4))
        .insert("WEST"@, int_constant(8))
        .insert("NORTHEAST"@, int_constant(5))
        .insert("SOUTHEAST"@, int_constant(6))
        .insert("NORTHWEST"@, int_constant(9))
        .insert("SOUTHWEST"@, int_constant(10))
        // Layers.
        .insert("FLOAT_LAYER"@, int_constant(-1))
        .insert("AREA_LAYER"@, int_constant(1))
        .insert("TURF_LAYER"@, int_constant(2))
        .insert("OBJ_LAYER"@, int_constant(3))
        .insert("MOB_LAYER"@, int_constant(4))
        .insert("FLY_LAYER"@, int_constant(5))
        .insert("EFFECTS_LAYER"@, int_constant(5000))
        .insert("TOPDOWN_LAYER"@, int_constant(10000))
        .insert("BACKGROUND_LAYER"@, int_constant(20000))
        // Operations on icons.
        .insert("ICON_ADD"@, int_constant(0))
        .insert("ICON_SUBTRACT"@, int_constant(1))
        .insert("ICON_MULTIPLY"@, int_constant(2))
        .insert("ICON_OVERLAY"@, int_constant(3))
        .insert("ICON_AND"@, int_constant(4))
        .insert("ICON_OR"@, int_constant(5))
        .insert("ICON_UNDERLAY"@, int_constant(6))
        // Blend modes.
        .insert("BLEND_DEFAULT"@, int_constant(0))
        .insert("BLEND_OVERLAY"@, int_constant(1))
        .insert("BLEND_ADD"@, int_constant(2))
        .insert("BLEND_SUBTRACT"@, int_constant(3))
        .insert("BLEND_MULTIPLY"@, int_constant(4))
        // Kinds of movement animation.
        .insert("NO_STEPS"@, int_constant(0))
        .insert("FORWARD_STEPS"@, int_constant(1))
        .insert("SLIDE_STEPS"@, int_constant(2))
        .insert("SYNC_STEPS"@, int_constant(3))
        // Sight flags.
        .insert("BLIND"@, int_constant(1))
        .insert("SEE_MOBS"@, int_constant(4))
        .insert("SEE_OBJS"@, int_constant(8))
        .insert("SEE_TURFS"@, int_constant(16))
        .insert("SEE_SELF"@, int_constant(32))
        .insert("SEE_INFRA"@, int_constant(64))
        .insert("SEE_PIXELS"@, int_constant(256))
        .insert("SEE_THRU"@, int_constant(512))
        .insert("SEE_BLACKNESS"@, int_constant(1024))
        // Appearance flags.
        .insert("LONG_GLIDE"@, int_constant(1))
        .insert("RESET_COLOR"@, int_constant(2))
        .insert("RESET_ALPHA"@, int_constant(4))
        .insert("RESET_TRANSFORM"@, int_constant(8))
        .insert("NO_CLIENT_COLOR"@, int_constant(16))
        .insert("KEEP_TOGETHER"@, int_constant(32))
        .insert("KEEP_APART"@, int_constant(64))
        .insert("PLANE_MASTER"@, int_constant(128))
        .insert("TILE_BOUND"@, int_constant(256))
        .insert("PIXEL_SCALE"@, int_constant(512))
        // Map formats.
        .insert("TOPDOWN_MAP"@, int_constant(0))
        .insert("ISOMETRIC_MAP"@, int_constant(1))
        .insert("SIDE_MAP"@, int_constant(2))
        .insert("TILED_ICON_MAP"@, int_constant(32768))
        // Parts of the client that a world can take control of.
        .insert("CONTROL_FREAK_ALL"@, int_constant(1))
        .insert("CONTROL_FREAK_SKIN"@, int_constant(2))
        .insert("CONTROL_FREAK_MACROS"@, int_constant(4))
        // Perspectives.
        .insert("MOB_PERSPECTIVE"@, int_constant(0))
        .insert("EYE_PERSPECTIVE"@, int_constant(1))
        .insert("EDGE_PERSPECTIVE"@, int_constant(2))
        // Mouse pointers.
        .insert("MOUSE_ACTIVE_POINTER"@, int_constant(1))
        // System types and genders.
        .insert("MS_WINDOWS"@, string_constant("MS Windows"@))
        .insert("UNIX"@, string_constant("UNIX"@))
        .insert("MALE"@, string_constant("male"@))
        .insert("FEMALE"@, string_constant("female"@))
        .insert("NEUTER"@, string_constant("neuter"@))
        .insert("PLURAL"@, string_constant("plural"@))
}

/// The built-in constants, by name.
pub open spec fn builtin_defines() -> Map<Seq<char>, DefineView> {
    with_builtin_defines(Map::empty())
}

/// Defining the built-in constants in a map overwrites it with them: where
/// a name is a built-in constant it stands for the built-in value, and
/// elsewhere the map is as it was.
pub proof fn lemma_defaults_overwrite(m: Map<Seq<char>, DefineView>)
    ensures
        with_builtin_defines(m) == m.union_prefer_right(builtin_defines()),
{
    broadcast use vstd::map_lib::lemma_union_insert_right;

    assert(m.union_prefer_right(Map::empty()) =~= m);
}

/// Defining the built-in constants a second time changes nothing.
pub proof fn lemma_defaults_idempotent(m: Map<Seq<char>, DefineView>)
    ensures
        with_builtin_defines(with_builtin_defines(m)) == with_builtin_defines(m),
{
    let once = with_builtin_defines(m);
    lemma_defaults_overwrite(m);
    lemma_defaults_overwrite(once);
    assert(m.union_prefer_right(builtin_defines()).union_prefer_right(builtin_defines())
        =~= m.union_prefer_right(builtin_defines()));
}

/// Once the built-in constants are defined, `TRUE` stands for the single
/// token `1`, whatever the map held before.
pub proof fn lemma_true_is_one(m: Map<Seq<char>, DefineView>)
    ensures
        with_builtin_defines(m).dom().contains("TRUE"@),
        with_builtin_defines(m)["TRUE"@] == int_constant(1),
{
    reveal_strlit("TRUE");
    assert("TRUE"@.len() == 4 && "TRUE"@[0] == 'T');
    reveal_strlit("NORTH");
    assert("NORTH"@.len() == 5);
    reveal_strlit("SOUTH");
    assert("SOUTH"@.len() == 5);
    reveal_strlit("EAST");
    assert("EAST"@[0] == 'E');
    reveal_strlit("WEST");
    assert("WEST"@[0] == 'W');
    reveal_strlit("NORTHEAST");
    assert("NORTHEAST"@.len() == 9);
    reveal_strlit("SOUTHEAST");
    assert("SOUTHEAST"@.len() == 9);
    reveal_strlit("NORTHWEST");
    assert("NORTHWEST"@.len() == 9);
    reveal_strlit("SOUTHWEST");
    assert("SOUTHWEST"@.len() == 9);
    reveal_strlit("FLOAT_LAYER");
    assert("FLOAT_LAYER"@.len() == 11);
    reveal_strlit("AREA_LAYER");
    assert("AREA_LAYER"@.len() == 10);
    reveal_strlit("TURF_LAYER");
    assert("TURF_LAYER"@.len() == 10);
    reveal_strlit("OBJ_LAYER");
    assert("OBJ_LAYER"@.len() == 9);
    reveal_strlit("MOB_LAYER");
    assert("MOB_LAYER"@.len() == 9);
    reveal_strlit("FLY_LAYER");
    assert("FLY_LAYER"@.len() == 9);
    reveal_strlit("EFFECTS_LAYER");
    assert("EFFECTS_LAYER"@.len() == 13);
    reveal_strlit("TOPDOWN_LAYER");
    assert("TOPDOWN_LAYER"@.len() == 13);
    reveal_strlit("BACKGROUND_LAYER");
    assert("BACKGROUND_LAYER"@.len() == 16);
    reveal_strlit("ICON_ADD");
    assert("ICON_ADD"@.len() == 8);
    reveal_strlit("ICON_SUBTRACT");
    assert("ICON_SUBTRACT"@.len() == 13);
    reveal_strlit("ICON_MULTIPLY");
    assert("ICON_MULTIPLY"@.len() == 13);
    reveal_strlit("ICON_OVERLAY");
    assert("ICON_OVERLAY"@.len() == 12);
    reveal_strlit("ICON_AND");
    assert("ICON_AND"@.len() == 8);
    reveal_strlit("ICON_OR");
    assert("ICON_OR"@.len() == 7);
    reveal_strlit("ICON_UNDERLAY");
    assert("ICON_UNDERLAY"@.len() == 13);
    reveal_strlit("BLEND_DEFAULT");
    assert("BLEND_DEFAULT"@.len() == 13);
    reveal_strlit("BLEND_OVERLAY");
    assert("BLEND_OVERLAY"@.len() == 13);
    reveal_strlit("BLEND_ADD");
    assert("BLEND_ADD"@.len() == 9);
    reveal_strlit("BLEND_SUBTRACT");
    assert("BLEND_SUBTRACT"@.len() == 14);
    reveal_strlit("BLEND_MULTIPLY");
    assert("BLEND_MULTIPLY"@.len() == 14);
    reveal_strlit("NO_STEPS");
    assert("NO_STEPS"@.len() == 8);
    reveal_strlit("FORWARD_STEPS");
    assert("FORWARD_STEPS"@.len() == 13);
    reveal_strlit("SLIDE_STEPS");
    assert("SLIDE_STEPS"@.len() == 11);
    reveal_strlit("SYNC_STEPS");
    assert("SYNC_STEPS"@.len() == 10);
    reveal_strlit("BLIND");
    assert("BLIND"@.len() == 5);
    reveal_strlit("SEE_MOBS");
    assert("SEE_MOBS"@.len() == 8);
    reveal_strlit("SEE_OBJS");
    assert("SEE_OBJS"@.len() == 8);
    reveal_strlit("SEE_TURFS");
    assert("SEE_TURFS"@.len() == 9);
    reveal_strlit("SEE_SELF");
    assert("SEE_SELF"@.len() == 8);
    reveal_strlit("SEE_INFRA");
    assert("SEE_INFRA"@.len() == 9);
    reveal_strlit("SEE_PIXELS");
    assert("SEE_PIXELS"@.len() == 10);
    reveal_strlit("SEE_THRU");
    assert("SEE_THRU"@.len() == 8);
    reveal_strlit("SEE_BLACKNESS");
    assert("SEE_BLACKNESS"@.len() == 13);
    reveal_strlit("LONG_GLIDE");
    assert("LONG_GLIDE"@.len() == 10);
    reveal_strlit("RESET_COLOR");
    assert("RESET_COLOR"@.len() == 11);
    reveal_strlit("RESET_ALPHA");
    assert("RESET_ALPHA"@.len() == 11);
    reveal_strlit("RESET_TRANSFORM");
    assert("RESET_TRANSFORM"@.len() == 15);
    reveal_strlit("NO_CLIENT_COLOR");
    assert("NO_CLIENT_COLOR"@.len() == 15);
    reveal_strlit("KEEP_TOGETHER");
    assert("KEEP_TOGETHER"@.len() == 13);
    reveal_strlit("KEEP_APART");
    assert("KEEP_APART"@.len() == 10);
    reveal_strlit("PLANE_MASTER");
    assert("PLANE_MASTER"@.len() == 12);
    reveal_strlit("TILE_BOUND");
    assert("TILE_BOUND"@.len() == 10);
    reveal_strlit("PIXEL_SCALE");
    assert("PIXEL_SCALE"@.len() == 11);
    reveal_strlit("TOPDOWN_MAP");
    assert("TOPDOWN_MAP"@.len() == 11);
    reveal_strlit("ISOMETRIC_MAP");
    assert("ISOMETRIC_MAP"@.len() == 13);
    reveal_strlit("SIDE_MAP");
    assert("SIDE_MAP"@.len() == 8);
    reveal_strlit("TILED_ICON_MAP");
    assert("TILED_ICON_MAP"@.len() == 14);
    reveal_strlit("CONTROL_FREAK_ALL");
    assert("CONTROL_FREAK_ALL"@.len() == 17);
    reveal_strlit("CONTROL_FREAK_SKIN");
    assert("CONTROL_FREAK_SKIN"@.len() == 18);
    reveal_strlit("CONTROL_FREAK_MACROS");
    assert("CONTROL_FREAK_MACROS"@.len() == 20);
    reveal_strlit("MOB_PERSPECTIVE");
    assert("MOB_PERSPECTIVE"@.len() == 15);
    reveal_strlit("EYE_PERSPECTIVE");
    assert("EYE_PERSPECTIVE"@.len() == 15);
    reveal_strlit("EDGE_PERSPECTIVE");
    assert("EDGE_PERSPECTIVE"@.len() == 16);
    reveal_strlit("MOUSE_ACTIVE_POINTER");
    assert("MOUSE_ACTIVE_POINTER"@.len() == 20);
    reveal_strlit("MS_WINDOWS");
    assert("MS_WINDOWS"@.len() == 10);
    reveal_strlit("UNIX");
    assert("UNIX"@[0] == 'U');
    reveal_strlit("MALE");
    assert("MALE"@[0] == 'M');
    reveal_strlit("FEMALE");
    assert("FEMALE"@.len() == 6);
    reveal_strlit("NEUTER");
    assert("NEUTER"@.len() == 6);
    reveal_strlit("PLURAL");
    assert("PLURAL"@.len() == 6);
}

/// Once the built-in constants are defined, `FALSE` stands for the single
/// token `0`, whatever the map held before.
pub proof fn lemma_false_is_zero(m: Map<Seq<char>, DefineView>)
    ensures
        with_builtin_defines(m).dom().contains("FALSE"@),
        with_builtin_defines(m)["FALSE"@] == int_constant(0),
{
    reveal_strlit("FALSE");
    assert("FALSE"@.len() == 5 && "FALSE"@[0] == 'F');
    reveal_strlit("TRUE");
    assert("TRUE"@.len() == 4);
    reveal_strlit("NORTH");
    assert("NORTH"@[0] == 'N');
    reveal_strlit("SOUTH");
    assert("SOUTH"@[0] == 'S');
    reveal_strlit("EAST");
    assert("EAST"@.len() == 4);
    reveal_strlit("WEST");
    assert("WEST"@.len() == 4);
    reveal_strlit("NORTHEAST");
    assert("NORTHEAST"@.len() == 9);
    reveal_strlit("SOUTHEAST");
    assert("SOUTHEAST"@.len() == 9);
    reveal_strlit("NORTHWEST");
    assert("NORTHWEST"@.len() == 9);
    reveal_strlit("SOUTHWEST");
    assert("SOUTHWEST"@.len() == 9);
    reveal_strlit("FLOAT_LAYER");
    assert("FLOAT_LAYER"@.len() == 11);
    reveal_strlit("AREA_LAYER");
    assert("AREA_LAYER"@.len() == 10);
    reveal_strlit("TURF_LAYER");
    assert("TURF_LAYER"@.len() == 10);
    reveal_strlit("OBJ_LAYER");
    assert("OBJ_LAYER"@.len() == 9);
    reveal_strlit("MOB_LAYER");
    assert("MOB_LAYER"@.len() == 9);
    reveal_strlit("FLY_LAYER");
    assert("FLY_LAYER"@.len() == 9);
    reveal_strlit("EFFECTS_LAYER");
    assert("EFFECTS_LAYER"@.len() == 13);
    reveal_strlit("TOPDOWN_LAYER");
    assert("TOPDOWN_LAYER"@.len() == 13);
    reveal_strlit("BACKGROUND_LAYER");
    assert("BACKGROUND_LAYER"@.len() == 16);
    reveal_strlit("ICON_ADD");
    assert("ICON_ADD"@.len() == 8);
    reveal_strlit("ICON_SUBTRACT");
    assert("ICON_SUBTRACT"@.len() == 13);
    reveal_strlit("ICON_MULTIPLY");
    assert("ICON_MULTIPLY"@.len() == 13);
    reveal_strlit("ICON_OVERLAY");
    assert("ICON_OVERLAY"@.len() == 12);
    reveal_strlit("ICON_AND");
    assert("ICON_AND"@.len() == 8);
    reveal_strlit("ICON_OR");
    assert("ICON_OR"@.len() == 7);
    reveal_strlit("ICON_UNDERLAY");
    assert("ICON_UNDERLAY"@.len() == 13);
    reveal_strlit("BLEND_DEFAULT");
    assert("BLEND_DEFAULT"@.len() == 13);
    reveal_strlit("BLEND_OVERLAY");
    assert("BLEND_OVERLAY"@.len() == 13);
    reveal_strlit("BLEND_ADD");
    assert("BLEND_ADD"@.len() == 9);
    reveal_strlit("BLEND_SUBTRACT");
    assert("BLEND_SUBTRACT"@.len() == 14);
    reveal_strlit("BLEND_MULTIPLY");
    assert("BLEND_MULTIPLY"@.len() == 14);
    reveal_strlit("NO_STEPS");
    assert("NO_STEPS"@.len() == 8);
    reveal_strlit("FORWARD_STEPS");
    assert("FORWARD_STEPS"@.len() == 13);
    reveal_strlit("SLIDE_STEPS");
    assert("SLIDE_STEPS"@.len() == 11);
    reveal_strlit("SYNC_STEPS");
    assert("SYNC_STEPS"@.len() == 10);
    reveal_strlit("BLIND");
    assert("BLIND"@[0] == 'B');
    reveal_strlit("SEE_MOBS");
    assert("SEE_MOBS"@.len() == 8);
    reveal_strlit("SEE_OBJS");
    assert("SEE_OBJS"@.len() == 8);
    reveal_strlit("SEE_TURFS");
    assert("SEE_TURFS"@.len() == 9);
    reveal_strlit("SEE_SELF");
    assert("SEE_SELF"@.len() == 8);
    reveal_strlit("SEE_INFRA");
    assert("SEE_INFRA"@.len() == 9);
    reveal_strlit("SEE_PIXELS");
    assert("SEE_PIXELS"@.len() == 10);
    reveal_strlit("SEE_THRU");
    assert("SEE_THRU"@.len() == 8);
    reveal_strlit("SEE_BLACKNESS");
    assert("SEE_BLACKNESS"@.len() == 13);
    reveal_strlit("LONG_GLIDE");
    assert("LONG_GLIDE"@.len() == 10);
    reveal_strlit("RESET_COLOR");
    assert("RESET_COLOR"@.len() == 11);
    reveal_strlit("RESET_ALPHA");
    assert("RESET_ALPHA"@.len() == 11);
    reveal_strlit("RESET_TRANSFORM");
    assert("RESET_TRANSFORM"@.len() == 15);
    reveal_strlit("NO_CLIENT_COLOR");
    assert("NO_CLIENT_COLOR"@.len() == 15);
    reveal_strlit("KEEP_TOGETHER");
    assert("KEEP_TOGETHER"@.len() == 13);
    reveal_strlit("KEEP_APART");
    assert("KEEP_APART"@.len() == 10);
    reveal_strlit("PLANE_MASTER");
    assert("PLANE_MASTER"@.len() == 12);
    reveal_strlit("TILE_BOUND");
    assert("TILE_BOUND"@.len() == 10);
    reveal_strlit("PIXEL_SCALE");
    assert("PIXEL_SCALE"@.len() == 11);
    reveal_strlit("TOPDOWN_MAP");
    assert("TOPDOWN_MAP"@.len() == 11);
    reveal_strlit("ISOMETRIC_MAP");
    assert("ISOMETRIC_MAP"@.len() == 13);
    reveal_strlit("SIDE_MAP");
    assert("SIDE_MAP"@.len() == 8);
    reveal_strlit("TILED_ICON_MAP");
    assert("TILED_ICON_MAP"@.len() == 14);
    reveal_strlit("CONTROL_FREAK_ALL");
    assert("CONTROL_FREAK_ALL"@.len() == 17);
    reveal_strlit("CONTROL_FREAK_SKIN");
    assert("CONTROL_FREAK_SKIN"@.len() == 18);
    reveal_strlit("CONTROL_FREAK_MACROS");
    assert("CONTROL_FREAK_MACROS"@.len() == 20);
    reveal_strlit("MOB_PERSPECTIVE");
    assert("MOB_PERSPECTIVE"@.len() == 15);
    reveal_strlit("EYE_PERSPECTIVE");
    assert("EYE_PERSPECTIVE"@.len() == 15);
    reveal_strlit("EDGE_PERSPECTIVE");
    assert("EDGE_PERSPECTIVE"@.len() == 16);
    reveal_strlit("MOUSE_ACTIVE_POINTER");
    assert("MOUSE_ACTIVE_POINTER"@.len() == 20);
    reveal_strlit("MS_WINDOWS");
    assert("MS_WINDOWS"@.len() == 10);
    reveal_strlit("UNIX");
    assert("UNIX"@.len() == 4);
    reveal_strlit("MALE");
    assert("MALE"@.len() == 4);
    reveal_strlit("FEMALE");
    assert("FEMALE"@.len() == 6);
    reveal_strlit("NEUTER");
    assert("NEUTER"@.len() == 6);
    reveal_strlit("PLURAL");
    assert("PLURAL"@.len() == 6);
}

fn define_int(defines: &mut DefineMap, name: &str, value: i32)
    ensures
        final(defines)@ == old(defines)@.insert(name@, int_constant(value as int)),
{
    defines.insert(String::from_str(name), Define::from_int(value));
}

fn define_string(defines: &mut DefineMap, name: &str, text: &str)
    ensures
        final(defines)@ == old(defines)@.insert(name@, string_constant(text@)),
{
    defines.insert(String::from_str(name), Define::from_string(text));
}

/// Defines the built-in constants in `defines`. Each is a single literal
/// token. What `defines` held under one of their names is replaced.
pub fn default_defines(defines: &mut DefineMap)
    ensures
        final(defines)@ == with_builtin_defines(old(defines)@),
{
    define_int(defines, "DM_VERSION", 511);

    define_int(defines, "FALSE", 0);
    define_int(defines, "TRUE", 1);

    define_int(defines, "NORTH", 1);
    define_int(defines, "SOUTH", 2);
    define_int(defines, "EAST", 4);
    define_int(defines, "WEST", 8);
    define_int(defines, "NORTHEAST", 5);
    define_int(defines, "SOUTHEAST", 6);
    define_int(defines, "NORTHWEST", 9);
    define_int(defines, "SOUTHWEST", 10);

    define_int(defines, "FLOAT_LAYER", -1);
    define_int(defines, "AREA_LAYER", 1);
    define_int(defines, "TURF_LAYER", 2);
    define_int(defines, "OBJ_LAYER", 3);
    define_int(defines, "MOB_LAYER", 4);
    define_int(defines, "FLY_LAYER", 5);
    define_int(defines, "EFFECTS_LAYER", 5000);
    define_int(defines, "TOPDOWN_LAYER", 10000);
    define_int(defines, "BACKGROUND_LAYER", 20000);

    define_int(defines, "ICON_ADD", 0);
    define_int(defines, "ICON_SUBTRACT", 1);
    define_int(defines, "ICON_MULTIPLY", 2);
    define_int(defines, "ICON_OVERLAY", 3);
    define_int(defines, "ICON_AND", 4);
    define_int(defines, "ICON_OR", 5);
    define_int(defines, "ICON_UNDERLAY", 6);

    define_int(defines, "BLEND_DEFAULT", 0);
    define_int(defines, "BLEND_OVERLAY", 1);
    define_int(defines, "BLEND_ADD", 2);
    define_int(defines, "BLEND_SUBTRACT", 3);
    define_int(defines, "BLEND_MULTIPLY", 4);

    define_int(defines, "NO_STEPS", 0);
    define_int(defines, "FORWARD_STEPS", 1);
    define_int(defines, "SLIDE_STEPS", 2);
    define_int(defines, "SYNC_STEPS", 3);

    define_int(defines, "BLIND", 1);
    define_int(defines, "SEE_MOBS", 4);
    define_int(defines, "SEE_OBJS", 8);
    define_int(defines, "SEE_TURFS", 16);
    define_int(defines, "SEE_SELF", 32);
    define_int(defines, "SEE_INFRA", 64);
    define_int(defines, "SEE_PIXELS", 256);
    define_int(defines, "SEE_THRU", 512);
    define_int(defines, "SEE_BLACKNESS", 1024);

    define_int(defines, "LONG_GLIDE", 1);
    define_int(defines, "RESET_COLOR", 2);
    define_int(defines, "RESET_ALPHA", 4);
    define_int(defines, "RESET_TRANSFORM", 8);
    define_int(defines, "NO_CLIENT_COLOR", 16);
    define_int(defines, "KEEP_TOGETHER", 32);
    define_int(defines, "KEEP_APART", 64);
    define_int(defines, "PLANE_MASTER", 128);
    define_int(defines, "TILE_BOUND", 256);
    define_int(defines, "PIXEL_SCALE", 512);

    define_int(defines, "TOPDOWN_MAP", 0);
    define_int(defines, "ISOMETRIC_MAP", 1);
    define_int(defines, "SIDE_MAP", 2);
    define_int(defines, "TILED_ICON_MAP", 32768);

    define_int(defines, "CONTROL_FREAK_ALL", 1);
    define_int(defines, "CONTROL_FREAK_SKIN", 2);
    define_int(defines, "CONTROL_FREAK_MACROS", 4);

    define_int(defines, "MOB_PERSPECTIVE", 0);
    define_int(defines, "EYE_PERSPECTIVE", 1);
    define_int(defines, "EDGE_PERSPECTIVE", 2);

    define_int(defines, "MOUSE_ACTIVE_POINTER", 1);

    define_string(defines, "MS_WINDOWS", "MS Windows");
    define_string(defines, "UNIX", "UNIX");
    define_string(defines, "MALE", "male");
    define_string(defines, "FEMALE", "female");
    define_string(defines, "NEUTER", "neuter");
    define_string(defines, "PLURAL", "plural");
}

// ----------------------------------------------------------------------
// Types and variables

/// The entry that declares what `path` names, without a default.
pub open spec fn entry(path: Seq<char>) -> EntryView {
    EntryView { path, default: None }
}

/// The entry with an integer as default.
pub open spec fn entry_int(path: Seq<char>, value: int) -> EntryView {
    EntryView { path, default: Some(ExpressionView::Int(value)) }
}

/// The entry with a string as default.
pub open spec fn entry_string(path: Seq<char>, text: Seq<char>) -> EntryView {
    EntryView { path, default: Some(ExpressionView::String(text)) }
}

/// The entry whose default refers to the type at `target`, written as text.
pub open spec fn entry_type(path: Seq<char>, target: Seq<char>) -> EntryView {
    EntryView { path, default: Some(ExpressionView::TypePath(split(target))) }
}

/// The variables of the global scope.
pub open spec fn root_entries() -> Seq<EntryView> {
    Seq::<EntryView>::empty()
        .push(entry("var/type"@))
        .push(entry("var/parent_type"@))
        .push(entry("var/tag"@))
        .push(entry("var/vars"@))
}

/// The type that types inherit from where nothing else is said.
pub open spec fn datum_entries() -> Seq<EntryView> {
    Seq::<EntryView>::empty()
        .push(entry("datum"@))
}

/// `/atom`, what can be on the map, and its variables.
pub open spec fn atom_entries() -> Seq<EntryView> {
    Seq::<EntryView>::empty()
        .push(entry_type("atom/parent_type"@, "datum"@))
        .push(entry("atom/var/alpha"@))
        .push(entry("atom/var/appearance"@))
        .push(entry("atom/var/appearance_flags"@))
        .push(entry("atom/var/blend_mode"@))
        .push(entry("atom/var/color"@))
        .push(entry("atom/var/contents"@))
        .push(entry("atom/var/density"@))
        .push(entry("atom/var/desc"@))
        .push(entry("atom/var/dir"@))
        .push(entry("atom/var/gender"@))
        .push(entry("atom/var/icon/icon"@))
        .push(entry("atom/var/icon_state"@))
        .push(entry("atom/var/invisibility"@))
        .push(entry("atom/var/infra_luminosity"@))
        .push(entry("atom/var/atom/loc"@))
        .push(entry("atom/var/layer"@))
        .push(entry("atom/var/luminosity"@))
        .push(entry("atom/var/maptext"@))
        .push(entry("atom/var/maptext_width"@))
        .push(entry("atom/var/maptext_height"@))
        .push(entry("atom/var/maptext_x"@))
        .push(entry("atom/var/maptext_y"@))
        .push(entry("atom/var/mouse_over_pointer"@))
        .push(entry("atom/var/mouse_drag_pointer"@))
        .push(entry("atom/var/mouse_drop_pointer"@))
        .push(entry("atom/var/mouse_drop_zone"@))
        .push(entry("atom/var/mouse_opacity"@))
        .push(entry("atom/var/name"@))
        .push(entry("atom/var/opacity"@))
        .push(entry("atom/var/overlays"@))
        .push(entry("atom/var/override"@))
        .push(entry("atom/var/parent_type"@))
        .push(entry("atom/var/pixel_x"@))
        .push(entry("atom/var/pixel_y"@))
        .push(entry("atom/var/pixel_w"@))
        .push(entry("atom/var/pixel_z"@))
        .push(entry("atom/var/plane"@))
        .push(entry("atom/var/suffix"@))
        .push(entry("atom/var/tag"@))
        .push(entry("atom/var/text"@))
        .push(entry("atom/var/transform"@))
        .push(entry("atom/var/type"@))
        .push(entry("atom/var/underlays"@))
        .push(entry("atom/var/vars"@))
        .push(entry("atom/var/verbs"@))
        .push(entry("atom/var/x"@))
        .push(entry("atom/var/y"@))
        .push(entry("atom/var/z"@))
}

/// `/atom/movable` and its variables.
pub open spec fn movable_entries() -> Seq<EntryView> {
    Seq::<EntryView>::empty()
        .push(entry("atom/movable"@))
        .push(entry("atom/movable/var/animate_movement"@))
        .push(entry("atom/movable/var/bound_x"@))
        .push(entry("atom/movable/var/bound_y"@))
        .push(entry("atom/movable/var/bound_width"@))
        .push(entry("atom/movable/var/bound_height"@))
        .push(entry("atom/movable/var/locs"@))
        .push(entry("atom/movable/var/screen_loc"@))
        .push(entry("atom/movable/var/glide_size"@))
        .push(entry("atom/movable/var/step_size"@))
        .push(entry("atom/movable/var/step_x"@))
        .push(entry("atom/movable/var/step_y"@))
}

/// `/area`, `/turf` and `/obj`, with what they inherit from.
pub open spec fn area_turf_obj_entries() -> Seq<EntryView> {
    Seq::<EntryView>::empty()
        .push(entry_type("area/parent_type"@, "atom"@))
        .push(entry_type("turf/parent_type"@, "atom"@))
        .push(entry_type("obj/parent_type"@, "atom/movable"@))
}

/// `/mob` and its variables.
pub open spec fn mob_entries() -> Seq<EntryView> {
    Seq::<EntryView>::empty()
        .push(entry_type("mob/parent_type"@, "atom/movable"@))
        .push(entry("mob/var/ckey"@))
        .push(entry("mob/var/client/client"@))
        .push(entry("mob/var/list/group"@))
        .push(entry("mob/var/key"@))
        .push(entry("mob/var/see_infrared"@))
        .push(entry("mob/var/see_invisible"@))
        .push(entry("mob/var/see_in_dark"@))
        .push(entry("mob/var/sight"@))
}

/// `/world`, the global variable that holds it, and its variables.
pub open spec fn world_entries() -> Seq<EntryView> {
    Seq::<EntryView>::empty()
        .push(entry("world"@))
        .push(entry("var/static/world/world"@))
        .push(entry("world/var/static/address"@))
        .push(entry_type("world/var/static/area/area"@, "area"@))
        .push(entry_int("world/var/static/cache_lifespan"@, 30))
        .push(entry("world/var/static/contents"@))
        .push(entry("world/var/static/cpu"@))
        .push(entry("world/var/static/executor"@))
        .push(entry_int("world/var/static/fps"@, 10))
        .push(entry_int("world/var/static/game_state"@, 0))
        .push(entry("world/var/static/host"@))
        .push(entry("world/var/static/hub"@))
        .push(entry("world/var/static/hub_password"@))
        .push(entry_int("world/var/static/icon_size"@, 32))
        .push(entry("world/var/static/internet_address"@))
        .push(entry("world/var/static/log"@))
        .push(entry_int("world/var/static/loop_checks"@, 1))
        .push(entry_int("world/var/static/map_format"@, 0))
        .push(entry("world/var/static/maxx"@))
        .push(entry("world/var/static/maxy"@))
        .push(entry("world/var/static/maxz"@))
        .push(entry_type("world/var/static/mob/mob"@, "mob"@))
        .push(entry_string("world/var/static/name"@, "byond"@))
        .push(entry("world/var/static/params"@))
        .push(entry("world/var/static/port"@))
        .push(entry("world/var/static/realtime"@))
        .push(entry("world/var/static/reachable"@))
        .push(entry_int("world/var/static/sleep_offline"@, 0))
        .push(entry("world/var/static/status"@))
        .push(entry("world/var/static/system_type"@))
        .push(entry_int("world/var/static/tick_lag"@, 1))
        .push(entry("world/var/static/tick_usage"@))
        .push(entry_type("world/var/static/turf/turf"@, "turf"@))
        .push(entry("world/var/static/time"@))
        .push(entry("world/var/static/timeofday"@))
        .push(entry("world/var/static/url"@))
        .push(entry_int("world/var/static/version"@, 0))
        .push(entry_int("world/var/static/view"@, 5))
        .push(entry_int("world/var/static/visibility"@, 1))
}

/// `/client` and its variables.
pub open spec fn client_entries() -> Seq<EntryView> {
    Seq::<EntryView>::empty()
        .push(entry("client"@))
        .push(entry("client/var/address"@))
        .push(entry("client/var/authenticate"@))
        .push(entry("client/var/bounds"@))
        .push(entry("client/var/byond_version"@))
        .push(entry("client/var/CGI"@))
        .push(entry("client/var/ckey"@))
        .push(entry("client/var/color"@))
        .push(entry("client/var/command_text"@))
        .push(entry("client/var/connection"@))
        .push(entry_int("client/var/control_freak"@, 0))
        .push(entry("client/var/computer_id"@))
        .push(entry_string("client/var/default_verb_category"@, "Commands"@))
        .push(entry_int("client/var/dir"@, 1))
        .push(entry("client/var/edge_limit"@))
        .push(entry("client/var/eye"@))
        .push(entry_int("client/var/fps"@, 0))
        .push(entry("client/var/gender"@))
        .push(entry_int("client/var/glide_size"@, 0))
        .push(entry("client/var/images"@))
        .push(entry("client/var/inactivity"@))
        .push(entry("client/var/key"@))
        .push(entry("client/var/lazy_eye"@))
        .push(entry("client/var/mob"@))
        .push(entry("client/var/mouse_pointer_icon"@))
        .push(entry_int("client/var/perspective"@, 0))
        .push(entry_int("client/var/pixel_x"@, 0))
        .push(entry_int("client/var/pixel_y"@, 0))
        .push(entry_int("client/var/pixel_w"@, 0))
        .push(entry_int("client/var/pixel_z"@, 0))
        .push(entry_int("client/var/preload_rsc"@, 1))
        .push(entry("client/var/screen"@))
        .push(entry("client/var/script"@))
        .push(entry_int("client/var/show_map"@, 1))
        .push(entry_int("client/var/show_popup_menus"@, 1))
        .push(entry_int("client/var/show_verb_panel"@, 1))
        .push(entry("client/var/statobj"@))
        .push(entry("client/var/statpanel"@))
        .push(entry_int("client/var/tick_lag"@, 0))
        .push(entry("client/var/verbs"@))
        .push(entry("client/var/view"@))
        .push(entry("client/var/virtual_eye"@))
}

/// `/sound` and its variables.
pub open spec fn sound_entries() -> Seq<EntryView> {
    Seq::<EntryView>::empty()
        .push(entry("sound"@))
        .push(entry("sound/var/file"@))
        .push(entry("sound/var/repeat"@))
        .push(entry("sound/var/wait"@))
        .push(entry("sound/var/channel"@))
        .push(entry("sound/var/volume"@))
        .push(entry("sound/var/frequency"@))
        .push(entry("sound/var/pan"@))
        .push(entry("sound/var/priority"@))
        .push(entry("sound/var/status"@))
        .push(entry("sound/var/x"@))
        .push(entry("sound/var/y"@))
        .push(entry("sound/var/z"@))
        .push(entry("sound/var/falloff"@))
        .push(entry("sound/var/environment"@))
        .push(entry("sound/var/echo"@))
}

/// The built-in types and variables, in the order in which they are
/// declared. The order matters: a default can only refer to a type that an
/// earlier entry has declared.
pub open spec fn builtin_entries() -> Seq<EntryView> {
    root_entries() + datum_entries() + atom_entries() + movable_entries()
        + area_turf_obj_entries() + mob_entries() + world_entries() + client_entries()
        + sound_entries()
}

fn empty_table() -> (table: Vec<Entry>)
    ensures
        entries_view(table@) == Seq::<EntryView>::empty(),
{
    let table: Vec<Entry> = Vec::new();
    proof {
        assert(entries_view(table@) =~= Seq::<EntryView>::empty());
    }
    table
}

fn push(table: &mut Vec<Entry>, item: Entry)
    ensures
        entries_view(final(table)@) == entries_view(old(table)@).push(item@),
{
    table.push(item);
    proof {
        assert(entries_view(table@) =~= entries_view(old(table)@).push(item@));
    }
}

fn push_entry(table: &mut Vec<Entry>, path: &str)
    ensures
        entries_view(final(table)@) == entries_view(old(table)@).push(entry(path@)),
{
    push(table, Entry::new(path));
}

fn push_int(table: &mut Vec<Entry>, path: &str, value: i32)
    ensures
        entries_view(final(table)@) == entries_view(old(table)@).push(
            entry_int(path@, value as int),
        ),
{
    push(table, Entry::with_default(path, Expression::Int(value)));
}

fn push_string(table: &mut Vec<Entry>, path: &str, text: &str)
    ensures
        entries_view(final(table)@) == entries_view(old(table)@).push(
            entry_string(path@, text@),
        ),
{
    push(table, Entry::with_default(path, Expression::String(String::from_str(text))));
}

fn push_type(table: &mut Vec<Entry>, path: &str, target: &str)
    ensures
        entries_view(final(table)@) == entries_view(old(table)@).push(
            entry_type(path@, target@),
        ),
{
    push(table, Entry::with_default(path, Expression::TypePath(split_path(target))));
}

fn extend(table: &mut Vec<Entry>, group: Vec<Entry>)
    ensures
        entries_view(final(table)@) == entries_view(old(table)@) + entries_view(group@),
{
    let ghost added = group@;
    let mut group = group;
    table.append(&mut group);
    proof {
        assert(entries_view(table@) =~= entries_view(old(table)@) + entries_view(added));
    }
}

fn root_table() -> (table: Vec<Entry>)
    ensures
        entries_view(table@) == root_entries(),
{
    let mut table = empty_table();
    push_entry(&mut table, "var/type");
    push_entry(&mut table, "var/parent_type");
    push_entry(&mut table, "var/tag");
    push_entry(&mut table, "var/vars");
    table
}

fn datum_table() -> (table: Vec<Entry>)
    ensures
        entries_view(table@) == datum_entries(),
{
    let mut table = empty_table();
    push_entry(&mut table, "datum");
    table
}

fn atom_table() -> (table: Vec<Entry>)
    ensures
        entries_view(table@) == atom_entries(),
{
    let mut table = empty_table();
    push_type(&mut table, "atom/parent_type", "datum");
    push_entry(&mut table, "atom/var/alpha");
    push_entry(&mut table, "atom/var/appearance");
    push_entry(&mut table, "atom/var/appearance_flags");
    push_entry(&mut table, "atom/var/blend_mode");
    push_entry(&mut table, "atom/var/color");
    push_entry(&mut table, "atom/var/contents");
    push_entry(&mut table, "atom/var/density");
    push_entry(&mut table, "atom/var/desc");
    push_entry(&mut table, "atom/var/dir");
    push_entry(&mut table, "atom/var/gender");
    push_entry(&mut table, "atom/var/icon/icon");
    push_entry(&mut table, "atom/var/icon_state");
    push_entry(&mut table, "atom/var/invisibility");
    push_entry(&mut table, "atom/var/infra_luminosity");
    push_entry(&mut table, "atom/var/atom/loc");
    push_entry(&mut table, "atom/var/layer");
    push_entry(&mut table, "atom/var/luminosity");
    push_entry(&mut table, "atom/var/maptext");
    push_entry(&mut table, "atom/var/maptext_width");
    push_entry(&mut table, "atom/var/maptext_height");
    push_entry(&mut table, "atom/var/maptext_x");
    push_entry(&mut table, "atom/var/maptext_y");
    push_entry(&mut table, "atom/var/mouse_over_pointer");
    push_entry(&mut table, "atom/var/mouse_drag_pointer");
    push_entry(&mut table, "atom/var/mouse_drop_pointer");
    push_entry(&mut table, "atom/var/mouse_drop_zone");
    push_entry(&mut table, "atom/var/mouse_opacity");
    push_entry(&mut table, "atom/var/name");
    push_entry(&mut table, "atom/var/opacity");
    push_entry(&mut table, "atom/var/overlays");
    push_entry(&mut table, "atom/var/override");
    push_entry(&mut table, "atom/var/parent_type");
    push_entry(&mut table, "atom/var/pixel_x");
    push_entry(&mut table, "atom/var/pixel_y");
    push_entry(&mut table, "atom/var/pixel_w");
    push_entry(&mut table, "atom/var/pixel_z");
    push_entry(&mut table, "atom/var/plane");
    push_entry(&mut table, "atom/var/suffix");
    push_entry(&mut table, "atom/var/tag");
    push_entry(&mut table, "atom/var/text");
    push_entry(&mut table, "atom/var/transform");
    push_entry(&mut table, "atom/var/type");
    push_entry(&mut table, "atom/var/underlays");
    push_entry(&mut table, "atom/var/vars");
    push_entry(&mut table, "atom/var/verbs");
    push_entry(&mut table, "atom/var/x");
    push_entry(&mut table, "atom/var/y");
    push_entry(&mut table, "atom/var/z");
    table
}

fn movable_table() -> (table: Vec<Entry>)
    ensures
        entries_view(table@) == movable_entries(),
{
    let mut table = empty_table();
    push_entry(&mut table, "atom/movable");
    push_entry(&mut table, "atom/movable/var/animate_movement");
    push_entry(&mut table, "atom/movable/var/bound_x");
    push_entry(&mut table, "atom/movable/var/bound_y");
    push_entry(&mut table, "atom/movable/var/bound_width");
    push_entry(&mut table, "atom/movable/var/bound_height");
    push_entry(&mut table, "atom/movable/var/locs");
    push_entry(&mut table, "atom/movable/var/screen_loc");
    push_entry(&mut table, "atom/movable/var/glide_size");
    push_entry(&mut table, "atom/movable/var/step_size");
    push_entry(&mut table, "atom/movable/var/step_x");
    push_entry(&mut table, "atom/movable/var/step_y");
    table
}

fn area_turf_obj_table() -> (table: Vec<Entry>)
    ensures
        entries_view(table@) == area_turf_obj_entries(),
{
    let mut table = empty_table();
    push_type(&mut table, "area/parent_type", "atom");
    push_type(&mut table, "turf/parent_type", "atom");
    push_type(&mut table, "obj/parent_type", "atom/movable");
    table
}

fn mob_table() -> (table: Vec<Entry>)
    ensures
        entries_view(table@) == mob_entries(),
{
    let mut table = empty_table();
    push_type(&mut table, "mob/parent_type", "atom/movable");
    push_entry(&mut table, "mob/var/ckey");
    push_entry(&mut table, "mob/var/client/client");
    push_entry(&mut table, "mob/var/list/group");
    push_entry(&mut table, "mob/var/key");
    push_entry(&mut table, "mob/var/see_infrared");
    push_entry(&mut table, "mob/var/see_invisible");
    push_entry(&mut table, "mob/var/see_in_dark");
    push_entry(&mut table, "mob/var/sight");
    table
}

fn world_table() -> (table: Vec<Entry>)
    ensures
        entries_view(table@) == world_entries(),
{
    let mut table = empty_table();
    push_entry(&mut table, "world");
    push_entry(&mut table, "var/static/world/world");
    push_entry(&mut table, "world/var/static/address");
    push_type(&mut table, "world/var/static/area/area", "area");
    push_int(&mut table, "world/var/static/cache_lifespan", 30);
    push_entry(&mut table, "world/var/static/contents");
    push_entry(&mut table, "world/var/static/cpu");
    push_entry(&mut table, "world/var/static/executor");
    push_int(&mut table, "world/var/static/fps", 10);
    push_int(&mut table, "world/var/static/game_state", 0);
    push_entry(&mut table, "world/var/static/host");
    push_entry(&mut table, "world/var/static/hub");
    push_entry(&mut table, "world/var/static/hub_password");
    push_int(&mut table, "world/var/static/icon_size", 32);
    push_entry(&mut table, "world/var/static/internet_address");
    push_entry(&mut table, "world/var/static/log");
    push_int(&mut table, "world/var/static/loop_checks", 1);
    push_int(&mut table, "world/var/static/map_format", 0);
    push_entry(&mut table, "world/var/static/maxx");
    push_entry(&mut table, "world/var/static/maxy");
    push_entry(&mut table, "world/var/static/maxz");
    push_type(&mut table, "world/var/static/mob/mob", "mob");
    push_string(&mut table, "world/var/static/name", "byond");
    push_entry(&mut table, "world/var/static/params");
    push_entry(&mut table, "world/var/static/port");
    push_entry(&mut table, "world/var/static/realtime");
    push_entry(&mut table, "world/var/static/reachable");
    push_int(&mut table, "world/var/static/sleep_offline", 0);
    push_entry(&mut table, "world/var/static/status");
    push_entry(&mut table, "world/var/static/system_type");
    push_int(&mut table, "world/var/static/tick_lag", 1);
    push_entry(&mut table, "world/var/static/tick_usage");
    push_type(&mut table, "world/var/static/turf/turf", "turf");
    push_entry(&mut table, "world/var/static/time");
    push_entry(&mut table, "world/var/static/timeofday");
    push_entry(&mut table, "world/var/static/url");
    push_int(&mut table, "world/var/static/version", 0);
    push_int(&mut table, "world/var/static/view", 5);
    push_int(&mut table, "world/var/static/visibility", 1);
    table
}

fn client_table() -> (table: Vec<Entry>)
    ensures
        entries_view(table@) == client_entries(),
{
    let mut table = empty_table();
    push_entry(&mut table, "client");
    push_entry(&mut table, "client/var/address");
    push_entry(&mut table, "client/var/authenticate");
    push_entry(&mut table, "client/var/bounds");
    push_entry(&mut table, "client/var/byond_version");
    push_entry(&mut table, "client/var/CGI");
    push_entry(&mut table, "client/var/ckey");
    push_entry(&mut table, "client/var/color");
    push_entry(&mut table, "client/var/command_text");
    push_entry(&mut table, "client/var/connection");
    push_int(&mut table, "client/var/control_freak", 0);
    push_entry(&mut table, "client/var/computer_id");
    push_string(&mut table, "client/var/default_verb_category", "Commands");
    push_int(&mut table, "client/var/dir", 1);
    push_entry(&mut table, "client/var/edge_limit");
    push_entry(&mut table, "client/var/eye");
    push_int(&mut table, "client/var/fps", 0);
    push_entry(&mut table, "client/var/gender");
    push_int(&mut table, "client/var/glide_size", 0);
    push_entry(&mut table, "client/var/images");
    push_entry(&mut table, "client/var/inactivity");
    push_entry(&mut table, "client/var/key");
    push_entry(&mut table, "client/var/lazy_eye");
    push_entry(&mut table, "client/var/mob");
    push_entry(&mut table, "client/var/mouse_pointer_icon");
    push_int(&mut table, "client/var/perspective", 0);
    push_int(&mut table, "client/var/pixel_x", 0);
    push_int(&mut table, "client/var/pixel_y", 0);
    push_int(&mut table, "client/var/pixel_w", 0);
    push_int(&mut table, "client/var/pixel_z", 0);
    push_int(&mut table, "client/var/preload_rsc", 1);
    push_entry(&mut table, "client/var/screen");
    push_entry(&mut table, "client/var/script");
    push_int(&mut table, "client/var/show_map", 1);
    push_int(&mut table, "client/var/show_popup_menus", 1);
    push_int(&mut table, "client/var/show_verb_panel", 1);
    push_entry(&mut table, "client/var/statobj");
    push_entry(&mut table, "client/var/statpanel");
    push_int(&mut table, "client/var/tick_lag", 0);
    push_entry(&mut table, "client/var/verbs");
    push_entry(&mut table, "client/var/view");
    push_entry(&mut table, "client/var/virtual_eye");
    table
}

fn sound_table() -> (table: Vec<Entry>)
    ensures
        entries_view(table@) == sound_entries(),
{
    let mut table = empty_table();
    push_entry(&mut table, "sound");
    push_entry(&mut table, "sound/var/file");
    push_entry(&mut table, "sound/var/repeat");
    push_entry(&mut table, "sound/var/wait");
    push_entry(&mut table, "sound/var/channel");
    push_entry(&mut table, "sound/var/volume");
    push_entry(&mut table, "sound/var/frequency");
    push_entry(&mut table, "sound/var/pan");
    push_entry(&mut table, "sound/var/priority");
    push_entry(&mut table, "sound/var/status");
    push_entry(&mut table, "sound/var/x");
    push_entry(&mut table, "sound/var/y");
    push_entry(&mut table, "sound/var/z");
    push_entry(&mut table, "sound/var/falloff");
    push_entry(&mut table, "sound/var/environment");
    push_entry(&mut table, "sound/var/echo");
    table
}

/// The table of built-in types and variables.
pub fn entry_table() -> (table: Vec<Entry>)
    ensures
        entries_view(table@) == builtin_entries(),
{
    let mut table = root_table();
    extend(&mut table, datum_table());
    extend(&mut table, atom_table());
    extend(&mut table, movable_table());
    extend(&mut table, area_turf_obj_table());
    extend(&mut table, mob_table());
    extend(&mut table, world_table());
    extend(&mut table, client_table());
    extend(&mut table, sound_table());
    table
}

/// Declares the built-in types and variables in `tree`, entry by entry, each
/// at the location that stands for the built-ins. Stops at the first entry
/// that fails and returns its error; what the entries before it declared
/// stays in the tree.
pub fn register_builtins(tree: &mut ObjectTree) -> (r: Result<(), RegistrationError>)
    requires
        old(tree).wf(),
    ensures
        final(tree).wf(),
        (final(tree)@, r) == entries_inserted(
            old(tree)@,
            Location::spec_builtins(),
            builtin_entries(),
        ),
{
    let table = entry_table();
    tree.insert_all(Location::builtins(), table.as_slice())
}

} // verus!
