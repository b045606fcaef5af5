use norad::error::NamingError;
use norad::layer::{Layer, LayerSet};
use norad::util::{default_file_name_for_glyph_name, default_file_name_for_layer_name};
use norad::Glyph;

#[test]
fn rename_layer() {
    let mut layer_set = LayerSet::default();

    // Non-default layers can be renamed and get a new path.
    layer_set.new_layer("aaa").unwrap();
    assert_eq!(layer_set.get("aaa").unwrap().path(), "glyphs.aaa");

    layer_set.rename_layer("aaa", "bbb", false).unwrap();
    assert!(layer_set.get("aaa").is_none());
    assert_eq!(layer_set.get("bbb").unwrap().path(), "glyphs.bbb");

    layer_set.rename_layer("bbb", "aaa", false).unwrap();
    assert_eq!(layer_set.get("aaa").unwrap().path(), "glyphs.aaa");
    assert!(layer_set.get("bbb").is_none());
}

#[test]
fn rename_layer_overwrite() {
    let mut layer_set = LayerSet::default();

    // Non-default layers can be renamed and get a new path.
    layer_set.new_layer("aaa").unwrap();
    layer_set.new_layer("bbb").unwrap();
    assert_eq!(layer_set.get("aaa").unwrap().path(), "glyphs.aaa");
    assert_eq!(layer_set.get("bbb").unwrap().path(), "glyphs.bbb");

    layer_set.rename_layer("aaa", "bbb", true).unwrap();
    assert!(layer_set.get("aaa").is_none());
    assert_eq!(layer_set.get("bbb").unwrap().path(), "glyphs.bbb");

    layer_set.rename_layer("bbb", "aaa", false).unwrap();
    assert_eq!(layer_set.get("aaa").unwrap().path(), "glyphs.aaa");
    assert!(layer_set.get("bbb").is_none());
}

#[test]
#[should_panic(expected = "Reserved")]
fn rename_layer_nondefault_default() {
    let mut layer_set = LayerSet::default();

    layer_set.rename_layer("public.default", "foreground", false).unwrap();

    // "public.default" is the reserved name for the actual default layer.
    layer_set.new_layer("aaa").unwrap();
    layer_set.rename_layer("aaa", "public.default", true).unwrap();
}

#[test]
fn rename_default_layer() {
    let mut layer_set = LayerSet::default();

    // The default layer can be renamed but the path stays the same.
    layer_set.rename_layer("public.default", "aaa", false).unwrap();

    assert_eq!(layer_set.default_layer().name().as_str(), "aaa");
    assert_eq!(layer_set.default_layer().path(), "glyphs");

    // Renaming back must work.
    layer_set.rename_layer("aaa", "public.default", false).unwrap();

    assert_eq!(layer_set.default_layer().name().as_str(), "public.default");
    assert_eq!(layer_set.default_layer().path(), "glyphs");

    layer_set.rename_layer("public.default", "aaa", false).unwrap();

    assert_eq!(layer_set.default_layer().name().as_str(), "aaa");
    assert_eq!(layer_set.default_layer().path(), "glyphs");
}

#[test]
fn rename_default_layer_overwrite() {
    let mut layer_set = LayerSet::default();

    // The default layer can be renamed but the path stays the same.
    layer_set.new_layer("aaa").unwrap();
    layer_set.rename_layer("public.default", "aaa", true).unwrap();

    assert_eq!(layer_set.default_layer().name().as_str(), "aaa");
    assert_eq!(layer_set.default_layer().path(), "glyphs");
    assert!(layer_set.get("public.default").is_none());

    // Renaming back must work.
    layer_set.rename_layer("aaa", "public.default", true).unwrap();

    assert_eq!(layer_set.default_layer().name().as_str(), "public.default");
    assert_eq!(layer_set.default_layer().path(), "glyphs");
    assert!(layer_set.get("aaa").is_none());

    layer_set.new_layer("aaa").unwrap();
    layer_set.rename_layer("public.default", "aaa", true).unwrap();

    assert_eq!(layer_set.default_layer().name().as_str(), "aaa");
    assert_eq!(layer_set.default_layer().path(), "glyphs");
    assert!(layer_set.get("public.default").is_none());
}

#[test]
fn layerset_duplicate_paths() {
    let mut layer_set = LayerSet::default();

    layer_set.new_layer("Ab").unwrap();
    assert_eq!(layer_set.get("Ab").unwrap().path(), "glyphs.A_b");

    layer_set.new_layer("a_b").unwrap();
    assert_eq!(layer_set.get("a_b").unwrap().path(), "glyphs.a_b000000000000001");

    layer_set.remove("Ab");
    layer_set.new_layer("Ab").unwrap();
    assert_eq!(layer_set.get("Ab").unwrap().path(), "glyphs.A_b");
}

#[test]
fn layer_duplicate_paths() {
    let mut layer = Layer::default();

    layer.insert_glyph(Glyph::new("Ab"));
    assert_eq!(layer.get_path("Ab").unwrap(), "A_b.glif");

    layer.insert_glyph(Glyph::new("a_b"));
    assert_eq!(layer.get_path("a_b").unwrap(), "a_b000000000000001.glif");

    layer.remove_glyph("Ab");
    layer.insert_glyph(Glyph::new("Ab"));
    assert_eq!(layer.get_path("Ab").unwrap(), "A_b.glif");
}

#[test]
fn layer_glyphs_are_kept_in_name_order() {
    let mut layer = Layer::default();
    for name in ["b", "a", "c", "B"] {
        layer.insert_glyph(Glyph::new(name));
    }
    let names: Vec<String> = layer.iter().iter().map(|g| g.name().as_str().to_string()).collect();
    assert_eq!(names, vec!["B", "a", "b", "c"]);
    assert_eq!(layer.len(), 4);
    assert!(layer.contains_glyph("c"));
    assert!(layer.remove_glyph("c").is_some());
    assert!(!layer.contains_glyph("c"));
    assert!(layer.remove_glyph("c").is_none());
    layer.clear();
    assert!(layer.is_empty());
}

#[test]
fn replacing_a_glyph_keeps_its_file_name() {
    let mut layer = Layer::default();
    layer.insert_glyph(Glyph::new("A"));
    let mut wider = Glyph::new("A");
    wider.width = norad::shared_types::FloatBits(500.0f64.to_bits());
    layer.insert_glyph(wider);
    assert_eq!(layer.len(), 1);
    assert_eq!(layer.get_path("A").unwrap(), "A_.glif");
    assert_eq!(layer.get_glyph("A").unwrap().width, norad::shared_types::FloatBits(500.0f64.to_bits()));
}

#[test]
fn rename_glyph_errors() {
    let mut layer = Layer::default();
    layer.insert_glyph(Glyph::new("a"));
    layer.insert_glyph(Glyph::new("b"));
    assert!(matches!(layer.rename_glyph("a", "b", false), Err(NamingError::Duplicate(_))));
    assert!(matches!(layer.rename_glyph("z", "y", false), Err(NamingError::Missing(_))));
    assert!(matches!(layer.rename_glyph("a", "", false), Err(NamingError::Invalid(_))));
    layer.rename_glyph("a", "c", false).unwrap();
    assert!(!layer.contains_glyph("a"));
    assert_eq!(layer.get_glyph("c").unwrap().name().as_str(), "c");
    assert_eq!(layer.get_path("c").unwrap(), "c.glif");
    layer.rename_glyph("c", "b", true).unwrap();
    assert_eq!(layer.len(), 1);
}

#[test]
fn new_layer_errors() {
    let mut layer_set = LayerSet::default();
    assert!(matches!(layer_set.new_layer("public.default"), Err(NamingError::ReservedName)));
    layer_set.new_layer("x").unwrap();
    assert!(matches!(layer_set.new_layer("x"), Err(NamingError::Duplicate(_))));
    assert!(matches!(layer_set.new_layer("\u{7}"), Err(NamingError::Invalid(_))));
    assert_eq!(layer_set.len(), 2);
    assert!(layer_set.remove("public.default").is_none());
    assert!(layer_set.remove("x").is_some());
    assert_eq!(layer_set.len(), 1);
}

#[test]
fn file_names_follow_the_convention() {
    let none: Vec<String> = Vec::new();
    assert_eq!(default_file_name_for_glyph_name("a", &none), "a.glif");
    assert_eq!(default_file_name_for_glyph_name("A", &none), "A_.glif");
    assert_eq!(default_file_name_for_glyph_name(".notdef", &none), "_notdef.glif");
    assert_eq!(default_file_name_for_glyph_name("a/b*c", &none), "a_b_c.glif");
    assert_eq!(default_file_name_for_glyph_name("con", &none), "_con.glif");
    assert_eq!(default_file_name_for_glyph_name("a.con", &none), "a._con.glif");
    assert_eq!(default_file_name_for_layer_name("Foo", &none), "glyphs.F_oo");
    let taken = vec!["a.glif".to_string(), "a000000000000001.glif".to_string()];
    assert_eq!(default_file_name_for_glyph_name("A", &taken), "A_.glif");
    assert_eq!(default_file_name_for_glyph_name("a", &taken), "a000000000000002.glif");
    let long = "x".repeat(300);
    assert_eq!(default_file_name_for_glyph_name(&long, &none).len(), 255);
}

#[test]
fn rename_layer_onto_itself() {
    let mut layer_set = LayerSet::default();
    layer_set.new_layer("aaa").unwrap();
    layer_set.rename_layer("aaa", "aaa", true).unwrap();
    assert_eq!(layer_set.get("aaa").unwrap().path(), "glyphs.aaa");
    assert_eq!(layer_set.len(), 2);
    assert!(matches!(layer_set.rename_layer("aaa", "aaa", false), Err(NamingError::Duplicate(_))));
}
