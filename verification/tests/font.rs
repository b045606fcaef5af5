use std::collections::HashMap;

use norad::data_request::LayerFilter;
use norad::designspace::{is_false, Condition, ConditionSet, RawRule, Rule, RuleProcessing, Substitution};
use norad::error::{FontLoadError, FontWriteError, GroupsValidationError, StoreError};
use norad::font::{check_before_save, is_zero, Font, FormatVersion, MetaInfo};
use norad::fontinfo::{
    FontInfo, GaspRangeRecord, WoffMetadataExtensionItemRecord, WoffMetadataExtensionNameRecord,
    WoffMetadataExtensionRecord, WoffMetadataExtensionValueRecord,
};
use norad::non_file_io::load_layer_set;
use norad::shared_types::FloatBits;
use norad::Name;

fn read_f64(s: &str) -> Option<u64> {
    s.parse::<f64>().ok().map(|v| v.to_bits())
}

fn read_f32(s: &str) -> Option<u32> {
    s.parse::<f32>().ok().map(|v| v.to_bits())
}

#[test]
fn new_is_v3() {
    let font = Font::new();
    assert_eq!(font.meta.format_version, FormatVersion::V3);
}

#[test]
fn test_validate_head_created() {
    let mut fi = FontInfo::default();
    fi.open_type_head_created = Some("YYYY/MM/DD HH:MM:SS".to_string());
    assert!(fi.validate().is_err());
    fi.open_type_head_created = Some("1230/03/27 99:23:10".to_string());
    assert!(fi.validate().is_err());
    fi.open_type_head_created = Some("1230:03/27 99:23:10".to_string());
    assert!(fi.validate().is_err());
    fi.open_type_head_created = Some("9999/12/31 23:59:59".to_string());
    assert!(fi.validate().is_ok());
}

#[test]
fn test_validate_gasp() {
    let mut fi = FontInfo::default();
    assert!(fi.validate().is_ok());

    fi.open_type_gasp_range_records = Some(Vec::new());
    assert!(fi.validate().is_ok());

    if let Some(v) = &mut fi.open_type_gasp_range_records {
        v.push(GaspRangeRecord { range_max_ppem: 1, range_gasp_behavior: Vec::new() });
    }
    assert!(fi.validate().is_ok());

    if let Some(v) = &mut fi.open_type_gasp_range_records {
        v.push(GaspRangeRecord { range_max_ppem: 2, range_gasp_behavior: Vec::new() });
    }
    assert!(fi.validate().is_ok());

    if let Some(v) = &mut fi.open_type_gasp_range_records {
        v.push(GaspRangeRecord { range_max_ppem: 1, range_gasp_behavior: Vec::new() });
    }
    assert!(fi.validate().is_err());
}

#[test]
fn test_validate_woff_extensions() {
    let mut fi = FontInfo::default();
    assert!(fi.validate().is_ok());

    fi.woff_metadata_extensions = Some(Vec::new());
    assert!(fi.validate().is_err());

    if let Some(v) = &mut fi.woff_metadata_extensions {
        v.push(WoffMetadataExtensionRecord { id: None, names: Vec::new(), items: Vec::new() });
    }
    assert!(fi.validate().is_err());

    if let Some(v) = &mut fi.woff_metadata_extensions {
        v[0].items.push(WoffMetadataExtensionItemRecord {
            id: Some("a".to_string()),
            names: Vec::new(),
            values: Vec::new(),
        });
    }
    assert!(fi.validate().is_err());

    if let Some(v) = &mut fi.woff_metadata_extensions {
        v[0].items[0].names.push(WoffMetadataExtensionNameRecord {
            text: "a".to_string(),
            language: None,
            dir: None,
            class: None,
        });
        v[0].items[0].values.push(WoffMetadataExtensionValueRecord {
            text: "b".to_string(),
            language: None,
            dir: None,
            class: None,
        });
    }
    assert!(fi.validate().is_ok());
}

#[test]
fn font_info_emptiness() {
    let mut fi = FontInfo::default();
    assert!(fi.is_empty());
    fi.family_name = Some("Fam".to_string());
    assert!(!fi.is_empty());
}

#[test]
fn checks_before_saving_come_in_order() {
    let plain = plist::Dictionary::new();
    let mut meta = MetaInfo::default();
    let info = FontInfo::default();
    let entries: Vec<(String, Result<Vec<u8>, StoreError>)> = Vec::new();
    let no_images: Vec<(String, Result<Vec<u8>, StoreError>)> = Vec::new();
    meta.format_version = FormatVersion::V1;
    assert!(matches!(check_before_save(&meta, &plain, &Vec::new(), &info, &entries, &no_images), Err(FontWriteError::Downgrade)));
    meta.format_version = FormatVersion::V2;
    assert!(matches!(check_before_save(&meta, &plain, &Vec::new(), &info, &entries, &no_images), Err(FontWriteError::Downgrade)));
    meta.format_version = FormatVersion::V3;
    assert!(check_before_save(&meta, &plain, &Vec::new(), &info, &entries, &no_images).is_ok());

    let mut lib = plist::Dictionary::new();
    lib.insert("public.objectLibs".to_string(), plist::Value::Dictionary(plist::Dictionary::new()));
    assert!(matches!(
        check_before_save(&meta, &lib, &Vec::new(), &info, &entries, &no_images),
        Err(FontWriteError::PreexistingPublicObjectLibsKey)
    ));

    let groups = vec![(Name::new_raw("public.kern1."), vec![Name::new_raw("a")])];
    assert!(matches!(
        check_before_save(&meta, &plain, &groups, &info, &entries, &no_images),
        Err(FontWriteError::InvalidGroups(GroupsValidationError::InvalidName))
    ));

    let mut bad_info = FontInfo::default();
    bad_info.open_type_head_created = Some("nope".to_string());
    assert!(matches!(
        check_before_save(&meta, &plain, &Vec::new(), &bad_info, &entries, &no_images),
        Err(FontWriteError::InvalidFontInfo(_))
    ));

    let entries = vec![
        ("a.txt".to_string(), Ok(vec![1u8])),
        ("b.txt".to_string(), Err(StoreError::EmptyPath)),
        ("c.txt".to_string(), Err(StoreError::PathIsAbsolute)),
    ];
    match check_before_save(&meta, &plain, &Vec::new(), &info, &entries, &no_images) {
        Err(FontWriteError::InvalidStoreEntry { path, source: StoreError::EmptyPath }) => assert_eq!(path, "b.txt"),
        other => panic!("unexpected {:?}", other),
    }
    // Data entries are checked before image entries.
    let loaded = vec![("a.txt".to_string(), Ok(vec![1u8]))];
    let images = vec![("i.png".to_string(), Err(StoreError::InvalidImage))];
    match check_before_save(&meta, &plain, &Vec::new(), &info, &loaded, &images) {
        Err(FontWriteError::InvalidStoreEntry { path, source: StoreError::InvalidImage }) => assert_eq!(path, "i.png"),
        other => panic!("unexpected {:?}", other),
    }
    match check_before_save(&meta, &plain, &Vec::new(), &info, &entries, &images) {
        Err(FontWriteError::InvalidStoreEntry { path, .. }) => assert_eq!(path, "b.txt"),
        other => panic!("unexpected {:?}", other),
    }
}

#[test]
fn saved_metainfo_names_the_library_as_creator() {
    let mut meta = MetaInfo::default();
    assert_eq!(meta.for_saving().creator.as_deref(), Some("org.linebender.norad"));
    meta.creator = Some("someone else".to_string());
    meta.format_version_minor = 2;
    let saved = meta.for_saving();
    assert_eq!(saved.creator.as_deref(), Some("org.linebender.norad"));
    assert_eq!(saved.format_version_minor, 0);
    assert!(is_zero(&0));
    assert!(!is_zero(&3));
}

#[test]
fn font_defaults() {
    let font = Font::new();
    assert_eq!(font.glyph_count(), 0);
    assert_eq!(font.iter_layers().len(), 1);
    assert_eq!(font.default_layer().name().as_str(), "public.default");
    assert!(font.get_glyph("a").is_none());
    assert!(font.guidelines().is_empty());
    assert!(font.iter_names().is_empty());
}

struct MemoryText(HashMap<String, String>);

impl MemoryText {
    fn read_text(&self, path: &str) -> Result<Option<String>, String> {
        Ok(self.0.get(path).cloned())
    }
}

const GLIF_A: &str = r#"<?xml version="1.0" encoding="UTF-8"?>
<glyph name="A" format="2">
	<advance width="500"/>
</glyph>
"#;

const GLIF_B: &str = r#"<?xml version="1.0" encoding="UTF-8"?>
<glyph name="B" format="2">
</glyph>
"#;

const LAYERCONTENTS: &str = r#"<?xml version="1.0" encoding="UTF-8"?>
<!DOCTYPE plist PUBLIC "-//Apple//DTD PLIST 1.0//EN" "http://www.apple.com/DTDs/PropertyList-1.0.dtd">
<plist version="1.0">
<array>
	<array>
		<string>foreground</string>
		<string>glyphs</string>
	</array>
	<array>
		<string>background</string>
		<string>glyphs.background</string>
	</array>
</array>
</plist>
"#;

fn contents(entries: &[(&str, &str)]) -> String {
    let mut s = String::from(
        "<?xml version=\"1.0\" encoding=\"UTF-8\"?>\n<plist version=\"1.0\">\n<dict>\n",
    );
    for (k, v) in entries {
        s.push_str(&format!("\t<key>{}</key>\n\t<string>{}</string>\n", k, v));
    }
    s.push_str("</dict>\n</plist>\n");
    s
}

fn memory_font() -> MemoryText {
    let mut files = HashMap::new();
    files.insert("layercontents.plist".to_string(), LAYERCONTENTS.to_string());
    files.insert("glyphs/contents.plist".to_string(), contents(&[("A", "A_.glif")]));
    files.insert("glyphs/A_.glif".to_string(), GLIF_A.to_string());
    files.insert("glyphs.background/contents.plist".to_string(), contents(&[("B", "B_.glif")]));
    files.insert("glyphs.background/B_.glif".to_string(), GLIF_B.to_string());
    MemoryText(files)
}

#[test]
fn load_layers_from_memory() {
    let source = memory_font();
    let meta = MetaInfo::default();
    let filter = LayerFilter::from_bool(true);
    let layers = load_layer_set(&|p: &str| source.read_text(p), &meta, &filter, &|_: &str, _: &str| false, &read_f64, &read_f32).unwrap();
    assert_eq!(layers.len(), 2);
    let default = layers.default_layer();
    assert_eq!(default.name().as_str(), "foreground");
    assert_eq!(default.path(), "glyphs");
    assert_eq!(default.get_glyph("A").unwrap().width, FloatBits(500.0f64.to_bits()));
    let background = layers.get("background").unwrap();
    assert_eq!(background.path(), "glyphs.background");
    assert!(background.contains_glyph("B"));
}

#[test]
fn load_layers_with_a_filter() {
    let source = memory_font();
    let meta = MetaInfo::default();
    let filter = LayerFilter { all: false, load_default: true, custom: false };
    let layers = load_layer_set(&|p: &str| source.read_text(p), &meta, &filter, &|_: &str, _: &str| false, &read_f64, &read_f32).unwrap();
    assert_eq!(layers.len(), 1);
    assert!(layers.default_layer().contains_glyph("A"));

    let source = memory_font();
    let filter = LayerFilter { all: false, load_default: false, custom: true };
    let layers = load_layer_set(&|p: &str| source.read_text(p),
        &meta,
        &filter,
        &|name: &str, _: &str| name == "background",
        &read_f64,
        &read_f32,
    )
    .unwrap();
    assert_eq!(layers.len(), 2);
    assert!(layers.default_layer().is_empty());
    assert!(layers.get("background").unwrap().contains_glyph("B"));
}

#[test]
fn load_layers_errors() {
    let meta = MetaInfo::default();
    let filter = LayerFilter::from_bool(true);
    let empty = MemoryText(HashMap::new());
    assert!(matches!(
        load_layer_set(&|p: &str| empty.read_text(p), &meta, &filter, &|_: &str, _: &str| false, &read_f64, &read_f32),
        Err(FontLoadError::MissingLayerContentsFile)
    ));

    let mut old_meta = MetaInfo::default();
    old_meta.format_version = FormatVersion::V2;
    let mut files = HashMap::new();
    files.insert("glyphs/contents.plist".to_string(), contents(&[("B", "B_.glif")]));
    files.insert("glyphs/B_.glif".to_string(), GLIF_B.to_string());
    let v2 = MemoryText(files);
    let layers = load_layer_set(&|p: &str| v2.read_text(p), &old_meta, &filter, &|_: &str, _: &str| false, &read_f64, &read_f32).unwrap();
    assert!(layers.default_layer().contains_glyph("B"));

    let mut missing_glyph = memory_font();
    missing_glyph.0.remove("glyphs/A_.glif");
    assert!(matches!(
        load_layer_set(&|p: &str| missing_glyph.read_text(p), &meta, &filter, &|_: &str, _: &str| false, &read_f64, &read_f32),
        Err(FontLoadError::Layer { .. })
    ));

    let mut bad_plist = memory_font();
    bad_plist.0.insert("layercontents.plist".to_string(), "not a plist".to_string());
    assert!(matches!(
        load_layer_set(&|p: &str| bad_plist.read_text(p), &meta, &filter, &|_: &str, _: &str| false, &read_f64, &read_f32),
        Err(FontLoadError::ParsePlist { .. })
    ));
}

#[test]
fn bare_conditions_become_a_condition_set() {
    let raw = RawRule {
        name: Some("r".to_string()),
        condition_sets: vec![ConditionSet { conditions: vec![] }],
        conditions: vec![Condition { name: "weight".to_string(), minimum: None, maximum: None }],
        substitutions: vec![Substitution { name: Name::new_raw("a"), with: Name::new_raw("a.alt") }],
    };
    let rule = Rule::from_raw(raw);
    assert_eq!(rule.condition_sets.len(), 2);
    assert_eq!(rule.condition_sets[1].conditions[0].name, "weight");
    let back = rule.into_raw();
    assert!(back.conditions.is_empty());
    assert_eq!(back.condition_sets.len(), 2);
    assert_eq!(RuleProcessing::default(), RuleProcessing::First);
    assert!(is_false(&false));
    assert!(!is_false(&true));
}
