use norad::datastore::DataStore;
use norad::error::{FontLoadError, GroupsValidationError};
use norad::font::{FormatVersion, MetaInfo};
use norad::fontinfo::FontInfo;
use norad::guideline::{line_of, Line, LineShapeError};
use norad::non_file_io::{font_head, font_info_checked, groups_checked, lib_from_text, meta_checked};
use norad::shared_types::FloatBits;
use norad::Name;

#[test]
fn meta_checked_keeps_only_version_three() {
    let mut meta = MetaInfo::default();
    assert!(meta_checked(meta.clone()).is_ok());
    meta.format_version = FormatVersion::V2;
    assert!(matches!(meta_checked(meta), Err(FontLoadError::SourceUnsupportedFormatVersion)));
}

#[test]
fn lib_from_text_cases() {
    assert!(lib_from_text(None).unwrap().is_empty());
    let dict = "<?xml version=\"1.0\" encoding=\"UTF-8\"?>\n<plist version=\"1.0\">\n<dict>\n<key>a</key>\n<string>b</string>\n</dict>\n</plist>\n";
    let d = lib_from_text(Some(dict.to_string())).unwrap();
    assert_eq!(d.get("a").and_then(|v| v.as_string()), Some("b"));
    let array = "<?xml version=\"1.0\" encoding=\"UTF-8\"?>\n<plist version=\"1.0\">\n<array/>\n</plist>\n";
    assert!(matches!(lib_from_text(Some(array.to_string())), Err(FontLoadError::LibFileMustBeDictionary)));
    assert!(matches!(lib_from_text(Some("not a plist".to_string())), Err(FontLoadError::ParsePlist { name: "lib.plist", .. })));
}

#[test]
fn groups_checked_cases() {
    let good = vec![(Name::new("public.kern1.A").unwrap(), vec![Name::new("A").unwrap()])];
    assert_eq!(groups_checked(good.clone()).unwrap().len(), 1);
    let bad = vec![
        (Name::new("public.kern1.A").unwrap(), vec![Name::new("A").unwrap()]),
        (Name::new("public.kern1.B").unwrap(), vec![Name::new("A").unwrap()]),
    ];
    assert!(matches!(
        groups_checked(bad),
        Err(FontLoadError::InvalidGroups(GroupsValidationError::OverlappingKerningGroups { .. }))
    ));
}

#[test]
fn font_info_checked_rejects_invalid_info() {
    let mut lib = plist::Dictionary::new();
    let fi = FontInfo::default();
    assert!(font_info_checked(fi, &mut lib).is_ok());
    let mut bad = FontInfo::default();
    bad.open_type_head_created = Some("yesterday".to_string());
    assert!(matches!(font_info_checked(bad, &mut lib), Err(FontLoadError::FontInfo(_))));
}

#[test]
fn line_of_cases() {
    let one = FloatBits(1.0f64.to_bits());
    assert_eq!(line_of(Some(one), None, None), Ok(Line::Vertical(one)));
    assert_eq!(line_of(None, Some(one), None), Ok(Line::Horizontal(one)));
    assert_eq!(line_of(Some(one), Some(one), Some(one)), Ok(Line::Angle { x: one, y: one, degrees: one }));
    assert_eq!(line_of(None, None, Some(one)), Err(LineShapeError::MissingCoordinate));
    assert_eq!(line_of(Some(one), Some(one), None), Err(LineShapeError::MissingAngle));
    assert_eq!(line_of(Some(one), None, Some(one)), Err(LineShapeError::AngleWithOneCoordinate));
}

#[test]
fn store_remove_leaves_no_entry() {
    let mut store = DataStore::empty();
    store.insert("a.txt".to_string(), vec![1]).unwrap();
    store.insert("b/c.txt".to_string(), vec![2]).unwrap();
    assert_eq!(store.len(), 2);
    store.remove("a.txt");
    assert!(!store.contains_key("a.txt"));
    assert_eq!(store.len(), 1);
    store.remove("a.txt");
    assert_eq!(store.len(), 1);
}

#[test]
fn font_head_reports_the_first_failure() {
    let v3 = MetaInfo::default();
    let mut v2 = MetaInfo::default();
    v2.format_version = FormatVersion::V2;
    let groups = vec![(Name::new("public.kern1.A").unwrap(), vec![Name::new("A").unwrap()])];
    let bad_groups = vec![
        (Name::new("public.kern1.A").unwrap(), vec![Name::new("A").unwrap()]),
        (Name::new("public.kern1.B").unwrap(), vec![Name::new("A").unwrap()]),
    ];
    let (meta, lib, _fi, g, k) =
        font_head(Ok(v3.clone()), Ok(None), Ok(None), Ok(Some(groups.clone())), Ok(None)).unwrap();
    assert_eq!(meta.format_version, FormatVersion::V3);
    assert!(lib.is_empty());
    assert_eq!(g.len(), 1);
    assert!(k.is_empty());
    assert!(matches!(
        font_head(Ok(v2), Ok(None), Ok(None), Ok(Some(bad_groups.clone())), Ok(None)),
        Err(FontLoadError::SourceUnsupportedFormatVersion)
    ));
    assert!(matches!(
        font_head(Err(FontLoadError::MissingMetaInfoFile), Ok(None), Ok(None), Ok(None), Ok(None)),
        Err(FontLoadError::MissingMetaInfoFile)
    ));
    let array = "<?xml version=\"1.0\" encoding=\"UTF-8\"?>\n<plist version=\"1.0\">\n<array/>\n</plist>\n";
    assert!(matches!(
        font_head(Ok(v3.clone()), Ok(Some(array.to_string())), Ok(None), Ok(Some(bad_groups.clone())), Ok(None)),
        Err(FontLoadError::LibFileMustBeDictionary)
    ));
    assert!(matches!(
        font_head(Ok(v3.clone()), Ok(None), Ok(None), Ok(Some(bad_groups)), Err(FontLoadError::MissingMetaInfoFile)),
        Err(FontLoadError::InvalidGroups(_))
    ));
    assert!(matches!(
        font_head(Ok(v3), Ok(None), Ok(None), Ok(Some(groups)), Err(FontLoadError::MissingLayerContentsFile)),
        Err(FontLoadError::MissingLayerContentsFile)
    ));
}
