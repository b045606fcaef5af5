use std::cell::RefCell;
use std::collections::BTreeMap;

use norad::data_request::DataRequest;
use norad::error::{FontLoadError, FontWriteError, GlifLoadError, LayerLoadError, StoreError};
use norad::features::expand_feature_text;
use norad::font::{Font, FormatVersion, MetaInfo};
use norad::fontinfo::FontInfo;
use norad::groups::Groups;
use norad::kerning::Kerning;
use norad::non_file_io::{
    load_font_with_source, save_font_files, sink_reply, SerializedParts,
};
use norad::shared_types::{Float32Bits, FloatBits};
use norad::write::WriteOptions;

trait Sink {
    fn write(&self, path: &str, data: &[u8]) -> Result<(), String>;
}

fn save_font_with_sink<K: Sink>(
    font: &Font,
    data: Vec<(String, Result<Vec<u8>, StoreError>)>,
    images: Vec<(String, Result<Vec<u8>, StoreError>)>,
    parts: SerializedParts,
    opts: &WriteOptions,
    show: &dyn Fn(FloatBits) -> String,
    show3: &dyn Fn(Float32Bits) -> String,
    sink: &K,
) -> Result<(), FontWriteError> {
    let files = save_font_files(font, data, images, parts, opts, &show, &show3)?;
    for (path, bytes) in files {
        sink_reply(&path, sink.write(&path, &bytes))?;
    }
    Ok(())
}

const METAINFO: &str = r#"<?xml version="1.0" encoding="UTF-8"?>
<!DOCTYPE plist PUBLIC "-//Apple//DTD PLIST 1.0//EN" "http://www.apple.com/DTDs/PropertyList-1.0.dtd">
<plist version="1.0">
<dict>
    <key>creator</key>
    <string>org.linebender.norad</string>
    <key>formatVersion</key>
    <integer>3</integer>
</dict>
</plist>
"#;

const FEATURES: &str =
    "languagesystem DFLT dflt;\ninclude( features/includes/shared.fea );\nfeature liga {\n    sub A A by A;\n} liga;\n";

fn sample_ufo_entries() -> BTreeMap<String, String> {
    let mut entries = BTreeMap::new();
    entries.insert("metainfo.plist".to_string(), METAINFO.to_string());
    entries.insert(
        "layercontents.plist".to_string(),
        r#"<?xml version="1.0" encoding="UTF-8"?>
<!DOCTYPE plist PUBLIC "-//Apple//DTD PLIST 1.0//EN" "http://www.apple.com/DTDs/PropertyList-1.0.dtd">
<plist version="1.0">
<array>
    <array>
        <string>public.default</string>
        <string>glyphs</string>
    </array>
</array>
</plist>
"#
        .to_string(),
    );
    entries.insert(
        "glyphs/contents.plist".to_string(),
        r#"<?xml version="1.0" encoding="UTF-8"?>
<!DOCTYPE plist PUBLIC "-//Apple//DTD PLIST 1.0//EN" "http://www.apple.com/DTDs/PropertyList-1.0.dtd">
<plist version="1.0">
<dict>
    <key>A</key>
    <string>A_.glif</string>
</dict>
</plist>
"#
        .to_string(),
    );
    entries.insert(
        "glyphs/A_.glif".to_string(),
        r#"<?xml version='1.0' encoding='UTF-8'?>
<glyph name="A" format="2">
  <advance width="500"/>
</glyph>
"#
        .to_string(),
    );
    entries.insert("features.fea".to_string(), FEATURES.to_string());
    entries.insert("features/includes/shared.fea".to_string(), "@shared = [A];\n".to_string());
    entries
}

struct Entries(BTreeMap<String, String>);

impl Entries {
    fn read_text(&self, path: &str) -> Result<Option<String>, String> {
        Ok(self.0.get(path).cloned())
    }
}

struct Reader;

fn plist_error() -> plist::Error {
    plist::Value::from_reader_xml(&b"not a property list"[..]).unwrap_err()
}

impl Reader {
    pub fn metainfo(&self, text: &str) -> Result<MetaInfo, plist::Error> {
        let dict = plist::Value::from_reader_xml(text.as_bytes())?.into_dictionary().ok_or_else(plist_error)?;
        let creator = dict.get("creator").and_then(|v| v.as_string()).map(|s| s.to_string());
        let format_version = match dict.get("formatVersion").and_then(|v| v.as_unsigned_integer()) {
            Some(1) => FormatVersion::V1,
            Some(2) => FormatVersion::V2,
            Some(3) => FormatVersion::V3,
            _ => return Err(plist_error()),
        };
        let format_version_minor =
            dict.get("formatVersionMinor").and_then(|v| v.as_unsigned_integer()).unwrap_or(0) as u32;
        Ok(MetaInfo { creator, format_version, format_version_minor })
    }

    pub fn font_info(&self, _text: &str) -> Result<FontInfo, plist::Error> {
        Ok(FontInfo::default())
    }

    pub fn groups(&self, _text: &str) -> Result<Groups, plist::Error> {
        Ok(Vec::new())
    }

    pub fn kerning(&self, _text: &str) -> Result<Kerning, plist::Error> {
        Ok(Vec::new())
    }
}

fn read_f64(s: &str) -> Option<u64> {
    s.parse::<f64>().ok().map(|v| v.to_bits())
}

fn read_f32(s: &str) -> Option<u32> {
    s.parse::<f32>().ok().map(|v| v.to_bits())
}

fn show(b: FloatBits) -> String {
    f64::from_bits(b.0).to_string()
}

fn show3(c: Float32Bits) -> String {
    format!("{:.3}", f32::from_bits(c.0))
}

fn any_layer(_name: &str, _dir: &str) -> bool {
    true
}

fn load(entries: BTreeMap<String, String>) -> Result<norad::font::Font, FontLoadError> {
    let source = Entries(entries);
    load_font_with_source(&DataRequest::all(), &|p: &str| source.read_text(p), &|t: &str| Reader.metainfo(t), &|t: &str| Reader.font_info(t), &|t: &str| Reader.groups(t), &|t: &str| Reader.kerning(t), &any_layer, &read_f64, &read_f32)
}

#[derive(Default)]
struct Written(RefCell<BTreeMap<String, Vec<u8>>>);

impl Sink for Written {
    fn write(&self, path: &str, data: &[u8]) -> Result<(), String> {
        self.0.borrow_mut().insert(path.to_string(), data.to_vec());
        Ok(())
    }
}

#[test]
fn load_with_source_preserves_structured_feature_includes() {
    let font = load(sample_ufo_entries()).unwrap();

    assert_eq!(font.glyph_count(), 1);
    assert_eq!(font.features, FEATURES);
    assert_eq!(
        font.feature_files.iter().find(|(p, _)| p == "features/includes/shared.fea").map(|(_, t)| t.clone()),
        Some("@shared = [A];\n".to_string())
    );
    assert_eq!(
        expand_feature_text(&font.features, &font.feature_files).unwrap(),
        "languagesystem DFLT dflt;\n@shared = [A];\nfeature liga {\n    sub A A by A;\n} liga;\n"
    );
}

#[test]
fn save_with_sink_writes_structured_feature_files_and_round_trips() {
    let font = load(sample_ufo_entries()).unwrap();

    let sink = Written::default();
    let parts = SerializedParts {
        metainfo: METAINFO.as_bytes().to_vec(),
        font_info: Vec::new(),
        groups: Vec::new(),
        kerning: Vec::new(),
    };
    save_font_with_sink(&font, Vec::new(), Vec::new(), parts, &WriteOptions::default(), &show, &show3, &sink)
        .unwrap();
    let written = sink.0.into_inner();

    let features = String::from_utf8(written.get("features.fea").unwrap().clone()).unwrap();
    assert_eq!(features, FEATURES);
    let shared = String::from_utf8(written.get("features/includes/shared.fea").unwrap().clone()).unwrap();
    assert_eq!(shared, "@shared = [A];\n");

    let text_entries: BTreeMap<String, String> =
        written.into_iter().map(|(path, bytes)| (path, String::from_utf8(bytes).unwrap())).collect();
    let reloaded = load(text_entries).unwrap();

    assert_eq!(reloaded.features, font.features);
    assert_eq!(reloaded.feature_files, font.feature_files);
    assert_eq!(
        expand_feature_text(&reloaded.features, &reloaded.feature_files).unwrap(),
        expand_feature_text(&font.features, &font.feature_files).unwrap()
    );
    assert_eq!(reloaded.glyph_count(), font.glyph_count());
}

#[test]
fn load_with_source_reports_missing_glif_as_glyph_error() {
    let mut entries = sample_ufo_entries();
    entries.remove("glyphs/A_.glif");

    let err = load(entries).unwrap_err();

    let FontLoadError::Layer { source, .. } = err else {
        panic!("expected layer load error, found '{err:?}'");
    };
    let LayerLoadError::Glyph { source, .. } = source else {
        panic!("expected missing glif to surface as glyph error, found '{source:?}'");
    };
    assert!(matches!(source, GlifLoadError::Io(err) if err.kind() == std::io::ErrorKind::NotFound));
}

#[test]
fn load_with_source_refuses_what_it_cannot_load() {
    let mut entries = sample_ufo_entries();
    entries.remove("metainfo.plist");
    assert!(matches!(load(entries), Err(FontLoadError::MissingMetaInfoFile)));

    let mut entries = sample_ufo_entries();
    entries.insert("metainfo.plist".to_string(), METAINFO.replace("<integer>3</integer>", "<integer>2</integer>"));
    assert!(matches!(load(entries), Err(FontLoadError::SourceUnsupportedFormatVersion)));

    let mut entries = sample_ufo_entries();
    entries.insert(
        "lib.plist".to_string(),
        METAINFO.replace("<dict>", "<array>").replace("</dict>", "</array>").replace("<key>creator</key>", "").replace(
            "<key>formatVersion</key>",
            "",
        ),
    );
    assert!(matches!(load(entries), Err(FontLoadError::LibFileMustBeDictionary)));

    let mut entries = sample_ufo_entries();
    entries.insert("lib.plist".to_string(), "garbage".to_string());
    assert!(matches!(load(entries), Err(FontLoadError::ParsePlist { name: "lib.plist", .. })));

    let mut entries = sample_ufo_entries();
    entries.remove("layercontents.plist");
    assert!(matches!(load(entries), Err(FontLoadError::MissingLayerContentsFile)));
}

#[test]
fn data_request() {
    let source = Entries(sample_ufo_entries());
    let font =
        load_font_with_source(&DataRequest::none(), &|p: &str| source.read_text(p), &|t: &str| Reader.metainfo(t), &|t: &str| Reader.font_info(t), &|t: &str| Reader.groups(t), &|t: &str| Reader.kerning(t), &any_layer, &read_f64, &read_f32).unwrap();
    assert_eq!(font.iter_layers().len(), 1);
    assert!(font.default_layer().is_empty());
    assert!(font.lib.is_empty());
    assert!(font.groups.is_empty());
    assert!(font.kerning.is_empty());
    assert!(font.features.is_empty());
}

#[test]
fn default_layer_request_ignores_layers_option() {
    let r = DataRequest::none().default_layer(true).layers(true);
    assert!(!r.layers.should_load("background", "glyphs.background", false));
    assert!(r.layers.should_load("public.default", "glyphs", false));
    let r = DataRequest::none().layers(true);
    assert!(r.layers.should_load("background", "glyphs.background", false));
}
