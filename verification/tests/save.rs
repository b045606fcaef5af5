use std::cell::RefCell;

use norad::error::{FontWriteError, StoreError};
use norad::font::{Font, FormatVersion};
use norad::non_file_io::{save_font_files, sink_reply, SerializedParts};
use norad::shared_types::{Color, Float32Bits, FloatBits};
use norad::write::WriteOptions;
use norad::Glyph;

trait Sink {
    fn write(&self, path: &str, data: &[u8]) -> Result<(), String>;
}

fn save_font_with_sink<K: Sink>(
    font: &Font,
    data: Vec<(String, Result<Vec<u8>, StoreError>)>,
    images: Vec<(String, Result<Vec<u8>, StoreError>)>,
    parts: SerializedParts,
    opts: &WriteOptions,
    show: &dyn Fn(FloatBits) -> String,
    show3: &dyn Fn(Float32Bits) -> String,
    sink: &K,
) -> Result<(), FontWriteError> {
    let files = save_font_files(font, data, images, parts, opts, &show, &show3)?;
    for (path, bytes) in files {
        sink_reply(&path, sink.write(&path, &bytes))?;
    }
    Ok(())
}

fn show(b: FloatBits) -> String {
    f64::from_bits(b.0).to_string()
}

fn show3(c: Float32Bits) -> String {
    format!("{:.3}", f32::from_bits(c.0))
}

#[derive(Default)]
struct Recorder(RefCell<Vec<(String, Vec<u8>)>>);

impl Sink for Recorder {
    fn write(&self, path: &str, data: &[u8]) -> Result<(), String> {
        self.0.borrow_mut().push((path.to_string(), data.to_vec()));
        Ok(())
    }
}

struct Refusing;

impl Sink for Refusing {
    fn write(&self, _path: &str, _data: &[u8]) -> Result<(), String> {
        Err("disk full".to_string())
    }
}

fn parts() -> SerializedParts {
    SerializedParts {
        metainfo: b"META".to_vec(),
        font_info: b"INFO".to_vec(),
        groups: b"GROUPS".to_vec(),
        kerning: b"KERNING".to_vec(),
    }
}

fn text(bytes: &[u8]) -> String {
    String::from_utf8(bytes.to_vec()).unwrap()
}

#[test]
fn save_writes_files_in_order() {
    let mut font = Font::new();
    font.default_layer_mut().insert_glyph(Glyph::new("A"));
    font.features = "feature liga {\r\n} liga;\r\n".to_string();
    font.feature_files = vec![("features/shared.fea".to_string(), "@a = [A];\r\n".to_string())];
    let data = vec![("notes.txt".to_string(), Ok(b"hi".to_vec()))];
    let sink = Recorder::default();
    save_font_with_sink(&font, data, Vec::new(), parts(), &WriteOptions::default(), &show, &show3, &sink).unwrap();
    let written = sink.0.into_inner();
    let paths: Vec<&str> = written.iter().map(|(p, _)| p.as_str()).collect();
    assert_eq!(
        paths,
        vec![
            "metainfo.plist",
            "features.fea",
            "features/shared.fea",
            "layercontents.plist",
            "glyphs/contents.plist",
            "glyphs/A_.glif",
            "data/notes.txt",
        ]
    );
    assert_eq!(written[0].1, b"META".to_vec());
    assert_eq!(text(&written[1].1), "feature liga {\n} liga;\n");
    assert_eq!(text(&written[2].1), "@a = [A];\n");
    let layercontents = text(&written[3].1);
    assert!(layercontents.contains("<string>public.default</string>"));
    assert!(layercontents.contains("<string>glyphs</string>"));
    let contents = text(&written[4].1);
    assert!(contents.contains("<key>A</key>"));
    assert!(contents.contains("<string>A_.glif</string>"));
    assert!(text(&written[5].1).contains("<glyph name=\"A\" format=\"2\">"));
    assert_eq!(written[6].1, b"hi".to_vec());
}

#[test]
fn save_writes_optional_files_where_there_is_content() {
    let mut font = Font::new();
    font.font_info.family_name = Some("Fam".to_string());
    font.lib.insert("com.example.key".to_string(), plist::Value::String("v".to_string()));
    font.groups = vec![(norad::Name::new_raw("public.kern1.A"), vec![norad::Name::new_raw("A")])];
    font.kerning = vec![(norad::Name::new_raw("A"), vec![(norad::Name::new_raw("B"), FloatBits((-10.0f64).to_bits()))])];
    font.default_layer_mut().color = Some(Color {
        red: Float32Bits(1.0f32.to_bits()),
        green: Float32Bits(0.0f32.to_bits()),
        blue: Float32Bits(0.0f32.to_bits()),
        alpha: Float32Bits(1.0f32.to_bits()),
    });
    let images = vec![("a.png".to_string(), Ok(vec![0x89, b'P', b'N', b'G']))];
    let sink = Recorder::default();
    save_font_with_sink(&font, Vec::new(), images, parts(), &WriteOptions::default(), &show, &show3, &sink).unwrap();
    let written = sink.0.into_inner();
    let paths: Vec<&str> = written.iter().map(|(p, _)| p.as_str()).collect();
    assert_eq!(
        paths,
        vec![
            "metainfo.plist",
            "fontinfo.plist",
            "lib.plist",
            "groups.plist",
            "kerning.plist",
            "layercontents.plist",
            "glyphs/contents.plist",
            "glyphs/layerinfo.plist",
            "images/a.png",
        ]
    );
    assert_eq!(written[1].1, b"INFO".to_vec());
    assert!(text(&written[2].1).contains("<key>com.example.key</key>"));
    assert_eq!(written[3].1, b"GROUPS".to_vec());
    assert_eq!(written[4].1, b"KERNING".to_vec());
    let layerinfo = text(&written[7].1);
    assert!(layerinfo.contains("<key>color</key>"));
    assert!(layerinfo.contains("<string>1,0,0,1</string>"));
}

#[test]
fn save_refuses_before_writing_anything() {
    let mut font = Font::new();
    font.lib.insert("public.objectLibs".to_string(), plist::Value::Dictionary(plist::Dictionary::new()));
    let sink = Recorder::default();
    let res = save_font_with_sink(&font, Vec::new(), Vec::new(), parts(), &WriteOptions::default(), &show, &show3, &sink);
    assert!(matches!(res, Err(FontWriteError::PreexistingPublicObjectLibsKey)));
    assert!(sink.0.into_inner().is_empty());

    let font = Font::new();
    let data = vec![("broken".to_string(), Err(StoreError::EmptyPath))];
    let sink = Recorder::default();
    let res = save_font_with_sink(&font, data, Vec::new(), parts(), &WriteOptions::default(), &show, &show3, &sink);
    assert!(matches!(res, Err(FontWriteError::InvalidStoreEntry { .. })));
    assert!(sink.0.into_inner().is_empty());
}

#[test]
fn save_reports_the_sink_failure_with_its_path() {
    let font = Font::new();
    let res = save_font_with_sink(&font, Vec::new(), Vec::new(), parts(), &WriteOptions::default(), &show, &show3, &Refusing);
    match res {
        Err(FontWriteError::Sink { path, message }) => {
            assert_eq!(path, "metainfo.plist");
            assert_eq!(message, "disk full");
        },
        other => panic!("unexpected {:?}", other),
    }
}

#[test]
fn downgrade_unsupported() {
    let mut font = Font::new();
    font.meta.format_version = FormatVersion::V1;
    assert!(save_font_files(&font, Vec::new(), Vec::new(), parts(), &WriteOptions::default(), &show, &show3).is_err());
    font.meta.format_version = FormatVersion::V2;
    assert!(save_font_files(&font, Vec::new(), Vec::new(), parts(), &WriteOptions::default(), &show, &show3).is_err());
    font.meta.format_version = FormatVersion::V3;
    assert!(save_font_files(&font, Vec::new(), Vec::new(), parts(), &WriteOptions::default(), &show, &show3).is_ok());
}
