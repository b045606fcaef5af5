use std::collections::HashMap;
use std::str::FromStr;

use norad::data_request::DataRequest;
use norad::datastore::{DataStore, DirEntry, FontSource, ImageStore};
use norad::error::StoreError;
use norad::glyph_names::{glyph_name_for_char, glyph_name_for_glyph};
use norad::{Identifier, Name, PointType};

fn all_fields_are_true(dr: &DataRequest) -> bool {
    dr.layers.all && dr.lib && dr.groups && dr.kerning && dr.features && dr.data && dr.images
}

fn all_fields_are_false(dr: &DataRequest) -> bool {
    !dr.layers.all && !dr.lib && !dr.groups && !dr.kerning && !dr.features && !dr.data && !dr.images
}

#[test]
fn test_datarequest_default() {
    assert!(all_fields_are_true(&DataRequest::default()));
}

#[test]
fn test_datarequest_all() {
    assert!(all_fields_are_true(&DataRequest::all()));
}

#[test]
fn test_datarequest_none() {
    assert!(all_fields_are_false(&DataRequest::none()));
}

#[test]
fn test_datarequest_builder() {
    let dr = DataRequest::default()
        .layers(false)
        .lib(false)
        .groups(false)
        .kerning(false)
        .features(false)
        .data(false)
        .images(false);

    assert!(all_fields_are_false(&dr));
}

#[test]
fn datastore_errors() {
    let mut store = DataStore::empty();

    assert!(matches!(store.insert(String::new(), vec![]), Err(StoreError::EmptyPath)));
    assert!(matches!(store.insert(String::from("/a"), vec![]), Err(StoreError::PathIsAbsolute)));

    store.insert(String::from("a"), vec![]).unwrap();
    assert!(matches!(
        store.insert(String::from("a/b/zzz/c.txt"), vec![]),
        Err(StoreError::DirUnderFile)
    ));
}

/// A source of files held in memory. With a root, stores built from it load lazily.
#[derive(Default)]
struct MemorySource {
    files: HashMap<String, Vec<u8>>,
    dirs: HashMap<String, Vec<DirEntry>>,
    root: Option<String>,
}

impl MemorySource {
    fn add_file(&mut self, path: &str, data: Vec<u8>) {
        self.files.insert(path.to_string(), data);
    }

    fn add_dir(&mut self, path: &str, entries: Vec<DirEntry>) {
        self.dirs.insert(path.to_string(), entries);
    }
}

impl FontSource for MemorySource {
    fn try_read(&self, path: &str) -> Option<Result<Vec<u8>, std::io::Error>> {
        self.files.get(path).cloned().map(Ok)
    }

    fn list_dir(&self, path: &str) -> Result<Vec<DirEntry>, std::io::Error> {
        self.dirs.get(path).cloned().ok_or_else(|| {
            std::io::Error::new(std::io::ErrorKind::NotFound, format!("{path:?} not found"))
        })
    }

    fn as_path(&self) -> Option<String> {
        self.root.clone()
    }
}

const UFO_DATA_IMAGE_TEST_PATH: &str = "testdata/dataimagetest.ufo";
const PATH_A: &str = "a.txt";
const PATH_B: &str = "b.bin";
const PATH_C: &str = "com.testing.random/c.txt";
const PATH_Z: &str = "com.testing.random/zzz/z.txt";
const PATH_BOGUS: &str = "non-existent";
const EXPECTED_A: &[u8] = b"Hello World";
const EXPECTED_B: &[u8] = b"\x1c\n\n~\n\x06\n\xe2\n\x96\n,\n,\n\x8c\nL\n";
const EXPECTED_C: &[u8] = b"World Hello\r\n";
const EXPECTED_Z: &[u8] = b"";

/// The data directory of the test font, as a source that sits on disk.
fn data_image_test_source() -> MemorySource {
    let mut source = MemorySource { root: Some(UFO_DATA_IMAGE_TEST_PATH.to_string()), ..Default::default() };
    source.add_dir(
        "data",
        vec![
            DirEntry::File("a.txt".into()),
            DirEntry::File("b.bin".into()),
            DirEntry::Dir("com.testing.random".into()),
        ],
    );
    source.add_dir(
        "data/com.testing.random",
        vec![DirEntry::File("c.txt".into()), DirEntry::Dir("zzz".into())],
    );
    source.add_dir("data/com.testing.random/zzz", vec![DirEntry::File("z.txt".into())]);
    source.add_file("data/a.txt", EXPECTED_A.to_vec());
    source.add_file("data/b.bin", EXPECTED_B.to_vec());
    source.add_file("data/com.testing.random/c.txt", EXPECTED_C.to_vec());
    source.add_file("data/com.testing.random/zzz/z.txt", EXPECTED_Z.to_vec());
    source
}

#[test]
fn lazy_data_loading() {
    let source = data_image_test_source();
    let mut store = DataStore::new(&source).unwrap();

    let mut paths: Vec<String> = store.keys();
    paths.sort();
    assert_eq!(paths, vec![PATH_A, PATH_B, PATH_C, PATH_Z]);

    assert_eq!(&*store.get(PATH_A, &source).unwrap().unwrap(), EXPECTED_A);
    assert_eq!(&*store.get(PATH_B, &source).unwrap().unwrap(), EXPECTED_B);
    store.insert(String::from(PATH_B), b"123".to_vec()).unwrap();
    assert_eq!(*store.get(PATH_B, &source).unwrap().unwrap(), b"123"[0..]);
    assert_eq!(&*store.get(PATH_C, &source).unwrap().unwrap(), EXPECTED_C);
    assert_eq!(&*store.get(PATH_Z, &source).unwrap().unwrap(), EXPECTED_Z);
    assert!(store.get(PATH_BOGUS, &source).is_none());
    store.remove(PATH_BOGUS);
    store.remove(PATH_B);

    let mut paths2: Vec<(String, Vec<u8>)> =
        store.iter(&source).into_iter().map(|(k, v)| (k, v.unwrap())).collect();
    paths2.sort();
    assert_eq!(
        paths2,
        vec![
            (PATH_A.to_string(), EXPECTED_A.to_vec()),
            (PATH_C.to_string(), EXPECTED_C.to_vec()),
            (PATH_Z.to_string(), EXPECTED_Z.to_vec())
        ]
    );
}

#[test]
fn store_equality() {
    let source = data_image_test_source();
    let store1 = DataStore::new(&source).unwrap();
    let store2 = DataStore::new(&source).unwrap();

    assert_eq!(store1, store2);
}

#[test]
fn data_eager_loading_from_memory_source() {
    let mut source = MemorySource::default();
    source.add_dir("data", vec![DirEntry::File("a.txt".into()), DirEntry::File("b.txt".into())]);
    source.add_file("data/a.txt", b"aaa".to_vec());
    source.add_file("data/b.txt", b"bbb".to_vec());

    let mut store = DataStore::new(&source).unwrap();

    // All items should be loaded immediately (no lazy loading).
    assert_eq!(store.len(), 2);
    assert!(!store.is_lazy());
    assert!(store.all_loaded());

    assert_eq!(&*store.get("a.txt", &source).unwrap().unwrap(), b"aaa");
    assert_eq!(&*store.get("b.txt", &source).unwrap().unwrap(), b"bbb");
}

#[test]
fn eager_load_nested_data_from_memory_source() {
    let mut source = MemorySource::default();
    source.add_dir("data", vec![DirEntry::File("top.txt".into()), DirEntry::Dir("sub".into())]);
    source.add_dir("data/sub", vec![DirEntry::File("deep.txt".into())]);
    source.add_file("data/top.txt", b"top".to_vec());
    source.add_file("data/sub/deep.txt", b"deep".to_vec());

    let mut store = DataStore::new(&source).unwrap();

    assert_eq!(store.len(), 2);
    assert_eq!(&*store.get("top.txt", &source).unwrap().unwrap(), b"top");
    assert_eq!(&*store.get("sub/deep.txt", &source).unwrap().unwrap(), b"deep");
}

/// A source made of one function that reads files; it cannot list directories.
struct ClosureSource<F>(F);

impl<F: Fn(&str) -> Option<Result<Vec<u8>, std::io::Error>>> FontSource for ClosureSource<F> {
    fn try_read(&self, path: &str) -> Option<Result<Vec<u8>, std::io::Error>> {
        (self.0)(path)
    }
}

#[test]
fn closure_source_returns_unsupported() {
    let source = ClosureSource(|_path: &str| -> Option<Result<Vec<u8>, std::io::Error>> { None });
    let result = DataStore::new(&source);
    assert!(result.is_err());
}

#[test]
fn pointtype_display_trait() {
    assert_eq!(format!("{}", PointType::Move.to_string()), "move");
    assert_eq!(format!("{}", PointType::Line.to_string()), "line");
    assert_eq!(format!("{}", PointType::OffCurve.to_string()), "offcurve");
    assert_eq!(format!("{}", PointType::Curve.to_string()), "curve");
    assert_eq!(format!("{}", PointType::QCurve.to_string()), "qcurve");
}

#[test]
fn pointtype_from_str_trait() {
    assert!(PointType::from_str("move").unwrap() == PointType::Move);
    assert!(PointType::from_str("line").unwrap() == PointType::Line);
    assert!(PointType::from_str("offcurve").unwrap() == PointType::OffCurve);
    assert!(PointType::from_str("curve").unwrap() == PointType::Curve);
    assert!(PointType::from_str("qcurve").unwrap() == PointType::QCurve);
}

#[test]
fn smoke_test() {
    assert_eq!(glyph_name_for_char('c'), Some("c"));
    assert_eq!(glyph_name_for_glyph("c"), Some("c"));
    assert_eq!(glyph_name_for_char('C'), Some("C"));
    assert_eq!(glyph_name_for_glyph("C"), Some("C"));

    assert_eq!(glyph_name_for_char('é'), Some("eacute"));
    assert_eq!(glyph_name_for_glyph("é"), Some("eacute"));

    assert_eq!(glyph_name_for_char('<'), Some("less"));
    assert_eq!(glyph_name_for_glyph("ء"), None);
}

#[test]
fn identifier_parsing() {
    let valid_chars = " !\"#$%&'()*+,-./0123456789:;<=>?@ABCDEFGHIJKLMNOPQRSTUVWXYZ[\\]^_`abcdefghijklmnopqrstuvwxyz{|}~";
    assert!(Identifier::new(valid_chars).is_ok());

    let i2 = Identifier::new("0aAä");
    assert!(i2.is_err());
    let i3 = Identifier::new("aaaaaaaaaaaaaaaaaaaaaaaaaaaaaaaaaaaaaaaaaaaaaaaaaaaaaaaaaaaaaaaaaaaaaaaaaaaaaaaaaaaaaaaaaaaaaaaaaaaaa");
    assert!(i3.is_err());
}

#[test]
fn assert_eq_str() {
    assert_eq!(Name::new_raw("hi"), "hi");
    assert_eq!("hi", Name::new_raw("hi"));
    assert_eq!(vec![Name::new_raw("a"), Name::new_raw("b")], vec!["a", "b"]);
    assert_eq!(vec!["a", "b"], vec![Name::new_raw("a"), Name::new_raw("b")]);
}

fn png_data(tail: &[u8]) -> Vec<u8> {
    let mut v = vec![137u8, 80, 78, 71, 13, 10, 26, 10];
    v.extend_from_slice(tail);
    v
}

#[test]
fn imagestore_errors() {
    let mut store = ImageStore::empty();

    assert!(matches!(store.insert(String::new(), vec![]), Err(StoreError::EmptyPath)));
    assert!(matches!(store.insert(String::from("/a"), vec![]), Err(StoreError::PathIsAbsolute)));
    assert!(matches!(store.insert(String::from("a.png"), vec![1, 2, 3]), Err(StoreError::InvalidImage)));
    assert!(matches!(
        store.insert(String::from("a/b/zzz/c.png"), vec![137u8, 80, 78, 71, 13, 10, 26, 10]),
        Err(StoreError::Subdir)
    ));
}

/// The images directory of the test font, as a source that sits on disk.
fn image_test_source() -> MemorySource {
    let mut source = MemorySource { root: Some(UFO_DATA_IMAGE_TEST_PATH.to_string()), ..Default::default() };
    source.add_dir(
        "images",
        vec![
            DirEntry::File("image1.png".into()),
            DirEntry::File("image2.png".into()),
            DirEntry::File("image3.png".into()),
        ],
    );
    source.add_file("images/image1.png", png_data(b"1"));
    source.add_file("images/image2.png", png_data(b"2"));
    source.add_file("images/image3.png", png_data(b"3"));
    source
}

#[test]
fn lazy_image_loading() {
    let source = image_test_source();
    let mut store = ImageStore::new(&source).unwrap();

    assert!(!store.is_empty());
    let mut paths: Vec<String> = store.keys();
    paths.sort();
    assert_eq!(paths, vec!["image1.png", "image2.png", "image3.png"]);

    for (_, data) in store.iter(&source) {
        assert!(data.is_ok());
    }

    let path_new_image = String::from("image4.png");
    let path_new_bytes = vec![137u8, 80, 78, 71, 13, 10, 26, 10, 1, 2, 3];
    assert!(store.get(&path_new_image, &source).is_none());
    store.insert(path_new_image.clone(), path_new_bytes.clone()).unwrap();
    assert_eq!(&*store.get(&path_new_image, &source).unwrap().unwrap(), &path_new_bytes[0..]);
    assert!(store.get(PATH_BOGUS, &source).is_none());
    store.remove(PATH_BOGUS);
    store.remove(&path_new_image);
    assert!(store.get(&path_new_image, &source).is_none());
}

#[test]
fn image_items_not_loaded_until_accessed() {
    let img1 = png_data(b"img1");
    let img2 = png_data(b"img2");
    let mut source = MemorySource { root: Some("font.ufo".to_string()), ..Default::default() };
    source.add_dir("images", vec![DirEntry::File("a.png".into()), DirEntry::File("b.png".into())]);
    source.add_file("images/a.png", img1.clone());
    source.add_file("images/b.png", img2.clone());
    let mut store = ImageStore::new(&source).unwrap();

    assert_eq!(store.len(), 2);
    assert!(store.is_lazy());
    assert!(!store.all_loaded());

    let data = store.get("a.png", &source).unwrap().unwrap();
    assert_eq!(&*data, &img1[..]);
    assert!(!store.all_loaded());
    assert_eq!(&*store.get("b.png", &source).unwrap().unwrap(), &img2[..]);
    assert!(store.all_loaded());
}

#[test]
fn image_invalid_png_returns_error_on_access() {
    let mut source = MemorySource { root: Some("font.ufo".to_string()), ..Default::default() };
    source.add_dir("images", vec![DirEntry::File("bad.png".into())]);
    source.add_file("images/bad.png", b"not a png at all".to_vec());
    let mut store = ImageStore::new(&source).unwrap();

    assert!(store.contains_key("bad.png"));

    let result = store.get("bad.png", &source).unwrap();
    assert!(matches!(result, Err(StoreError::InvalidImage)));
}

#[test]
fn image_eager_loading_from_memory_source() {
    let img = png_data(b"test");
    let mut source = MemorySource::default();
    source.add_dir("images", vec![DirEntry::File("x.png".into())]);
    source.add_file("images/x.png", img.clone());

    let mut store = ImageStore::new(&source).unwrap();

    assert_eq!(store.len(), 1);
    assert!(!store.is_lazy());
    assert!(store.all_loaded());
    assert_eq!(&*store.get("x.png", &source).unwrap().unwrap(), &img[..]);
}

#[test]
fn eager_load_invalid_image_fails_at_construction() {
    let mut source = MemorySource::default();
    source.add_dir("images", vec![DirEntry::File("bad.png".into())]);
    source.add_file("images/bad.png", b"not a png".to_vec());

    // Eager loading validates during construction, so this should fail.
    let result = ImageStore::new(&source);
    assert!(result.is_err());
}

#[test]
fn store_insert_then_read_and_remove() {
    let mut store = DataStore::empty();
    let source = MemorySource::default();
    store.insert(String::from("dir/a.txt"), b"x".to_vec()).unwrap();
    assert_eq!(&*store.get("dir/a.txt", &source).unwrap().unwrap(), b"x");
    store.insert(String::from("dir/./a.txt"), b"y".to_vec()).unwrap();
    assert_eq!(store.len(), 1);
    assert_eq!(&*store.get("dir/a.txt", &source).unwrap().unwrap(), b"y");
    store.remove("dir/a.txt");
    assert!(store.get("dir/a.txt", &source).is_none());
    assert!(!store.contains_key("dir/a.txt"));
}

#[test]
fn contains_key_does_not_trigger_load() {
    let mut source = MemorySource { root: Some("font.ufo".to_string()), ..Default::default() };
    source.add_dir("data", vec![DirEntry::File("file.txt".into())]);
    source.add_file("data/file.txt", b"data".to_vec());
    let store = DataStore::new(&source).unwrap();

    assert!(store.contains_key("file.txt"));
    assert!(!store.contains_key("nope.txt"));
    assert!(!store.all_loaded());
}

#[test]
fn iter_forces_loading_all_items() {
    let mut source = MemorySource { root: Some("font.ufo".to_string()), ..Default::default() };
    source.add_dir("data", vec![DirEntry::File("a.txt".into()), DirEntry::File("b.txt".into())]);
    source.add_file("data/a.txt", b"aaa".to_vec());
    source.add_file("data/b.txt", b"bbb".to_vec());
    let mut store = DataStore::new(&source).unwrap();

    assert!(!store.all_loaded());
    let results = store.iter(&source);
    assert_eq!(results.len(), 2);
    assert_eq!(results[0].0, "a.txt");
    assert_eq!(results[0].1.as_deref().unwrap(), b"aaa");
    assert_eq!(results[1].1.as_deref().unwrap(), b"bbb");
    assert!(store.all_loaded());
}

#[test]
fn data_error_cached_on_load_failure() {
    let mut source = MemorySource { root: Some("font.ufo".to_string()), ..Default::default() };
    source.add_dir("data", vec![DirEntry::File("ephemeral.txt".into())]);
    let mut store = DataStore::new(&source).unwrap();
    assert!(store.contains_key("ephemeral.txt"));

    assert!(matches!(store.get("ephemeral.txt", &source), Some(Err(_))));
    // The file appears later; the error that the first read met is kept.
    source.add_file("data/ephemeral.txt", b"back".to_vec());
    assert!(matches!(store.get("ephemeral.txt", &source), Some(Err(_))));
    assert!(!store.all_loaded());
}
