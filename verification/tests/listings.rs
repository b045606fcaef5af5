use norad::datastore::{found_or_missing, image_listing, item_for, take_listing, Data, DirEntry, Image, Item};
use norad::error::StoreError;

#[test]
fn image_listing_keeps_files_in_order() {
    let entries = vec![DirEntry::File("b.png".to_string()), DirEntry::File("a.png".to_string())];
    let paths = image_listing(&entries).unwrap();
    assert_eq!(paths, vec!["b.png".to_string(), "a.png".to_string()]);
}

#[test]
fn image_listing_refuses_first_subdirectory() {
    let entries = vec![
        DirEntry::File("a.png".to_string()),
        DirEntry::Dir("nested".to_string()),
        DirEntry::Dir("other".to_string()),
    ];
    let err = image_listing(&entries).unwrap_err();
    assert_eq!(err.path, "nested");
    assert!(matches!(err.source, StoreError::Subdir));
}

#[test]
fn take_listing_splits_files_and_directories() {
    let entries = vec![
        DirEntry::File("one.txt".to_string()),
        DirEntry::Dir("sub".to_string()),
        DirEntry::File("two.txt".to_string()),
    ];
    let mut queue = vec![("data/x".to_string(), "x".to_string())];
    let mut paths = vec!["first".to_string()];
    take_listing("data/x", "x", &entries, &mut queue, &mut paths);
    assert_eq!(paths, vec!["first".to_string(), "x/one.txt".to_string(), "x/two.txt".to_string()]);
    assert_eq!(
        queue,
        vec![("data/x".to_string(), "x".to_string()), ("data/x/sub".to_string(), "x/sub".to_string())]
    );
}

#[test]
fn take_listing_at_the_top_has_no_prefix() {
    let entries = vec![DirEntry::File("f.bin".to_string()), DirEntry::Dir("d".to_string())];
    let mut queue = Vec::new();
    let mut paths = Vec::new();
    take_listing("data", "", &entries, &mut queue, &mut paths);
    assert_eq!(paths, vec!["f.bin".to_string()]);
    assert_eq!(queue, vec![("data/d".to_string(), "d".to_string())]);
}

#[test]
fn item_for_loads_checks_and_reports() {
    match item_for(&Data, "a.txt", &Vec::new(), Ok(vec![1, 2, 3])) {
        Item::Loaded(d) => assert_eq!(d, vec![1, 2, 3]),
        other => panic!("unexpected {:?}", other),
    }
    assert!(matches!(item_for(&Data, "", &Vec::new(), Ok(vec![1])), Item::Error(StoreError::EmptyPath)));
    assert!(matches!(item_for(&Image, "a.png", &Vec::new(), Ok(vec![1, 2])), Item::Error(StoreError::InvalidImage)));
    let missing = std::io::Error::from(std::io::ErrorKind::NotFound);
    assert!(matches!(item_for(&Data, "a.txt", &Vec::new(), Err(missing)), Item::Error(StoreError::Io(_))));
}

#[test]
fn found_or_missing_cases() {
    assert_eq!(found_or_missing(Some(Ok(vec![7]))).unwrap(), vec![7]);
    let err = found_or_missing(None).unwrap_err();
    assert_eq!(err.kind(), std::io::ErrorKind::NotFound);
    let denied = std::io::Error::from(std::io::ErrorKind::PermissionDenied);
    assert_eq!(found_or_missing(Some(Err(denied))).unwrap_err().kind(), std::io::ErrorKind::PermissionDenied);
}
