use norad::error::{FontLoadError, FontWriteError};
use norad::non_file_io::{required_text, sink_reply, source_reply};

#[test]
fn source_reply_keeps_text_and_absence() {
    match source_reply("a.plist", Ok(Some("body".to_string()))) {
        Ok(Some(t)) => assert_eq!(t, "body"),
        other => panic!("unexpected {:?}", other),
    }
    assert!(matches!(source_reply("a.plist", Ok(None)), Ok(None)));
}

#[test]
fn source_reply_names_path_and_message() {
    match source_reply("glyphs/A_.glif", Err("denied".to_string())) {
        Err(FontLoadError::Source { path, message }) => {
            assert_eq!(path, "glyphs/A_.glif");
            assert_eq!(message, "denied");
        }
        other => panic!("unexpected {:?}", other),
    }
}

#[test]
fn required_text_cases() {
    match required_text(Ok(Some("x".to_string())), FontLoadError::MissingMetaInfoFile) {
        Ok(t) => assert_eq!(t, "x"),
        other => panic!("unexpected {:?}", other),
    }
    assert!(matches!(
        required_text(Ok(None), FontLoadError::MissingMetaInfoFile),
        Err(FontLoadError::MissingMetaInfoFile)
    ));
    let e = FontLoadError::Source { path: "p".to_string(), message: "m".to_string() };
    assert!(matches!(
        required_text(Err(e), FontLoadError::MissingLayerContentsFile),
        Err(FontLoadError::Source { .. })
    ));
}

#[test]
fn sink_reply_cases() {
    assert!(sink_reply("fontinfo.plist", Ok(())).is_ok());
    match sink_reply("fontinfo.plist", Err("full".to_string())) {
        Err(FontWriteError::Sink { path, message }) => {
            assert_eq!(path, "fontinfo.plist");
            assert_eq!(message, "full");
        }
        other => panic!("unexpected {:?}", other),
    }
}
