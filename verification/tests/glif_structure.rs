use norad::error::{ErrorKind, GlifLoadError};
use norad::glyph::GlifVersion;
use norad::Glyph;

fn read_f64(s: &str) -> Option<u64> {
    s.parse::<f64>().ok().map(|v| v.to_bits())
}

fn read_f32(s: &str) -> Option<u32> {
    s.parse::<f32>().ok().map(|v| v.to_bits())
}

fn parse(xml: &str) -> Result<Glyph, GlifLoadError> {
    Glyph::parse_raw(xml.as_bytes(), &read_f64, &read_f32)
}

#[test]
fn root_that_closes_at_once_gives_empty_glyph() {
    let g = parse("<?xml version=\"1.0\" encoding=\"UTF-8\"?>\n<!-- c --><glyph name=\"b\" format=\"1\"></glyph>").unwrap();
    assert_eq!(g.name.as_str(), "b");
    assert_eq!(g.format, GlifVersion::V2);
    assert!(g.contours.is_empty() && g.components.is_empty() && g.note.is_none());
}

#[test]
fn wrong_root_element() {
    match parse("<?xml version=\"1.0\"?><font name=\"b\" format=\"2\"></font>") {
        Err(GlifLoadError::Parse(ErrorKind::WrongFirstElement)) => {}
        other => panic!("unexpected {:?}", other),
    }
}

#[test]
fn empty_contour_and_outline_are_accepted() {
    let g = parse("<glyph name=\"b\" format=\"2\"><outline><contour></contour></outline></glyph>").unwrap();
    assert!(g.contours.is_empty());
    let g = parse("<glyph name=\"b\" format=\"2\"><outline></outline></glyph>").unwrap();
    assert!(g.contours.is_empty());
}

#[test]
fn contour_counts_its_points() {
    let g = parse(
        "<glyph name=\"b\" format=\"2\"><outline><contour><point x=\"1\" y=\"2\" type=\"line\"/><point x=\"3\" y=\"4\" type=\"line\"/></contour></outline></glyph>",
    )
    .unwrap();
    assert_eq!(g.contours.len(), 1);
    assert_eq!(g.contours[0].points.len(), 2);
}

#[test]
fn unexpected_element_in_contour() {
    match parse("<glyph name=\"b\" format=\"2\"><outline><contour><anchor x=\"1\" y=\"2\"/></contour></outline></glyph>") {
        Err(GlifLoadError::Parse(ErrorKind::UnexpectedElement)) => {}
        other => panic!("unexpected {:?}", other),
    }
}

#[test]
fn note_text_and_end_of_file() {
    let g = parse("<glyph name=\"b\" format=\"2\"><note>hello &amp; bye</note></glyph>").unwrap();
    assert_eq!(g.note.as_deref(), Some("hello & bye"));
    match parse("<glyph name=\"b\" format=\"2\"><note>hello") {
        Err(GlifLoadError::Parse(ErrorKind::UnexpectedEof)) => {}
        other => panic!("unexpected {:?}", other),
    }
}

#[test]
fn lib_not_a_dictionary() {
    match parse("<glyph name=\"b\" format=\"2\"><lib><array></array></lib></glyph>") {
        Err(GlifLoadError::Parse(ErrorKind::LibMustBeDictionary)) => {}
        other => panic!("unexpected {:?}", other),
    }
}

#[test]
fn unnamed_doctype_is_not_a_glyph() {
    match parse("<?xml version=\"1.0\"?>\n<!DOCTYPE >\n<glyph name=\"b\" format=\"2\"></glyph>") {
        Err(GlifLoadError::Parse(ErrorKind::WrongFirstElement)) => {}
        other => panic!("unexpected {:?}", other),
    }
    match parse("<glyph name=\"b\" format=\"2\"><note><!doctype></note></glyph>") {
        Ok(g) => assert!(g.note.is_none()),
        other => panic!("unexpected {:?}", other),
    }
}

#[test]
fn advance_and_unicode_give_width_height_and_code_points() {
    let g = parse(
        "<?xml version=\"1.0\" encoding=\"UTF-8\"?>\n<glyph name=\"a\" format=\"2\"><unicode hex=\"0061\"/><advance width=\"250\" height=\"-10.5\"/><unicode hex=\"0041\"/><unicode hex=\"0061\"/></glyph>",
    )
    .unwrap();
    assert_eq!(f64::from_bits(g.width.0), 250.0);
    assert_eq!(f64::from_bits(g.height.0), -10.5);
    assert_eq!(g.codepoints.len(), 2);
    assert!(g.codepoints.contains('a') && g.codepoints.contains('A'));
}
