use norad::error::ErrorKind;
use norad::font::Font;
use norad::glyph::drawing::PathCommand;
use norad::glyph::{Anchor, Contour, ContourPoint};
use norad::guideline::{Guideline, Line};
use norad::shared_types::FloatBits;
use norad::{Glyph, Identifier, PointType};

fn bits(v: f64) -> FloatBits {
    FloatBits(v.to_bits())
}

fn point(x: f64, y: f64, typ: PointType) -> ContourPoint {
    ContourPoint::new(bits(x), bits(y), typ, false, None, None, None)
}

fn lib_with(key: &str) -> plist::Dictionary {
    let mut d = plist::Dictionary::new();
    d.insert(key.to_string(), plist::Value::String("v".to_string()));
    d
}

#[test]
fn object_libs_get_an_identifier() {
    let mut anchor = Anchor::new(bits(1.0), bits(2.0), Some("top".to_string()), None, None, None);
    assert!(anchor.lib().is_none() && anchor.identifier().is_none());
    assert!(anchor.replace_lib(lib_with("a")).is_none());
    assert!(anchor.identifier().is_some());
    anchor.lib_mut().unwrap().insert("b".to_string(), plist::Value::Boolean(true));
    assert_eq!(anchor.lib().unwrap().len(), 2);
    let taken = anchor.take_lib().unwrap();
    assert_eq!(taken.len(), 2);
    assert!(anchor.lib().is_none());
    assert!(anchor.identifier().is_some());
    let old = anchor.replace_identifier(Identifier::new_raw("xyz"));
    assert!(old.is_some());
    assert_eq!(anchor.identifier().unwrap().as_str(), "xyz");
    assert_eq!(anchor.name.as_deref(), Some("top"));

    let mut guideline = Guideline::new(Line::Horizontal(bits(10.0)), None, None, None, None);
    assert!(guideline.lib_mut().is_none());
    guideline.replace_lib(lib_with("g"));
    assert!(guideline.lib_mut().is_some());
    assert!(guideline.identifier().is_some());
}

#[test]
fn glyphs_change_in_place() {
    let mut font = Font::new();
    font.default_layer_mut().insert_glyph(Glyph::new("a"));
    assert!(font.get_glyph_mut("b").is_none());
    font.get_glyph_mut("a").unwrap().width = bits(500.0);
    assert_eq!(font.get_glyph("a").unwrap().width, bits(500.0));
    assert_eq!(font.glyph_count(), 1);

    assert!(font.guidelines().is_empty());
    font.guidelines_mut().push(Guideline::new(Line::Vertical(bits(5.0)), None, None, None, None));
    assert_eq!(font.guidelines().len(), 1);
    assert!(font.font_info.guidelines.is_some());
}

#[test]
fn closed_contour_draws_from_its_last_on_curve_point() {
    // A closed contour whose last points are control points of its first curve.
    let contour = Contour::new(
        vec![
            point(0.0, 0.0, PointType::Curve),
            point(10.0, 0.0, PointType::Line),
            point(10.0, 10.0, PointType::OffCurve),
            point(0.0, 10.0, PointType::OffCurve),
        ],
        None,
        None,
    );
    let commands = contour.path_commands().unwrap();
    assert_eq!(
        commands,
        vec![PathCommand::MoveTo(1), PathCommand::CurveTo(2, 3, 0), PathCommand::LineTo(1)]
    );
}

#[test]
fn open_contour_with_qcurve_meets_at_midpoints() {
    let contour = Contour::new(
        vec![
            point(0.0, 0.0, PointType::Move),
            point(1.0, 1.0, PointType::OffCurve),
            point(2.0, 1.0, PointType::OffCurve),
            point(3.0, 0.0, PointType::QCurve),
        ],
        None,
        None,
    );
    assert_eq!(
        contour.path_commands().unwrap(),
        vec![PathCommand::MoveTo(0), PathCommand::QuadToMidpoint(1, 2), PathCommand::QuadTo(2, 3)]
    );
}

#[test]
fn curves_take_at_most_two_control_points() {
    let bare = Contour::new(vec![point(0.0, 0.0, PointType::Move), point(1.0, 1.0, PointType::Curve)], None, None);
    assert_eq!(bare.path_commands(), Ok(vec![PathCommand::MoveTo(0), PathCommand::LineTo(1)]));
    let crowded = Contour::new(
        vec![
            point(0.0, 0.0, PointType::Move),
            point(1.0, 1.0, PointType::OffCurve),
            point(2.0, 1.0, PointType::OffCurve),
            point(3.0, 1.0, PointType::OffCurve),
            point(4.0, 0.0, PointType::Curve),
        ],
        None,
        None,
    );
    assert_eq!(crowded.path_commands(), Err(ErrorKind::TooManyOffCurves));
    assert_eq!(Contour::new(Vec::new(), None, None).path_commands(), Ok(Vec::new()));
}

#[test]
fn closed_curve_without_control_points_is_straight() {
    let c = Contour::new(vec![point(0.0, 0.0, PointType::Line), point(100.0, 100.0, PointType::Curve)], None, None);
    assert_eq!(
        c.path_commands(),
        Ok(vec![PathCommand::MoveTo(1), PathCommand::LineTo(0), PathCommand::LineTo(1)])
    );
}
