use norad::glyph::builder::{OutlineBuilder, OutlineBuilderError};
use norad::glyph::{AffineTransform, ContourPoint};
use norad::shared_types::FloatBits;
use norad::{Identifier, Name, PointType};
use std::str::FromStr;

fn bits(v: f64) -> FloatBits {
    FloatBits(v.to_bits())
}

fn same_point(a: &ContourPoint, x: f64, y: f64, typ: PointType, id: Option<&str>) -> bool {
    a.x == bits(x)
        && a.y == bits(y)
        && a.typ == typ
        && !a.smooth
        && a.name.is_none()
        && a.object_lib.identifier().map(|i| i.as_str().to_string()) == id.map(|s| s.to_string())
        && a.object_lib.lib().is_none()
}

#[test]
fn builder_basic() -> Result<(), OutlineBuilderError> {
    let mut outline_builder = OutlineBuilder::new();
    outline_builder
        .begin_path(Some(Identifier::new_raw("abc")))?
        .add_point(bits(173.0), bits(536.0), PointType::Line, false, None, None)?
        .add_point(bits(85.0), bits(536.0), PointType::Line, false, None, None)?
        .add_point(bits(85.0), bits(0.0), PointType::Line, false, None, None)?
        .add_point(bits(173.0), bits(0.0), PointType::Line, false, None, Some(Identifier::new_raw("def")))?
        .end_path()?
        .add_component(Name::new_raw("hallo"), AffineTransform::default(), Some(Identifier::new_raw("xyz")));
    let (contours, components) = outline_builder.finish()?;

    assert_eq!(contours.len(), 1);
    let contour = &contours[0];
    assert_eq!(contour.object_lib.identifier().map(|i| i.as_str()), Some("abc"));
    assert!(contour.object_lib.lib().is_none());
    assert_eq!(contour.points.len(), 4);
    assert!(same_point(&contour.points[0], 173.0, 536.0, PointType::Line, None));
    assert!(same_point(&contour.points[1], 85.0, 536.0, PointType::Line, None));
    assert!(same_point(&contour.points[2], 85.0, 0.0, PointType::Line, None));
    assert!(same_point(&contour.points[3], 173.0, 0.0, PointType::Line, Some("def")));

    assert_eq!(components.len(), 1);
    let component = &components[0];
    assert_eq!(component.base.as_str(), "hallo");
    assert_eq!(
        component.transform,
        AffineTransform {
            x_scale: bits(1.0),
            xy_scale: bits(0.0),
            yx_scale: bits(0.0),
            y_scale: bits(1.0),
            x_offset: bits(0.0),
            y_offset: bits(0.0),
        }
    );
    assert_eq!(component.object_lib.identifier().map(|i| i.as_str()), Some("xyz"));

    Ok(())
}

#[test]
#[should_panic(expected = "UnfinishedDrawing")]
fn builder_outline_builder_unfinished_drawing() {
    let mut outline_builder = OutlineBuilder::new();
    outline_builder.begin_path(Some(Identifier::new_raw("abc"))).unwrap();
    outline_builder.finish().unwrap();
}

#[test]
#[should_panic(expected = "UnfinishedDrawing")]
fn builder_outline_builder_unfinished_drawing2() {
    OutlineBuilder::new().begin_path(Some(Identifier::new_raw("abc"))).unwrap().begin_path(None).unwrap();
}

#[test]
#[should_panic(expected = "UnfinishedDrawing")]
fn builder2_outline_builder_unfinished_drawing() {
    let mut outline_builder = OutlineBuilder::new();
    outline_builder.begin_path(Some(Identifier::new("abc").unwrap())).unwrap();
    outline_builder.finish().unwrap();
}

#[test]
#[should_panic(expected = "UnfinishedDrawing")]
fn builder2_outline_builder_unfinished_drawing2() {
    OutlineBuilder::new().begin_path(Some(Identifier::new("abc").unwrap())).unwrap().begin_path(None).unwrap();
}

#[test]
fn point_sequence_errors_leave_the_builder_usable() {
    let mut builder = OutlineBuilder::new();
    assert_eq!(
        builder.add_point(bits(0.0), bits(0.0), PointType::Line, false, None, None).err(),
        Some(OutlineBuilderError::PenPathNotStarted)
    );
    assert_eq!(builder.end_path().err(), Some(OutlineBuilderError::PenPathNotStarted));
    builder.begin_path(None).unwrap();
    builder.add_point(bits(0.0), bits(0.0), PointType::Move, false, None, None).unwrap();
    assert_eq!(
        builder.add_point(bits(1.0), bits(0.0), PointType::Move, false, None, None).err(),
        Some(OutlineBuilderError::UnexpectedMove)
    );
    assert_eq!(
        builder.add_point(bits(1.0), bits(0.0), PointType::OffCurve, true, None, None).err(),
        Some(OutlineBuilderError::UnexpectedSmooth)
    );
    builder.add_point(bits(1.0), bits(1.0), PointType::OffCurve, false, None, None).unwrap();
    assert_eq!(
        builder.add_point(bits(2.0), bits(2.0), PointType::Line, false, None, None).err(),
        Some(OutlineBuilderError::UnexpectedPointAfterOffCurve)
    );
    builder.add_point(bits(2.0), bits(2.0), PointType::OffCurve, false, None, None).unwrap();
    builder.add_point(bits(3.0), bits(3.0), PointType::OffCurve, false, None, None).unwrap();
    assert_eq!(
        builder.add_point(bits(4.0), bits(4.0), PointType::Curve, false, None, None).err(),
        Some(OutlineBuilderError::TooManyOffCurves)
    );
    // An open contour may not end on off-curve points.
    assert_eq!(builder.end_path().err(), Some(OutlineBuilderError::TrailingOffCurves));
}

#[test]
#[should_panic(expected = "UnknownPointType")]
fn pointtype_from_str_unknown_type() {
    PointType::from_str("bogus").unwrap();
}
