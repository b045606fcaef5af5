use norad::error::{ErrorKind, GlifLoadError};
use norad::glyph::GlifVersion;
use norad::guideline::Line;
use norad::shared_types::FloatBits;
use norad::{Glyph, PointType};

fn read_f64(s: &str) -> Option<u64> {
    s.parse::<f64>().ok().map(|v| v.to_bits())
}

fn read_f32(s: &str) -> Option<u32> {
    s.parse::<f32>().ok().map(|v| v.to_bits())
}

fn parse_glyph(xml: &[u8]) -> Result<Glyph, GlifLoadError> {
    Glyph::parse_raw(xml, &read_f64, &read_f32)
}

fn bits(v: f64) -> FloatBits {
    FloatBits(v.to_bits())
}

#[test]
fn parse_format_minor() {
    let data = r#"
 <?xml version="1.0" encoding="UTF-8"?>
 <glyph name="a" format="2" formatMinor="0">
 </glyph>
     "#
    .trim();
    // if this doesn't panic life is okay
    parse_glyph(data.as_bytes()).unwrap();
}

#[test]
#[should_panic(expected = "UnsupportedGlifVersion")]
fn parse_format_unsupported_major() {
    let data = r#"
 <?xml version="1.0" encoding="UTF-8"?>
 <glyph name="a" format="3">
 </glyph>
     "#
    .trim();
    let _ = parse_glyph(data.as_bytes()).unwrap();
}

#[test]
#[should_panic(expected = "MissingClose")]
fn missing_close() {
    let data = r#"
<?xml version="1.0" encoding="UTF-8"?>
<glyph name="period" format="2">
  <advance width="268"/>
  <unicode hex="002E"/>
  <outline>
    <contour>
      <point x="237" y="152"/>
      <point x="193" y="187"/>
    </contour>
  </outline>
"#;
    let _ = parse_glyph(data.as_bytes()).unwrap();
}

#[test]
#[should_panic(expected = "DuplicateElement")]
fn duplicate_outline() {
    let data = r#"
<?xml version="1.0" encoding="UTF-8"?>
<glyph name="period" format="2">
  <outline>
  </outline>
  <outline/>
</glyph>
"#;
    let _ = parse_glyph(data.as_bytes()).unwrap();
}

#[test]
#[should_panic(expected = "ComponentMissingBase")]
fn component_missing_base() {
    let data = r#"
<?xml version="1.0" encoding="UTF-8"?>
<glyph name="period" format="2">
  <outline>
    <component/>
  </outline>
</glyph>
"#;
    let _ = parse_glyph(data.as_bytes()).unwrap();
}

#[test]
#[should_panic(expected = "ComponentEmptyBase")]
fn component_empty_base() {
    let data = r#"
<?xml version="1.0" encoding="UTF-8"?>
<glyph name="period" format="2">
  <outline>
    <component base=""/>
  </outline>
</glyph>
"#;
    let _ = parse_glyph(data.as_bytes()).unwrap();
}

#[test]
#[should_panic(expected = "BadAngle")]
fn bad_angle() {
    let data = r#"
<?xml version="1.0" encoding="UTF-8"?>
<glyph name="period" format="2">
  <guideline x="1" y="2" angle="-10"/>
</glyph>
"#;
    let _ = parse_glyph(data.as_bytes()).unwrap();
}

#[test]
#[should_panic(expected = "LibMustBeDictionary")]
fn lib_must_be_dict() {
    let data = r#"
<?xml version="1.0" encoding="UTF-8"?>
<glyph name="period" format="2">
    <lib>
        <string>I am a creative professional :)</string>
    </lib>
</glyph>
"#;
    let _ = parse_glyph(data.as_bytes()).unwrap();
}

#[test]
#[should_panic(expected = "PublicObjectLibsMustBeDictionary")]
fn public_object_libs_must_be_dict() {
    let data = r#"
<?xml version="1.0" encoding="UTF-8"?>
<glyph name="period" format="2">
    <lib>
        <dict>
            <key>public.objectLibs</key>
            <string>0,1,0,0.5</string>
        </dict>
    </lib>
</glyph>
"#;
    let _ = parse_glyph(data.as_bytes()).unwrap();
}

#[test]
#[should_panic(expected = "ObjectLibMustBeDictionary")]
fn object_lib_must_be_dict() {
    let data = r#"
<?xml version="1.0" encoding="UTF-8"?>
<glyph name="period" format="2">
	<anchor name="top" x="74" y="197" identifier="KN3WZjorob"/>
    <lib>
        <dict>
            <key>public.objectLibs</key>
            <dict>
                <key>KN3WZjorob</key>
                <string>0,1,0,0.5</string>
            </dict>
        </dict>
    </lib>
</glyph>
"#;
    let _ = parse_glyph(data.as_bytes()).unwrap();
}

#[test]
fn if_no_one_uses_your_lib_is_it_broken() {
    let data = r#"
<?xml version="1.0" encoding="UTF-8"?>
<glyph name="period" format="2">
    <lib>
        <dict>
            <key>public.objectLibs</key>
            <dict>
                <key>KN3WZjorob</key>
                <string>0,1,0,0.5</string>
            </dict>
        </dict>
    </lib>
</glyph>
"#;
    let glyph = parse_glyph(data.as_bytes()).unwrap();
    assert!(glyph.lib.get("public.objectLibs").is_none());
}

#[test]
#[should_panic(expected = "UnexpectedMove")]
fn unexpected_move() {
    let data = r#"
        <?xml version="1.0" encoding="UTF-8"?>
        <glyph name="period" format="2">
            <advance width="268"/>
            <unicode hex="002E"/>
            <outline>
                <contour>
                    <point x="237" y="152"/>
                    <point x="193" y="187" type="move"/>
                </contour>
            </outline>
        </glyph>
"#;
    let _ = parse_glyph(data.as_bytes()).unwrap();
}

#[test]
#[should_panic(expected = "UnexpectedSmooth")]
fn unexpected_smooth() {
    let data = r#"
        <?xml version="1.0" encoding="UTF-8"?>
        <glyph name="period" format="2">
            <advance width="268"/>
            <unicode hex="002E"/>
            <outline>
                    <contour>
                        <point x="193" y="187" smooth="yes"/>
                    </contour>
            </outline>
        </glyph>
  "#;
    let _ = parse_glyph(data.as_bytes()).unwrap();
}

#[test]
fn zero_to_two_offcurves_before_curve() {
    let data1 = r#"
        <?xml version="1.0" encoding="UTF-8"?>
        <glyph name="test" format="2">
            <outline>
                <contour>
                    <point x="0" y="0" type="line"/>
                    <point x="100" y="100" type="curve"/>
                </contour>
            </outline>
        </glyph>
    "#;
    let data2 = r#"
        <?xml version="1.0" encoding="UTF-8"?>
        <glyph name="test" format="2">
            <outline>
                <contour>
                    <point x="0" y="0" type="line"/>
                    <point x="50" y="50"/>
                    <point x="100" y="100" type="curve"/>
                </contour>
            </outline>
        </glyph>
    "#;
    let data3 = r#"
        <?xml version="1.0" encoding="UTF-8"?>
        <glyph name="test" format="2">
            <outline>
                <contour>
                    <point x="0" y="0" type="line"/>
                    <point x="33" y="33"/>
                    <point x="66" y="66"/>
                    <point x="100" y="100" type="curve"/>
                </contour>
            </outline>
        </glyph>
    "#;
    let data4 = r#"
        <?xml version="1.0" encoding="UTF-8"?>
        <glyph name="test" format="2">
            <outline>
                <contour>
                    <point x="100" y="100" type="curve"/>
                    <point x="0" y="0" type="line"/>
                    <point x="33" y="33"/>
                    <point x="66" y="66"/>
                </contour>
            </outline>
        </glyph>
    "#;
    let _ = parse_glyph(data1.as_bytes()).unwrap();
    let _ = parse_glyph(data2.as_bytes()).unwrap();
    let _ = parse_glyph(data3.as_bytes()).unwrap();
    let _ = parse_glyph(data4.as_bytes()).unwrap();
}

#[test]
fn valid_offcurves() {
    let data1 = r#"
        <?xml version="1.0" encoding="UTF-8"?>
        <glyph name="test" format="2">
            <outline>
                <contour>
                    <point x="0" y="0"/>
                </contour>
            </outline>
        </glyph>
    "#;
    let data2 = r#"
        <?xml version="1.0" encoding="UTF-8"?>
        <glyph name="test" format="2">
            <outline>
                <contour>
                    <point x="0" y="0"/>
                    <point x="100" y="100"/>
                </contour>
            </outline>
        </glyph>
    "#;
    let data3 = r#"
        <?xml version="1.0" encoding="UTF-8"?>
        <glyph name="test" format="2">
            <outline>
                <contour>
                    <point x="0" y="0"/>
                    <point x="50" y="25"/>
                    <point x="100" y="100"/>
                </contour>
            </outline>
        </glyph>
    "#;
    let data4 = r#"
        <?xml version="1.0" encoding="UTF-8"?>
        <glyph name="test" format="2">
            <outline>
                <contour>
                    <point x="0" y="0"/>
                    <point x="50" y="25" type="curve"/>
                    <point x="100" y="100"/>
                </contour>
            </outline>
        </glyph>
    "#;
    let _ = parse_glyph(data1.as_bytes()).unwrap();
    let _ = parse_glyph(data2.as_bytes()).unwrap();
    let _ = parse_glyph(data3.as_bytes()).unwrap();
    let _ = parse_glyph(data4.as_bytes()).unwrap();
}

#[test]
#[should_panic(expected = "TrailingOffCurves")]
fn trailing_off_curves() {
    let data = r#"
        <?xml version="1.0" encoding="UTF-8"?>
        <glyph name="test" format="2">
            <outline>
                <contour>
                    <point x="0" y="0" type="move"/>
                    <point x="50" y="25"/>
                    <point x="100" y="100"/>
                </contour>
            </outline>
        </glyph>
    "#;
    let _ = parse_glyph(data.as_bytes()).unwrap();
}

#[test]
#[should_panic(expected = "TooManyOffCurves")]
fn too_many_off_curves() {
    let data = r#"
        <?xml version="1.0" encoding="UTF-8"?>
        <glyph name="test" format="2">
            <outline>
                <contour>
                    <point x="0" y="0" type="line"/>
                    <point x="33" y="33"/>
                    <point x="66" y="66"/>
                    <point x="77" y="77"/>
                    <point x="100" y="100" type="curve"/>
                </contour>
            </outline>
        </glyph>
    "#;
    let _ = parse_glyph(data.as_bytes()).unwrap();
}

#[test]
#[should_panic(expected = "UnexpectedPointAfterOffCurve")]
fn unexpected_line_after_offcurve1() {
    let data = r#"
        <?xml version="1.0" encoding="UTF-8"?>
        <glyph name="test" format="2">
            <outline>
                <contour>
                    <point x="1" y="1" type="line"/>
                    <point x="33" y="33"/>
                    <point x="0" y="0" type="line"/>
                </contour>
            </outline>
        </glyph>
    "#;
    let _ = parse_glyph(data.as_bytes()).unwrap();
}

#[test]
#[should_panic(expected = "UnexpectedPointAfterOffCurve")]
fn unexpected_line_after_offcurve2() {
    let data = r#"
        <?xml version="1.0" encoding="UTF-8"?>
        <glyph name="test" format="2">
            <outline>
                <contour>
                    <point x="301" y="714" type="line" smooth="yes"/>
                    <point x="572" y="537" type="curve" smooth="yes"/>
                    <point x="572" y="667"/>
                    <point x="479" y="714"/>
                </contour>
            </outline>
        </glyph>
    "#;
    let _ = parse_glyph(data.as_bytes()).unwrap();
}

#[test]
#[should_panic(expected = "InvalidName")]
fn invalid_name() {
    let data = "
        <?xml version=\"1.0\" encoding=\"UTF-8\"?>
        <glyph name=\"\x01\" format=\"2\">
            <outline>
                <contour>
                    <point x=\"572\" y=\"667\"/>
                    <point x=\"479\" y=\"714\"/>
                </contour>
            </outline>
        </glyph>
    ";
    let _ = parse_glyph(data.as_bytes()).unwrap();
}

#[test]
#[should_panic(expected = "UnexpectedPointAfterOffCurve")]
fn unexpected_line_after_offcurve3() {
    let data = r#"
        <?xml version="1.0" encoding="UTF-8"?>
        <glyph name="test" format="2">
            <outline>
                <contour>
                    <point x="479" y="714"/>
                    <point x="301" y="714" type="line" smooth="yes"/>
                    <point x="572" y="537" type="curve" smooth="yes"/>
                    <point x="572" y="667"/>
                </contour>
            </outline>
        </glyph>
    "#;
    let _ = parse_glyph(data.as_bytes()).unwrap();
}

#[test]
fn empty_outlines() {
    let data1 = r#"
        <?xml version="1.0" encoding="UTF-8"?>
        <glyph name="test" format="2">
            <outline>
            </outline>
        </glyph>
        "#;
    let data2 = r#"
        <?xml version="1.0" encoding="UTF-8"?>
        <glyph name="test" format="2">
            <outline/>
        </glyph>
        "#;
    let test1 = parse_glyph(data1.as_bytes()).unwrap();
    assert_eq!(test1.components.len(), 0);
    assert_eq!(test1.contours.len(), 0);
    let test2 = parse_glyph(data2.as_bytes()).unwrap();
    assert_eq!(test2.components.len(), 0);
    assert_eq!(test2.contours.len(), 0);
}

#[test]
fn empty_contours() {
    let data1 = r#"
        <?xml version="1.0" encoding="UTF-8"?>
        <glyph name="test" format="2">
            <outline>
                <contour>
                </contour>
                <contour identifier="aaa">
                </contour>
            </outline>
        </glyph>
        "#;
    let data2 = r#"
        <?xml version="1.0" encoding="UTF-8"?>
        <glyph name="test" format="2">
            <outline>
                <contour/>
                <contour identifier="bbb"/>
            </outline>
        </glyph>
        "#;
    let test1 = parse_glyph(data1.as_bytes()).unwrap();
    assert_eq!(test1.components.len(), 0);
    assert_eq!(test1.contours.len(), 0);
    let test2 = parse_glyph(data2.as_bytes()).unwrap();
    assert_eq!(test2.components.len(), 0);
    assert_eq!(test2.contours.len(), 0);
}

const PERIOD: &str = r#"<?xml version="1.0" encoding="UTF-8"?>
<glyph name="period" format="2">
  <advance width="268" height="10"/>
  <unicode hex="002E"/>
  <unicode hex="002e"/>
  <unicode hex="2024"/>
  <anchor x="74" y="197" name="top" color="1,0,0,0.5" identifier="anchor1"/>
  <guideline x="10" name="left"/>
  <guideline y="20"/>
  <guideline x="1" y="2" angle="45"/>
  <image fileName="period sketch.png" xScale="0.5" color="0,1,0,1"/>
  <outline>
    <contour identifier="c1">
      <point x="237" y="152" type="line" name="p" identifier="pt1"/>
      <point x="193" y="187" type="curve" smooth="yes"/>
    </contour>
    <component base="A" xOffset="12.5"/>
  </outline>
  <lib>
    <dict>
      <key>com.example</key>
      <string>value &amp; more</string>
      <key>public.objectLibs</key>
      <dict>
        <key>anchor1</key>
        <dict>
          <key>k</key>
          <string>v</string>
        </dict>
      </dict>
    </dict>
  </lib>
  <note>A &lt;note&gt;</note>
</glyph>
"#;

#[test]
fn parse_full_glyph_from_text() {
    let glyph = parse_glyph(PERIOD.as_bytes()).unwrap();
    assert_eq!(glyph.name().as_str(), "period");
    assert_eq!(glyph.format, GlifVersion::V2);
    assert_eq!(glyph.width, bits(268.0));
    assert_eq!(glyph.height, bits(10.0));
    assert_eq!(glyph.codepoints.iter(), vec!['.', '\u{2024}']);
    assert_eq!(glyph.anchors.len(), 1);
    assert_eq!(glyph.anchors[0].x, bits(74.0));
    assert_eq!(glyph.anchors[0].name.as_deref(), Some("top"));
    assert!(glyph.anchors[0].object_lib.lib().is_some());
    assert_eq!(glyph.guidelines.len(), 3);
    assert_eq!(glyph.guidelines[0].line, Line::Vertical(bits(10.0)));
    assert_eq!(glyph.guidelines[1].line, Line::Horizontal(bits(20.0)));
    assert_eq!(
        glyph.guidelines[2].line,
        Line::Angle { x: bits(1.0), y: bits(2.0), degrees: bits(45.0) }
    );
    let image = glyph.image.as_ref().unwrap();
    assert_eq!(image.file_name(), "period sketch.png");
    assert_eq!(image.transform.x_scale, bits(0.5));
    assert_eq!(glyph.contours.len(), 1);
    assert_eq!(glyph.contours[0].points.len(), 2);
    assert_eq!(glyph.contours[0].points[0].typ, PointType::Line);
    assert_eq!(glyph.contours[0].points[1].typ, PointType::Curve);
    assert!(glyph.contours[0].points[1].smooth);
    assert_eq!(glyph.contours[0].object_lib.identifier().unwrap().as_str(), "c1");
    assert_eq!(glyph.components.len(), 1);
    assert_eq!(glyph.components[0].base.as_str(), "A");
    assert_eq!(glyph.components[0].transform.x_offset, bits(12.5));
    assert!(glyph.lib.get("public.objectLibs").is_none());
    assert_eq!(glyph.lib.get("com.example").and_then(|v| v.as_string()), Some("value & more"));
    assert_eq!(glyph.note.as_deref(), Some("A <note>"));
}

#[test]
fn parse_v1_anchor_upgrade() {
    let data = r#"<?xml version="1.0" encoding="UTF-8"?>
<glyph name="a" format="1">
  <outline>
    <contour>
      <point x="10" y="20" type="move" name="top"/>
    </contour>
    <contour>
      <point x="0" y="0" type="move"/>
      <point x="10" y="0" type="line"/>
    </contour>
  </outline>
</glyph>
"#;
    let glyph = parse_glyph(data.as_bytes()).unwrap();
    assert_eq!(glyph.format, GlifVersion::V2);
    assert_eq!(glyph.anchors.len(), 1);
    assert_eq!(glyph.anchors[0].x, bits(10.0));
    assert_eq!(glyph.anchors[0].name.as_deref(), Some("top"));
    assert_eq!(glyph.contours.len(), 1);
}

#[test]
fn v1_rejects_anchor_elements_and_identifiers() {
    let anchor = r#"<glyph name="a" format="1"><anchor x="1" y="2"/></glyph>"#;
    assert!(matches!(
        parse_glyph(anchor.as_bytes()),
        Err(GlifLoadError::Parse(ErrorKind::UnexpectedV1Element("anchor")))
    ));
    let contour = r#"<glyph name="a" format="1"><outline><contour identifier="x"></contour></outline></glyph>"#;
    assert!(matches!(
        parse_glyph(contour.as_bytes()),
        Err(GlifLoadError::Parse(ErrorKind::UnexpectedAttribute))
    ));
}

#[test]
fn duplicate_identifiers_are_refused() {
    let data = r#"<glyph name="a" format="2">
  <anchor x="1" y="2" identifier="same"/>
  <guideline x="1" identifier="same"/>
</glyph>"#;
    assert!(matches!(
        parse_glyph(data.as_bytes()),
        Err(GlifLoadError::Parse(ErrorKind::DuplicateIdentifier))
    ));
}

#[test]
fn attribute_errors_are_reported_by_kind() {
    let cases: Vec<(&str, ErrorKind)> = vec![
        (r#"<glyph name="a" format="2"><anchor x="1"/></glyph>"#, ErrorKind::BadAnchor),
        (r#"<glyph name="a" format="2"><anchor x="z" y="1"/></glyph>"#, ErrorKind::BadNumber),
        (r#"<glyph name="a" format="2"><anchor x="1" y="1" color="1,0,0"/></glyph>"#, ErrorKind::BadColor),
        (r#"<glyph name="a" format="2"><anchor x="1" y="1" color="1,0,0,2"/></glyph>"#, ErrorKind::BadColor),
        (r#"<glyph name="a" format="2"><anchor x="1" y="1" foo="1"/></glyph>"#, ErrorKind::UnexpectedAnchorField),
        (r#"<glyph name="a" format="2"><guideline x="1" y="1"/></glyph>"#, ErrorKind::BadGuideline),
        (r#"<glyph name="a" format="2"><guideline x="1" y="1" angle="360.5"/></glyph>"#, ErrorKind::BadAngle),
        (r#"<glyph name="a" format="2"><image/></glyph>"#, ErrorKind::BadImage),
        (r#"<glyph name="a" format="2"><image fileName="a/b.png"/></glyph>"#, ErrorKind::BadImage),
        (r#"<glyph name="a" format="2"><unicode hex="zz"/></glyph>"#, ErrorKind::BadHexValue),
        (r#"<glyph name="a" format="2"><unicode hex="D800"/></glyph>"#, ErrorKind::BadHexValue),
        (r#"<glyph name="a" format="2"><advance depth="1"/></glyph>"#, ErrorKind::UnexpectedAttribute),
        (r#"<glyph name="a" format="2"><outline><contour><point x="1"/></contour></outline></glyph>"#, ErrorKind::BadPoint),
        (r#"<glyph name="a" format="2"><outline><contour><point x="1" y="1" type="bogus"/></contour></outline></glyph>"#, ErrorKind::UnknownPointType),
        (r#"<glyph name="a" format="2"><outline><contour><point x="1" y="1" bar="1"/></contour></outline></glyph>"#, ErrorKind::UnexpectedPointField),
        (r#"<glyph name="a" format="2"><outline><component base="A" foo="1"/></outline></glyph>"#, ErrorKind::UnexpectedComponentField),
        (r#"<glyph name="a" format="2"><image fileName="a.png" foo="1"/></glyph>"#, ErrorKind::UnexpectedImageField),
        (r#"<glyph name="a" format="2"><guideline x="1" foo="1"/></glyph>"#, ErrorKind::UnexpectedGuidelineField),
        (r#"<glyph name="a" format="2"><anchor x="1" y="1" identifier="é"/></glyph>"#, ErrorKind::BadIdentifier),
        (r#"<foo name="a" format="2"></foo>"#, ErrorKind::WrongFirstElement),
        (r#"<glyph name="a"></glyph>"#, ErrorKind::WrongFirstElement),
        (r#"<glyph name="a" format="2"><bogus/></glyph>"#, ErrorKind::UnexpectedElement),
        (r#"<glyph name="a" format="2"><outline><contour></contour>"#, ErrorKind::UnexpectedEof),
        (r#"<glyph name="a" format="2"><lib><dict/></lib><lib><dict/></lib></glyph>"#, ErrorKind::DuplicateElement("lib")),
        (r#"<glyph name="a" format="2"><note>x</note><note>y</note></glyph>"#, ErrorKind::DuplicateElement("note")),
    ];
    for (xml, kind) in cases {
        match parse_glyph(xml.as_bytes()) {
            Err(GlifLoadError::Parse(k)) => assert_eq!(k, kind, "{xml}"),
            other => panic!("{xml}: {other:?}"),
        }
    }
}

#[test]
fn mismatched_end_tags_are_xml_errors() {
    let data = r#"<glyph name="a" format="2"><note>x</glyph></note></glyph>"#;
    assert!(matches!(parse_glyph(data.as_bytes()), Err(GlifLoadError::Xml(_))));
}

#[test]
fn unicode_duplicates_kept_once() {
    let data = r#"
<?xml version="1.0" encoding="UTF-8"?>
<glyph name="period" format="2">
  <unicode hex="0065"/>
  <unicode hex="0066"/>
  <unicode hex="0065"/>
  <unicode hex="0067"/>
</glyph>
"#;
    let glyph = parse_glyph(data.as_bytes()).unwrap();
    assert_eq!(glyph.codepoints.iter(), vec!['e', 'f', 'g']);
}
