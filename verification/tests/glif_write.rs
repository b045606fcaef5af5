use norad::error::{GlifLoadError, GlifWriteError};
use norad::glyph::serialize::format_hex4;
use norad::shared_types::{Color, Float32Bits, FloatBits};
use norad::write::{QuoteChar, WriteOptions};
use norad::{AffineTransform, Codepoints, Glyph};

fn read_f64(s: &str) -> Option<u64> {
    s.parse::<f64>().ok().map(|v| v.to_bits())
}

fn read_f32(s: &str) -> Option<u32> {
    s.parse::<f32>().ok().map(|v| v.to_bits())
}

fn show(b: FloatBits) -> String {
    f64::from_bits(b.0).to_string()
}

fn show3(c: Float32Bits) -> String {
    format!("{:.3}", f32::from_bits(c.0))
}

fn parse_glyph(xml: &[u8]) -> Result<Glyph, GlifLoadError> {
    Glyph::parse_raw(xml, &read_f64, &read_f32)
}

fn encode(glyph: &Glyph) -> String {
    let bytes = glyph.encode_xml(&show, &show3).unwrap();
    String::from_utf8(bytes).unwrap()
}

#[test]
#[allow(clippy::float_cmp)]
fn transform() {
    let transform = AffineTransform::default();
    assert_eq!(f64::from_bits(transform.x_scale.0), 1.0);
}

#[test]
fn serialize_empty_glyph() {
    let glyph = Glyph::new("a");
    let glif = encode(&glyph);
    assert_eq!(
        glif,
        r#"
<?xml version="1.0" encoding="UTF-8"?>
<glyph name="a" format="2">
</glyph>
"#
        .trim_start()
    );
}

#[test]
fn serialize_empty_glyph_explicit_line_ending_check() {
    let glyph = Glyph::new("a");
    let glif = encode(&glyph);
    assert_eq!(glif, "<?xml version=\"1.0\" encoding=\"UTF-8\"?>\n<glyph name=\"a\" format=\"2\">\n</glyph>\n");
}

#[test]
fn deduplicate_unicodes2() {
    let data = r#"
<?xml version="1.0" encoding="UTF-8"?>
<glyph name="period" format="2">
  <unicode hex="0065"/>
  <unicode hex="0066"/>
  <unicode hex="0065"/>
  <unicode hex="0067"/>
</glyph>
"#;
    let mut glyph = parse_glyph(data.as_bytes()).unwrap();
    assert_eq!(glyph.codepoints.iter(), Codepoints::new(&['e', 'f', 'g']).iter());

    glyph.codepoints = Codepoints::new(&['e', 'f', 'e', 'g']);
    let data2 = encode(&glyph);
    let data2_expected = r#"<?xml version="1.0" encoding="UTF-8"?>
<glyph name="period" format="2">
	<unicode hex="0065"/>
	<unicode hex="0066"/>
	<unicode hex="0067"/>
</glyph>
"#;
    assert_eq!(data2, data2_expected);
}

const FULL: &str = r#"<?xml version="1.0" encoding="UTF-8"?>
<glyph name="period" format="2">
	<unicode hex="002E"/>
	<advance height="10" width="268"/>
	<image fileName="sketch.png" xScale="0.5" yOffset="3" color="1,0,0,0.5"/>
	<outline>
		<contour identifier="c1">
			<point x="237" y="152" type="curve" smooth="yes"/>
			<point x="193" y="187"/>
		</contour>
		<component base="a" xOffset="10"/>
	</outline>
	<anchor name="top" x="74" y="197"/>
	<guideline name="overshoot" y="-12"/>
	<guideline x="1" y="2" angle="45"/>
	<note>a &lt;note&gt;</note>
</glyph>
"#;

#[test]
fn serialize_full_glyph_round_trip() {
    let glyph = parse_glyph(FULL.as_bytes()).unwrap();
    assert_eq!(encode(&glyph), FULL);
}

#[test]
fn serialize_lib_section() {
    let data = r#"<?xml version="1.0" encoding="UTF-8"?>
<glyph name="a" format="2">
	<lib>
		<dict>
			<key>zz</key>
			<string>last</string>
			<key>hi</key>
			<string>hello</string>
		</dict>
	</lib>
</glyph>
"#;
    let expected = r#"<?xml version="1.0" encoding="UTF-8"?>
<glyph name="a" format="2">
	<lib>
		<dict>
			<key>hi</key>
			<string>hello</string>
			<key>zz</key>
			<string>last</string>
		</dict>
	</lib>
</glyph>
"#;
    let glyph = parse_glyph(data.as_bytes()).unwrap();
    assert_eq!(encode(&glyph), expected);
}

#[test]
fn object_libs_are_written_under_public_object_libs() {
    let data = r#"<?xml version="1.0" encoding="UTF-8"?>
<glyph name="a" format="2">
	<anchor x="1" y="2" identifier="anchor1"/>
	<lib>
		<dict>
			<key>public.objectLibs</key>
			<dict>
				<key>anchor1</key>
				<dict>
					<key>k</key>
					<string>v</string>
				</dict>
			</dict>
		</dict>
	</lib>
</glyph>
"#;
    let glyph = parse_glyph(data.as_bytes()).unwrap();
    assert!(glyph.lib.get("public.objectLibs").is_none());
    assert_eq!(encode(&glyph), data);
    let again = parse_glyph(encode(&glyph).as_bytes()).unwrap();
    assert!(again.anchors[0].object_lib.lib().is_some());
}

#[test]
fn saving_refuses_a_public_object_libs_key() {
    let mut glyph = Glyph::new("a");
    glyph.lib.insert("public.objectLibs".to_string(), plist::Value::Dictionary(plist::Dictionary::new()));
    let res = glyph.encode_for_saving(&WriteOptions::default(), &show, &show3);
    assert!(matches!(res, Err(GlifWriteError::PreexistingPublicObjectLibsKey)));
    let plain = Glyph::new("a");
    assert!(plain.encode_for_saving(&WriteOptions::default(), &show, &show3).is_ok());
}

#[test]
fn serialize_with_custom_whitespace_and_single_quotes() {
    let data = r#"<?xml version="1.0" encoding="UTF-8"?>
<glyph name="a" format="2">
	<anchor x="1" y="2"/>
	<lib>
		<dict>
			<key>hi</key>
			<string>hello</string>
		</dict>
	</lib>
</glyph>
"#;
    let glyph = parse_glyph(data.as_bytes()).unwrap();
    let opts = WriteOptions::default().whitespace("  ").quote_char(QuoteChar::Single);
    let bytes = glyph.encode_xml_with_options(&opts, &show, &show3).unwrap();
    let expected = "<?xml version='1.0' encoding='UTF-8'?>\n<glyph name=\"a\" format=\"2\">\n  <anchor x=\"1\" y=\"2\"/>\n  <lib>\n    <dict>\n      <key>hi</key>\n      <string>hello</string>\n    </dict>\n  </lib>\n</glyph>\n";
    assert_eq!(String::from_utf8(bytes).unwrap(), expected);
}

#[test]
fn color_strings_trim_trailing_zeros() {
    let c = Color {
        red: Float32Bits(1.0f32.to_bits()),
        green: Float32Bits(0.5f32.to_bits()),
        blue: Float32Bits(0.0f32.to_bits()),
        alpha: Float32Bits(0.123456f32.to_bits()),
    };
    assert_eq!(c.to_rgba_string(&show3), "1,0.5,0,0.123");
}

#[test]
fn hex_codepoints_are_upper_case_and_padded() {
    assert_eq!(format_hex4(0x2e), "002E");
    assert_eq!(format_hex4(0xabcd), "ABCD");
    assert_eq!(format_hex4(0x1f600), "1F600");
    assert_eq!(format_hex4(0), "0000");
}

#[test]
fn unit_scales_and_zero_offsets_are_left_out() {
    let data = r#"<?xml version="1.0" encoding="UTF-8"?>
<glyph name="a" format="2">
	<outline>
		<component base="b" xScale="1" yScale="1.0000000000000002" xOffset="0" yOffset="-0"/>
		<component base="c" xyScale="2" yxScale="-1"/>
	</outline>
</glyph>
"#;
    let expected = r#"<?xml version="1.0" encoding="UTF-8"?>
<glyph name="a" format="2">
	<outline>
		<component base="b"/>
		<component base="c" xyScale="2" yxScale="-1"/>
	</outline>
</glyph>
"#;
    let glyph = parse_glyph(data.as_bytes()).unwrap();
    assert_eq!(encode(&glyph), expected);
}

#[test]
fn advance_with_only_zero_or_subnormal_values_is_left_out() {
    let mut glyph = Glyph::new("a");
    glyph.width = FloatBits(1);
    glyph.height = FloatBits(0);
    assert!(!encode(&glyph).contains("advance"));
    glyph.width = FloatBits(500.0f64.to_bits());
    assert!(encode(&glyph).contains("<advance width=\"500\"/>"));
}
