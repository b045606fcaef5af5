//! Writing glyphs out as `.glif` files.
//!
//! Numbers are written through a caller's function from the bits of a number to its
//! text; the library decides which elements and attributes a glyph has, and in what
//! order.

use vstd::prelude::*;

use crate::glyph::writer::{attrs_view, pieces, XmlItem, XmlPiece};
use crate::glyph::{AffineTransform, Anchor, Component, Contour, ContourPoint, Glyph, Image, ObjectLib, PointType};
use crate::guideline::{Guideline, Line};
use crate::identifier::Identifier;
use crate::numbers::{hex_digits_value, hex_value, spec_hex_u32};
use crate::fontinfo::FontInfo;
use crate::plist_ops::{dict_insert_dictionary, dict_keys, dict_strings, new_dict};
use crate::error::GlifWriteError;
use crate::glyph::writer::{new_writer, write_items, writer_bytes, writer_log, xml_written};
use crate::plist_ops::{dict_contains_key, dict_is_empty, dict_to_xml, plist_xml, sort_keys_recursively};
use crate::shared_types::{Color, Float32Bits, FloatBits, Plist, PUBLIC_OBJECT_LIBS_KEY};
use crate::write::{QuoteChar, WriteOptions};
use crate::text::{push_char, to_string};

verus! {

/// Attributes by their plain values: keys and values.
pub type AttrSeq = Seq<(Seq<char>, Seq<char>)>;

/// The text that `show` gives for `a`. Where `show` gives one text per value, it is
/// that text.
pub open spec fn shown<A, F: Fn(A) -> String>(show: F, a: A) -> Seq<char> {
    (choose|s: String| call_ensures(show, (a,), s))@
}

/// True when `show` takes every value and gives one text for each.
pub open spec fn shows_one_way<A, F: Fn(A) -> String>(show: F) -> bool {
    &&& forall|a: A| #[trigger] call_requires(show, (a,))
    &&& forall|a: A, s1: String, s2: String|
        #![trigger call_ensures(show, (a,), s1), call_ensures(show, (a,), s2)]
        call_ensures(show, (a,), s1) && call_ensures(show, (a,), s2) ==> s1@ == s2@
}

/// The text of `a` through `show`.
pub fn show_value<A, F: Fn(A) -> String>(show: &F, a: A) -> (res: String)
    requires
        shows_one_way(*show),
    ensures
        res@ == shown(*show, a),
{
    let ghost g = a;
    let s = show(a);
    proof {
        assert(call_ensures(*show, (g,), s));
        let c = choose|c: String| call_ensures(*show, (g,), c);
        assert(call_ensures(*show, (g,), c));
    }
    s
}

/// True when the bits are those of zero or of negative zero.
pub open spec fn is_zero_bits(b: u64) -> bool {
    b == 0 || b == 0x8000_0000_0000_0000
}

/// True when the bits are those of a NaN.
pub open spec fn is_nan_bits(b: u64) -> bool {
    (b & 0x7ff0_0000_0000_0000) == 0x7ff0_0000_0000_0000 && (b & 0x000f_ffff_ffff_ffff) != 0
}

/// True when the bits are those of a normal number: neither zero, subnormal,
/// infinite nor NaN.
pub open spec fn is_normal_bits(b: u64) -> bool {
    (b & 0x7ff0_0000_0000_0000) != 0 && (b & 0x7ff0_0000_0000_0000) != 0x7ff0_0000_0000_0000
}

/// True when a scale is not written: when it lies within machine epsilon of one
/// (the numbers `1 - 2^-52`, `1 - 2^-53`, `1` and `1 + 2^-52`), or is NaN, for which
/// the comparison with epsilon fails.
pub open spec fn is_unit_scale_bits(b: u64) -> bool {
    ||| b == 0x3fef_ffff_ffff_fffe
    ||| b == 0x3fef_ffff_ffff_ffff
    ||| b == 0x3ff0_0000_0000_0000
    ||| b == 0x3ff0_0000_0000_0001
    ||| is_nan_bits(b)
}

/// Whether the number is zero (of either sign).
pub fn is_zero(v: FloatBits) -> (res: bool)
    ensures
        res == is_zero_bits(v.0),
{
    v.0 == 0 || v.0 == 0x8000_0000_0000_0000
}

/// Whether the number is normal.
pub fn is_normal(v: FloatBits) -> (res: bool)
    ensures
        res == is_normal_bits(v.0),
{
    (v.0 & 0x7ff0_0000_0000_0000) != 0 && (v.0 & 0x7ff0_0000_0000_0000) != 0x7ff0_0000_0000_0000
}

/// Whether a scale is left out when written.
pub fn is_unit_scale(v: FloatBits) -> (res: bool)
    ensures
        res == is_unit_scale_bits(v.0),
{
    v.0 == 0x3fef_ffff_ffff_fffe || v.0 == 0x3fef_ffff_ffff_ffff || v.0 == 0x3ff0_0000_0000_0000
        || v.0 == 0x3ff0_0000_0000_0001
        || ((v.0 & 0x7ff0_0000_0000_0000) == 0x7ff0_0000_0000_0000 && (v.0 & 0x000f_ffff_ffff_ffff) != 0)
}

/// An attribute for an optional value.
pub open spec fn opt_attr(key: Seq<char>, value: Option<Seq<char>>) -> AttrSeq {
    match value {
        Some(v) => seq![(key, v)],
        None => Seq::empty(),
    }
}

/// An optional string by its characters.
pub open spec fn opt_view(o: Option<String>) -> Option<Seq<char>> {
    match o {
        Some(s) => Some(s@),
        None => None,
    }
}

/// An optional identifier by its characters.
pub open spec fn opt_id(o: Option<Identifier>) -> Option<Seq<char>> {
    match o {
        Some(i) => Some(i@),
        None => None,
    }
}

/// An attribute when `cond` holds.
pub open spec fn attr_if(cond: bool, key: Seq<char>, value: Seq<char>) -> AttrSeq {
    if cond {
        seq![(key, value)]
    } else {
        Seq::empty()
    }
}

/// The attributes of a transformation: each part that differs from the identity.
pub open spec fn transform_attrs<F: Fn(FloatBits) -> String>(t: AffineTransform, show: F) -> AttrSeq {
    attr_if(!is_unit_scale_bits(t.x_scale.0), "xScale"@, shown(show, t.x_scale))
        + attr_if(!is_zero_bits(t.xy_scale.0), "xyScale"@, shown(show, t.xy_scale))
        + attr_if(!is_zero_bits(t.yx_scale.0), "yxScale"@, shown(show, t.yx_scale))
        + attr_if(!is_unit_scale_bits(t.y_scale.0), "yScale"@, shown(show, t.y_scale))
        + attr_if(!is_zero_bits(t.x_offset.0), "xOffset"@, shown(show, t.x_offset))
        + attr_if(!is_zero_bits(t.y_offset.0), "yOffset"@, shown(show, t.y_offset))
}

/// `s` without the characters `c` at its end.
pub open spec fn trim_end(s: Seq<char>, c: char) -> Seq<char>
    decreases s.len(),
{
    if s.len() > 0 && s.last() == c {
        trim_end(s.drop_last(), c)
    } else {
        s
    }
}

/// The text of a color channel: its text with three decimals, without trailing zeros
/// and then without a trailing point.
pub open spec fn channel_text<G: Fn(Float32Bits) -> String>(show3: G, v: Float32Bits) -> Seq<char> {
    trim_end(trim_end(shown(show3, v), '0'), '.')
}

/// Appends a channel's text, after a comma where text stands already.
pub open spec fn join_channel(acc: Seq<char>, part: Seq<char>) -> Seq<char> {
    if acc.len() > 0 {
        acc.push(',') + part
    } else {
        acc + part
    }
}

/// The text of a color as the UFO specification writes it: the channels' texts,
/// separated by commas.
pub open spec fn color_text<G: Fn(Float32Bits) -> String>(c: Color, show3: G) -> Seq<char> {
    join_channel(
        join_channel(
            join_channel(join_channel(Seq::empty(), channel_text(show3, c.red)), channel_text(show3, c.green)),
            channel_text(show3, c.blue),
        ),
        channel_text(show3, c.alpha),
    )
}

/// An optional color by its text.
pub open spec fn opt_color<G: Fn(Float32Bits) -> String>(c: Option<Color>, show3: G) -> Option<Seq<char>> {
    match c {
        Some(c) => Some(color_text(c, show3)),
        None => None,
    }
}

/// Removes the characters `c` at the end of `s`.
fn trim_end_chars(s: &mut String, c: char)
    ensures
        final(s)@ == trim_end(old(s)@, c),
{
    let chars = crate::text::chars_of(s.as_str());
    let mut n: usize = chars.len();
    assert(chars@.take(n as int) =~= chars@);
    while n > 0 && chars[n - 1] == c
        invariant
            n <= chars@.len(),
            chars@ == old(s)@,
            trim_end(chars@, c) == trim_end(chars@.take(n as int), c),
        decreases n,
    {
        assert(chars@.take(n as int).drop_last() =~= chars@.take(n - 1));
        n -= 1;
    }
    assert(trim_end(chars@.take(n as int), c) == chars@.take(n as int));
    *s = crate::text::string_of(&chars, 0, n);
    assert(s@ =~= chars@.take(n as int));
}

impl Color {
    /// Serializes the color into a string as the UFO specification defines it, each
    /// channel with at most three decimals. `show3` gives the text of a channel with
    /// three decimals.
    pub fn to_rgba_string<G: Fn(Float32Bits) -> String>(&self, show3: &G) -> (res: String)
        requires
            shows_one_way(*show3),
        ensures
            res@ == color_text(*self, *show3),
    {
        let channels = [self.red, self.green, self.blue, self.alpha];
        let ghost parts = seq![
            channel_text(*show3, self.red),
            channel_text(*show3, self.green),
            channel_text(*show3, self.blue),
            channel_text(*show3, self.alpha),
        ];
        let mut result = String::new();
        let mut i: usize = 0;
        while i < 4
            invariant
                i <= 4,
                shows_one_way(*show3),
                channels@ == seq![self.red, self.green, self.blue, self.alpha],
                parts == seq![
                    channel_text(*show3, self.red),
                    channel_text(*show3, self.green),
                    channel_text(*show3, self.blue),
                    channel_text(*show3, self.alpha),
                ],
                i == 0 ==> result@ == Seq::<char>::empty(),
                i == 1 ==> result@ == join_channel(Seq::empty(), parts[0]),
                i == 2 ==> result@ == join_channel(join_channel(Seq::empty(), parts[0]), parts[1]),
                i == 3 ==> result@ == join_channel(join_channel(join_channel(Seq::empty(), parts[0]), parts[1]), parts[2]),
                i == 4 ==> result@ == color_text(*self, *show3),
            decreases 4 - i,
        {
            let mut scratch = show_value(show3, channels[i]);
            trim_end_chars(&mut scratch, '0');
            trim_end_chars(&mut scratch, '.');
            let ghost before = result@;
            if result.unicode_len() > 0 {
                push_char(&mut result, ',');
            }
            result = crate::text::concat(result.as_str(), scratch.as_str());
            assert(result@ == join_channel(before, parts[i as int]));
            i += 1;
        }
        result
    }
}

/// The upper-case hexadecimal digit of `d`.
pub open spec fn upper_hex_digit(d: nat) -> char {
    if d < 10 {
        (48 + d) as char
    } else {
        (55 + d) as char
    }
}

/// The upper-case hexadecimal digits of `v`, without leading zeros (but one zero for
/// zero).
pub open spec fn upper_hex(v: nat) -> Seq<char>
    decreases v,
{
    if v < 16 {
        seq![upper_hex_digit(v)]
    } else {
        upper_hex(v / 16).push(upper_hex_digit(v % 16))
    }
}

/// `v` in upper-case hexadecimal, padded with zeros to four digits at least.
pub open spec fn hex4(v: nat) -> Seq<char> {
    let digits = upper_hex(v);
    if digits.len() < 4 {
        Seq::new((4 - digits.len()) as nat, |i: int| '0') + digits
    } else {
        digits
    }
}

proof fn lemma_hex_digit(d: nat)
    requires
        d < 16,
    ensures
        hex_value(upper_hex_digit(d)) == Some(d as u32),
        upper_hex_digit(d) != '+',
{
}

proof fn lemma_upper_hex_value(v: nat)
    ensures
        hex_digits_value(upper_hex(v)) == Some(v as int),
        upper_hex(v).len() >= 1,
        upper_hex(v)[0] != '+',
    decreases v,
{
    if v < 16 {
        lemma_hex_digit(v);
        assert(upper_hex(v).drop_last() =~= Seq::<char>::empty());
        assert(hex_digits_value(Seq::<char>::empty()) == Some(0int));
        assert(upper_hex(v).last() == upper_hex_digit(v));
        assert(hex_digits_value(upper_hex(v)) == Some((0int * 16 + ((v as u32) as int)) as int));
    } else {
        lemma_upper_hex_value(v / 16);
        lemma_hex_digit(v % 16);
        assert(upper_hex(v).drop_last() =~= upper_hex(v / 16));
        assert(upper_hex(v).last() == upper_hex_digit(v % 16));
        assert((v / 16) * 16 + v % 16 == v);
        assert(hex_digits_value(upper_hex(v)) == Some(((v / 16) * 16 + ((v % 16) as u32)) as int));
    }
}

proof fn lemma_zeros_value(z: Seq<char>)
    requires
        forall|i: int| 0 <= i < z.len() ==> z[i] == '0',
    ensures
        hex_digits_value(z) == Some(0int),
    decreases z.len(),
{
    if z.len() > 0 {
        lemma_zeros_value(z.drop_last());
    }
}

proof fn lemma_zeros_prefix(z: Seq<char>, s: Seq<char>)
    requires
        forall|i: int| 0 <= i < z.len() ==> z[i] == '0',
    ensures
        hex_digits_value(z + s) == hex_digits_value(s),
    decreases s.len(),
{
    if s.len() == 0 {
        assert(z + s =~= z);
        lemma_zeros_value(z);
    } else {
        lemma_zeros_prefix(z, s.drop_last());
        assert((z + s).drop_last() =~= z + s.drop_last());
        assert((z + s).last() == s.last());
    }
}

/// A codepoint written as the hexadecimal text of a `unicode` element reads back as
/// the same number.
pub proof fn law_unicode_hex_round_trip(v: u32)
    ensures
        spec_hex_u32(hex4(v as nat)) == Some(v),
{
    let digits = upper_hex(v as nat);
    lemma_upper_hex_value(v as nat);
    if digits.len() < 4 {
        let z = Seq::new((4 - digits.len()) as nat, |i: int| '0');
        lemma_zeros_prefix(z, digits);
        assert(hex4(v as nat) == z + digits);
        assert((z + digits)[0] == '0');
    }
}

/// The upper-case hexadecimal digit of `d`.
fn hex_digit_char(d: u32) -> (res: char)
    requires
        d < 16,
    ensures
        res == upper_hex_digit(d as nat),
{
    let v: u32 = if d < 10 { 48 + d } else { 55 + d };
    match crate::numbers::char_from_u32(v) {
        Some(c) => c,
        None => '0',
    }
}

/// The upper-case hexadecimal digits of `v`.
fn hex_digits(v: u32) -> (res: Vec<char>)
    ensures
        res@ == upper_hex(v as nat),
    decreases v,
{
    if v < 16 {
        let mut d: Vec<char> = Vec::new();
        d.push(hex_digit_char(v));
        proof {
            assert(d@ =~= seq![upper_hex_digit(v as nat)]);
        }
        d
    } else {
        let mut d = hex_digits(v / 16);
        d.push(hex_digit_char(v % 16));
        d
    }
}

/// Writes `v` in upper-case hexadecimal, padded with zeros to four digits at least.
pub fn format_hex4(v: u32) -> (res: String)
    ensures
        res@ == hex4(v as nat),
{
    let digits = hex_digits(v);
    let mut s = String::new();
    let ghost pad: Seq<char> = if digits@.len() < 4 {
        Seq::new((4 - digits@.len()) as nat, |i: int| '0')
    } else {
        Seq::empty()
    };
    let mut k: usize = digits.len();
    while k < 4
        invariant
            digits@.len() <= k <= 4 || (k == digits@.len() && k >= 4),
            s@.len() == k - digits@.len(),
            forall|i: int| 0 <= i < s@.len() ==> s@[i] == '0',
        decreases 4 - k,
    {
        push_char(&mut s, '0');
        k += 1;
    }
    assert(s@ =~= pad);
    let mut i: usize = 0;
    while i < digits.len()
        invariant
            i <= digits@.len(),
            s@ == pad + digits@.take(i as int),
        decreases digits@.len() - i,
    {
        push_char(&mut s, digits[i]);
        assert(digits@.take(i + 1) =~= digits@.take(i as int).push(digits@[i as int]));
        i += 1;
    }
    assert(digits@.take(digits@.len() as int) =~= digits@);
    s
}

/// The attributes as a point writes them.
pub open spec fn point_piece<F: Fn(FloatBits) -> String>(p: ContourPoint, show: F) -> XmlPiece {
    XmlPiece::Empty(
        "point"@,
        opt_attr("name"@, opt_view(p.name))
            + seq![("x"@, shown(show, p.x)), ("y"@, shown(show, p.y))]
            + attr_if(p.typ != PointType::OffCurve, "type"@, p.typ.spec_as_str())
            + attr_if(p.smooth, "smooth"@, "yes"@)
            + opt_attr("identifier"@, opt_id(p.object_lib.spec_identifier())),
    )
}

/// The items of a contour: its start tag, its points, its end tag.
pub open spec fn contour_pieces<F: Fn(FloatBits) -> String>(c: Contour, show: F) -> Seq<XmlPiece> {
    seq![XmlPiece::Start("contour"@, opt_attr("identifier"@, opt_id(c.object_lib.spec_identifier())))]
        + c.points@.map_values(|p: ContourPoint| point_piece(p, show))
        + seq![XmlPiece::End("contour"@)]
}

/// The items of contours, one after the other.
pub open spec fn contours_pieces<F: Fn(FloatBits) -> String>(cs: Seq<Contour>, show: F) -> Seq<XmlPiece>
    decreases cs.len(),
{
    if cs.len() == 0 {
        Seq::empty()
    } else {
        contours_pieces(cs.drop_last(), show) + contour_pieces(cs.last(), show)
    }
}

/// The item of a component.
pub open spec fn component_piece<F: Fn(FloatBits) -> String>(c: Component, show: F) -> XmlPiece {
    XmlPiece::Empty(
        "component"@,
        seq![("base"@, c.base@)] + transform_attrs(c.transform, show)
            + opt_attr("identifier"@, opt_id(c.object_lib.spec_identifier())),
    )
}

/// The item of an anchor.
pub open spec fn anchor_piece<F: Fn(FloatBits) -> String, G: Fn(Float32Bits) -> String>(
    a: Anchor,
    show: F,
    show3: G,
) -> XmlPiece {
    XmlPiece::Empty(
        "anchor"@,
        opt_attr("name"@, opt_view(a.name))
            + seq![("x"@, shown(show, a.x)), ("y"@, shown(show, a.y))]
            + opt_attr("color"@, opt_color(a.color, show3))
            + opt_attr("identifier"@, opt_id(a.object_lib.spec_identifier())),
    )
}

/// The coordinates of a guideline's line as attributes.
pub open spec fn line_attrs<F: Fn(FloatBits) -> String>(l: Line, show: F) -> AttrSeq {
    match l {
        Line::Vertical(x) => seq![("x"@, shown(show, x))],
        Line::Horizontal(y) => seq![("y"@, shown(show, y))],
        Line::Angle { x, y, degrees } => seq![
            ("x"@, shown(show, x)),
            ("y"@, shown(show, y)),
            ("angle"@, shown(show, degrees)),
        ],
    }
}

/// The item of a guideline.
pub open spec fn guideline_piece<F: Fn(FloatBits) -> String, G: Fn(Float32Bits) -> String>(
    g: Guideline,
    show: F,
    show3: G,
) -> XmlPiece {
    XmlPiece::Empty(
        "guideline"@,
        opt_attr("name"@, opt_view(g.spec_name())) + line_attrs(g.spec_line(), show)
            + opt_attr("color"@, opt_color(g.spec_color(), show3))
            + opt_attr("identifier"@, opt_id(g.spec_identifier())),
    )
}

/// The item of an image.
pub open spec fn image_piece<F: Fn(FloatBits) -> String, G: Fn(Float32Bits) -> String>(
    i: Image,
    show: F,
    show3: G,
) -> XmlPiece {
    XmlPiece::Empty(
        "image"@,
        seq![("fileName"@, i.spec_file_name())] + transform_attrs(i.spec_transform(), show)
            + opt_attr("color"@, opt_color(i.spec_color(), show3)),
    )
}

/// The item of a codepoint.
pub open spec fn unicode_piece(c: char) -> XmlPiece {
    XmlPiece::Empty("unicode"@, seq![("hex"@, hex4(c as nat))])
}

/// Appends an attribute.
fn push_attr(attrs: &mut Vec<(String, String)>, key: &str, value: String)
    ensures
        attrs_view(final(attrs)@) == attrs_view(old(attrs)@).push((key@, value@)),
{
    let k = to_string(key);
    attrs.push((k, value));
    assert(attrs_view(attrs@) =~= attrs_view(old(attrs)@).push((key@, value@)));
}

/// Appends the attribute of an optional string.
fn push_opt_attr(attrs: &mut Vec<(String, String)>, key: &str, value: &Option<String>)
    ensures
        attrs_view(final(attrs)@) == attrs_view(old(attrs)@) + opt_attr(key@, opt_view(*value)),
{
    match value {
        Some(v) => {
            push_attr(attrs, key, v.clone());
        },
        None => {},
    }
    assert(attrs_view(attrs@) =~= attrs_view(old(attrs)@) + opt_attr(key@, opt_view(*value)));
}

/// Appends the attribute of an optional identifier.
fn push_opt_id(attrs: &mut Vec<(String, String)>, id: Option<&Identifier>)
    ensures
        attrs_view(final(attrs)@) == attrs_view(old(attrs)@) + opt_attr("identifier"@, match id {
            Some(i) => Some(i@),
            None => None,
        }),
{
    match id {
        Some(i) => {
            push_attr(attrs, "identifier", to_string(i.as_str()));
        },
        None => {},
    }
    assert(attrs_view(attrs@) =~= attrs_view(old(attrs)@) + opt_attr("identifier"@, match id {
        Some(i) => Some(i@),
        None => None,
    }));
}

/// Appends the attribute of an optional color.
fn push_opt_color<G: Fn(Float32Bits) -> String>(attrs: &mut Vec<(String, String)>, color: &Option<Color>, show3: &G)
    requires
        shows_one_way(*show3),
    ensures
        attrs_view(final(attrs)@) == attrs_view(old(attrs)@) + opt_attr("color"@, opt_color(*color, *show3)),
{
    match color {
        Some(c) => {
            push_attr(attrs, "color", c.to_rgba_string(show3));
        },
        None => {},
    }
    assert(attrs_view(attrs@) =~= attrs_view(old(attrs)@) + opt_attr("color"@, opt_color(*color, *show3)));
}

/// Appends an attribute of a number when `cond` holds.
fn push_number_if<F: Fn(FloatBits) -> String>(
    attrs: &mut Vec<(String, String)>,
    cond: bool,
    key: &str,
    v: FloatBits,
    show: &F,
)
    requires
        shows_one_way(*show),
    ensures
        attrs_view(final(attrs)@) == attrs_view(old(attrs)@) + attr_if(cond, key@, shown(*show, v)),
{
    if cond {
        push_attr(attrs, key, show_value(show, v));
    }
    assert(attrs_view(attrs@) =~= attrs_view(old(attrs)@) + attr_if(cond, key@, shown(*show, v)));
}

/// Appends attributes.
fn append_attrs(attrs: &mut Vec<(String, String)>, more: Vec<(String, String)>)
    ensures
        attrs_view(final(attrs)@) == attrs_view(old(attrs)@) + attrs_view(more@),
{
    let ghost added = more@;
    let mut more = more;
    attrs.append(&mut more);
    assert(attrs_view(attrs@) =~= attrs_view(old(attrs)@) + attrs_view(added));
}

/// The attributes of a transformation: each part that differs from the identity.
fn transform_attributes<F: Fn(FloatBits) -> String>(t: &AffineTransform, show: &F) -> (res: Vec<(String, String)>)
    requires
        shows_one_way(*show),
    ensures
        attrs_view(res@) == transform_attrs(*t, *show),
{
    let mut attrs: Vec<(String, String)> = Vec::new();
    assert(attrs_view(attrs@) =~= Seq::<(Seq<char>, Seq<char>)>::empty());
    push_number_if(&mut attrs, !is_unit_scale(t.x_scale), "xScale", t.x_scale, show);
    assert(attrs_view(attrs@) =~= attr_if(!is_unit_scale_bits(t.x_scale.0), "xScale"@, shown(*show, t.x_scale)));
    push_number_if(&mut attrs, !is_zero(t.xy_scale), "xyScale", t.xy_scale, show);
    push_number_if(&mut attrs, !is_zero(t.yx_scale), "yxScale", t.yx_scale, show);
    push_number_if(&mut attrs, !is_unit_scale(t.y_scale), "yScale", t.y_scale, show);
    push_number_if(&mut attrs, !is_zero(t.x_offset), "xOffset", t.x_offset, show);
    push_number_if(&mut attrs, !is_zero(t.y_offset), "yOffset", t.y_offset, show);
    attrs
}

/// Appends the attributes of a transformation: each part that differs from the
/// identity.
pub fn write_transform_attributes<F: Fn(FloatBits) -> String>(
    attrs: &mut Vec<(String, String)>,
    transform: &AffineTransform,
    show: &F,
)
    requires
        shows_one_way(*show),
    ensures
        attrs_view(final(attrs)@) == attrs_view(old(attrs)@) + transform_attrs(*transform, *show),
{
    let more = transform_attributes(transform, show);
    append_attrs(attrs, more);
}

/// The item of a codepoint: its number in hexadecimal.
pub fn char_to_event(c: char) -> (res: XmlItem)
    ensures
        res.piece() == unicode_piece(c),
{
    let mut attrs: Vec<(String, String)> = Vec::new();
    push_attr(&mut attrs, "hex", format_hex4(c as u32));
    assert(attrs_view(attrs@) =~= seq![("hex"@, hex4(c as nat))]);
    XmlItem::Empty(to_string("unicode"), attrs)
}

impl ContourPoint {
    /// The item of the point.
    pub fn to_event<F: Fn(FloatBits) -> String>(&self, show: &F) -> (res: XmlItem)
        requires
            shows_one_way(*show),
        ensures
            res.piece() == point_piece(*self, *show),
    {
        let mut attrs: Vec<(String, String)> = Vec::new();
        push_opt_attr(&mut attrs, "name", &self.name);
        push_attr(&mut attrs, "x", show_value(show, self.x));
        push_attr(&mut attrs, "y", show_value(show, self.y));
        let ghost before_type = attrs_view(attrs@);
        if self.typ != PointType::OffCurve {
            push_attr(&mut attrs, "type", to_string(self.typ.as_str()));
        }
        assert(attrs_view(attrs@) =~= before_type + attr_if(self.typ != PointType::OffCurve, "type"@, self.typ.spec_as_str()));
        let ghost before_smooth = attrs_view(attrs@);
        if self.smooth {
            push_attr(&mut attrs, "smooth", to_string("yes"));
        }
        assert(attrs_view(attrs@) =~= before_smooth + attr_if(self.smooth, "smooth"@, "yes"@));
        push_opt_id(&mut attrs, self.object_lib.identifier());
        assert(attrs_view(attrs@) =~= opt_attr("name"@, opt_view(self.name))
            + seq![("x"@, shown(*show, self.x)), ("y"@, shown(*show, self.y))]
            + attr_if(self.typ != PointType::OffCurve, "type"@, self.typ.spec_as_str())
            + attr_if(self.smooth, "smooth"@, "yes"@)
            + opt_attr("identifier"@, opt_id(self.object_lib.spec_identifier())));
        XmlItem::Empty(to_string("point"), attrs)
    }
}

impl Component {
    /// The item of the component.
    pub fn to_event<F: Fn(FloatBits) -> String>(&self, show: &F) -> (res: XmlItem)
        requires
            shows_one_way(*show),
        ensures
            res.piece() == component_piece(*self, *show),
    {
        let mut attrs: Vec<(String, String)> = Vec::new();
        push_attr(&mut attrs, "base", to_string(self.base.as_str()));
        write_transform_attributes(&mut attrs, &self.transform, show);
        push_opt_id(&mut attrs, self.object_lib.identifier());
        assert(attrs_view(attrs@) =~= seq![("base"@, self.base@)] + transform_attrs(self.transform, *show)
            + opt_attr("identifier"@, opt_id(self.object_lib.spec_identifier())));
        XmlItem::Empty(to_string("component"), attrs)
    }
}

impl Anchor {
    /// The item of the anchor.
    pub fn to_event<F: Fn(FloatBits) -> String, G: Fn(Float32Bits) -> String>(&self, show: &F, show3: &G) -> (res: XmlItem)
        requires
            shows_one_way(*show),
            shows_one_way(*show3),
        ensures
            res.piece() == anchor_piece(*self, *show, *show3),
    {
        let mut attrs: Vec<(String, String)> = Vec::new();
        push_opt_attr(&mut attrs, "name", &self.name);
        push_attr(&mut attrs, "x", show_value(show, self.x));
        push_attr(&mut attrs, "y", show_value(show, self.y));
        push_opt_color(&mut attrs, &self.color, show3);
        push_opt_id(&mut attrs, self.object_lib.identifier());
        assert(attrs_view(attrs@) =~= opt_attr("name"@, opt_view(self.name))
            + seq![("x"@, shown(*show, self.x)), ("y"@, shown(*show, self.y))]
            + opt_attr("color"@, opt_color(self.color, *show3))
            + opt_attr("identifier"@, opt_id(self.object_lib.spec_identifier())));
        XmlItem::Empty(to_string("anchor"), attrs)
    }
}

impl Guideline {
    /// The item of the guideline.
    pub fn to_event<F: Fn(FloatBits) -> String, G: Fn(Float32Bits) -> String>(&self, show: &F, show3: &G) -> (res: XmlItem)
        requires
            shows_one_way(*show),
            shows_one_way(*show3),
        ensures
            res.piece() == guideline_piece(*self, *show, *show3),
    {
        let mut attrs: Vec<(String, String)> = Vec::new();
        push_opt_attr(&mut attrs, "name", self.name_ref());
        let ghost before_line = attrs_view(attrs@);
        match self.line_value() {
            Line::Vertical(x) => {
                push_attr(&mut attrs, "x", show_value(show, x));
            },
            Line::Horizontal(y) => {
                push_attr(&mut attrs, "y", show_value(show, y));
            },
            Line::Angle { x, y, degrees } => {
                push_attr(&mut attrs, "x", show_value(show, x));
                push_attr(&mut attrs, "y", show_value(show, y));
                push_attr(&mut attrs, "angle", show_value(show, degrees));
            },
        }
        assert(attrs_view(attrs@) =~= before_line + line_attrs(self.spec_line(), *show));
        push_opt_color(&mut attrs, self.color_ref(), show3);
        push_opt_id(&mut attrs, self.identifier());
        assert(attrs_view(attrs@) =~= opt_attr("name"@, opt_view(self.spec_name())) + line_attrs(self.spec_line(), *show)
            + opt_attr("color"@, opt_color(self.spec_color(), *show3))
            + opt_attr("identifier"@, opt_id(self.spec_identifier())));
        XmlItem::Empty(to_string("guideline"), attrs)
    }
}

impl Image {
    /// The item of the image.
    pub fn to_event<F: Fn(FloatBits) -> String, G: Fn(Float32Bits) -> String>(&self, show: &F, show3: &G) -> (res: XmlItem)
        requires
            shows_one_way(*show),
            shows_one_way(*show3),
        ensures
            res.piece() == image_piece(*self, *show, *show3),
    {
        let mut attrs: Vec<(String, String)> = Vec::new();
        push_attr(&mut attrs, "fileName", to_string(self.file_name()));
        write_transform_attributes(&mut attrs, self.transform_ref(), show);
        push_opt_color(&mut attrs, self.color_ref(), show3);
        assert(attrs_view(attrs@) =~= seq![("fileName"@, self.spec_file_name())] + transform_attrs(self.spec_transform(), *show)
            + opt_attr("color"@, opt_color(self.spec_color(), *show3)));
        XmlItem::Empty(to_string("image"), attrs)
    }
}

/// Appends an item.
fn push_item(items: &mut Vec<XmlItem>, item: XmlItem)
    ensures
        pieces(final(items)@) == pieces(old(items)@).push(item.piece()),
{
    let ghost it = item;
    items.push(item);
    assert(pieces(items@) =~= pieces(old(items)@).push(it.piece()));
}

impl Contour {
    /// Appends the items of the contour: its start tag, its points and its end tag.
    pub fn write_xml<F: Fn(FloatBits) -> String>(&self, items: &mut Vec<XmlItem>, show: &F)
        requires
            shows_one_way(*show),
        ensures
            pieces(final(items)@) == pieces(old(items)@) + contour_pieces(*self, *show),
    {
        let mut attrs: Vec<(String, String)> = Vec::new();
        push_opt_id(&mut attrs, self.object_lib.identifier());
        assert(attrs_view(attrs@) =~= opt_attr("identifier"@, opt_id(self.object_lib.spec_identifier())));
        push_item(items, XmlItem::Start(to_string("contour"), attrs));
        let ghost start = pieces(items@);
        let mut i: usize = 0;
        while i < self.points.len()
            invariant
                i <= self.points@.len(),
                shows_one_way(*show),
                pieces(items@) == start + self.points@.take(i as int).map_values(|p: ContourPoint| point_piece(p, *show)),
            decreases self.points@.len() - i,
        {
            let item = self.points[i].to_event(show);
            push_item(items, item);
            assert(self.points@.take(i + 1).map_values(|p: ContourPoint| point_piece(p, *show))
                =~= self.points@.take(i as int).map_values(|p: ContourPoint| point_piece(p, *show)).push(point_piece(self.points@[i as int], *show)));
            i += 1;
        }
        assert(self.points@.take(self.points@.len() as int) =~= self.points@);
        push_item(items, XmlItem::End(to_string("contour")));
        assert(pieces(items@) =~= pieces(old(items)@) + contour_pieces(*self, *show));
    }
}

/// The identifier under which an object's lib is filed, where it has a lib.
pub open spec fn lib_id(o: ObjectLib) -> Option<Seq<char>> {
    if o.spec_lib() is Some {
        opt_id(o.spec_identifier())
    } else {
        None
    }
}

/// The identifier under which a guideline's lib is filed, where it has a lib.
pub open spec fn guideline_lib_id(g: Guideline) -> Option<Seq<char>> {
    if g.spec_lib() is Some {
        opt_id(g.spec_identifier())
    } else {
        None
    }
}

/// The identifiers that `f` gives for the items of `s`.
pub open spec fn ids_of<T>(s: Seq<T>, f: spec_fn(T) -> Option<Seq<char>>) -> Set<Seq<char>> {
    Set::new(|id: Seq<char>| exists|i: int| 0 <= i < s.len() && f(#[trigger] s[i]) == Some(id))
}

/// The identifiers in the sets that `f` gives for the items of `s`.
pub open spec fn union_of<T>(s: Seq<T>, f: spec_fn(T) -> Set<Seq<char>>) -> Set<Seq<char>> {
    Set::new(|id: Seq<char>| exists|i: int| 0 <= i < s.len() && f(#[trigger] s[i]).contains(id))
}

/// An optional identifier as a set.
pub open spec fn opt_set(o: Option<Seq<char>>) -> Set<Seq<char>> {
    match o {
        Some(id) => Set::empty().insert(id),
        None => Set::empty(),
    }
}

/// The identifiers of the points of a contour that have libs.
pub open spec fn point_ids(c: Contour) -> Set<Seq<char>> {
    ids_of(c.points@, |p: ContourPoint| lib_id(p.object_lib))
}

/// The identifiers under which the libs of a glyph's objects (anchors, guidelines,
/// contours, points and components) are filed.
pub open spec fn object_lib_ids(g: Glyph) -> Set<Seq<char>> {
    ids_of(g.anchors@, |a: Anchor| lib_id(a.object_lib))
        + ids_of(g.guidelines@, |x: Guideline| guideline_lib_id(x))
        + ids_of(g.contours@, |c: Contour| lib_id(c.object_lib))
        + union_of(g.contours@, |c: Contour| point_ids(c))
        + ids_of(g.components@, |c: Component| lib_id(c.object_lib))
}

/// True when every guideline with a lib has an identifier.
pub open spec fn guideline_libs_identified(gs: Seq<Guideline>) -> bool {
    forall|i: int| 0 <= i < gs.len() && (#[trigger] gs[i]).spec_lib() is Some ==> gs[i].spec_identifier() is Some
}

/// One more item for `ids_of`.
proof fn lemma_ids_of_step<T>(s: Seq<T>, f: spec_fn(T) -> Option<Seq<char>>, i: int)
    requires
        0 <= i < s.len(),
    ensures
        ids_of(s.take(i + 1), f) == ids_of(s.take(i), f) + opt_set(f(s[i])),
{
    assert forall|id: Seq<char>| #[trigger] ids_of(s.take(i + 1), f).contains(id) <==> (ids_of(s.take(i), f) + opt_set(f(s[i]))).contains(id) by {
        if ids_of(s.take(i + 1), f).contains(id) {
            let k = choose|k: int| 0 <= k < s.take(i + 1).len() && f(#[trigger] s.take(i + 1)[k]) == Some(id);
            if k < i {
                assert(s.take(i)[k] == s.take(i + 1)[k]);
            }
        }
        if ids_of(s.take(i), f).contains(id) {
            let k = choose|k: int| 0 <= k < s.take(i).len() && f(#[trigger] s.take(i)[k]) == Some(id);
            assert(s.take(i + 1)[k] == s.take(i)[k]);
        }
        if opt_set(f(s[i])).contains(id) {
            assert(s.take(i + 1)[i] == s[i]);
        }
    }
    assert(ids_of(s.take(i + 1), f) =~= ids_of(s.take(i), f) + opt_set(f(s[i])));
}

/// One more item for `union_of`.
proof fn lemma_union_of_step<T>(s: Seq<T>, f: spec_fn(T) -> Set<Seq<char>>, i: int)
    requires
        0 <= i < s.len(),
    ensures
        union_of(s.take(i + 1), f) == union_of(s.take(i), f) + f(s[i]),
{
    assert forall|id: Seq<char>| #[trigger] union_of(s.take(i + 1), f).contains(id) <==> (union_of(s.take(i), f) + f(s[i])).contains(id) by {
        if union_of(s.take(i + 1), f).contains(id) {
            let k = choose|k: int| 0 <= k < s.take(i + 1).len() && f(#[trigger] s.take(i + 1)[k]).contains(id);
            if k < i {
                assert(s.take(i)[k] == s.take(i + 1)[k]);
            }
        }
        if union_of(s.take(i), f).contains(id) {
            let k = choose|k: int| 0 <= k < s.take(i).len() && f(#[trigger] s.take(i)[k]).contains(id);
            assert(s.take(i + 1)[k] == s.take(i)[k]);
        }
        if f(s[i]).contains(id) {
            assert(s.take(i + 1)[i] == s[i]);
        }
    }
    assert(union_of(s.take(i + 1), f) =~= union_of(s.take(i), f) + f(s[i]));
}

/// Files the lib of an object under its identifier, where it has a lib.
fn add_object_lib(d: &mut Plist, o: &ObjectLib)
    ensures
        dict_keys(*final(d)) == dict_keys(*old(d)) + opt_set(lib_id(*o)),
{
    o.lib_has_identifier();
    match o.lib() {
        Some(lib) => match o.identifier() {
            Some(id) => {
                dict_insert_dictionary(d, to_string(id.as_str()), lib.clone());
            },
            None => {},
        },
        None => {},
    }
    assert(dict_keys(*d) =~= dict_keys(*old(d)) + opt_set(lib_id(*o)));
}

/// Files the lib of a guideline under its identifier, where it has a lib.
fn add_guideline_lib(d: &mut Plist, g: &Guideline)
    requires
        g.spec_lib() is Some ==> g.spec_identifier() is Some,
    ensures
        dict_keys(*final(d)) == dict_keys(*old(d)) + opt_set(guideline_lib_id(*g)),
        dict_strings(*final(d)).dom().subset_of(dict_strings(*old(d)).dom()),
{
    match g.lib() {
        Some(lib) => match g.identifier() {
            Some(id) => {
                dict_insert_dictionary(d, to_string(id.as_str()), lib.clone());
            },
            None => {},
        },
        None => {},
    }
    assert(dict_keys(*d) =~= dict_keys(*old(d)) + opt_set(guideline_lib_id(*g)));
}

/// The identifiers of the font info's guidelines that have a lib.
pub open spec fn font_object_lib_ids(fi: FontInfo) -> Set<Seq<char>> {
    match fi.guidelines {
        Some(gs) => ids_of(gs@, |x: Guideline| guideline_lib_id(x)),
        None => Set::empty(),
    }
}

impl FontInfo {
    /// The libs of the font's guidelines, each filed under the guideline's identifier,
    /// as they are written under `public.objectLibs` in the font's lib.
    pub fn dump_object_libs(&self) -> (res: Plist)
        requires
            self.guidelines matches Some(gs) ==> guideline_libs_identified(gs@),
        ensures
            dict_keys(res) == font_object_lib_ids(*self),
            dict_strings(res).dom() == Set::<Seq<char>>::empty(),
    {
        let mut d = new_dict();
        match &self.guidelines {
            Some(gs) => {
                let ghost fg = |x: Guideline| guideline_lib_id(x);
                assert(gs@.take(0) =~= Seq::<Guideline>::empty());
                assert(ids_of(gs@.take(0), fg) =~= Set::empty());
                let mut i: usize = 0;
                while i < gs.len()
                    invariant
                        i <= gs@.len(),
                        guideline_libs_identified(gs@),
                        dict_keys(d) == ids_of(gs@.take(i as int), fg),
                        dict_strings(d).dom() == Set::<Seq<char>>::empty(),
                        fg == (|x: Guideline| guideline_lib_id(x)),
                    decreases gs@.len() - i,
                {
                    assert(gs@[i as int].spec_lib() is Some ==> gs@[i as int].spec_identifier() is Some);
                    add_guideline_lib(&mut d, &gs[i]);
                    proof {
                        lemma_ids_of_step(gs@, fg, i as int);
                        assert(dict_keys(d) =~= ids_of(gs@.take(i + 1), fg));
                        assert(dict_strings(d).dom() =~= Set::<Seq<char>>::empty());
                    }
                    i += 1;
                }
                assert(gs@.take(gs@.len() as int) =~= gs@);
            },
            None => {
                assert(dict_keys(d) =~= font_object_lib_ids(*self));
            },
        }
        d
    }
}

impl Glyph {
    /// The libs of the glyph's objects, each filed under the object's identifier, as
    /// they are written under `public.objectLibs` in the glyph's lib.
    pub fn dump_object_libs(&self) -> (res: Plist)
        requires
            guideline_libs_identified(self.guidelines@),
        ensures
            dict_keys(res) == object_lib_ids(*self),
    {
        let mut d = new_dict();
        let ghost fa = |a: Anchor| lib_id(a.object_lib);
        let ghost fg = |x: Guideline| guideline_lib_id(x);
        let ghost fc = |c: Contour| lib_id(c.object_lib);
        let ghost fp = |p: ContourPoint| lib_id(p.object_lib);
        let ghost fu = |c: Contour| point_ids(c);
        let ghost fm = |c: Component| lib_id(c.object_lib);
        assert(self.anchors@.take(0) =~= Seq::<Anchor>::empty());
        assert(ids_of(self.anchors@.take(0), fa) =~= Set::empty());
        let mut i: usize = 0;
        while i < self.anchors.len()
            invariant
                i <= self.anchors@.len(),
                dict_keys(d) == ids_of(self.anchors@.take(i as int), fa),
                fa == (|a: Anchor| lib_id(a.object_lib)),
            decreases self.anchors@.len() - i,
        {
            add_object_lib(&mut d, &self.anchors[i].object_lib);
            proof {
                lemma_ids_of_step(self.anchors@, fa, i as int);
            }
            i += 1;
        }
        assert(self.anchors@.take(self.anchors@.len() as int) =~= self.anchors@);
        let ghost after_anchors = dict_keys(d);
        assert(self.guidelines@.take(0) =~= Seq::<Guideline>::empty());
        assert(ids_of(self.guidelines@.take(0), fg) =~= Set::empty());
        let mut i: usize = 0;
        while i < self.guidelines.len()
            invariant
                i <= self.guidelines@.len(),
                guideline_libs_identified(self.guidelines@),
                dict_keys(d) == after_anchors + ids_of(self.guidelines@.take(i as int), fg),
                fg == (|x: Guideline| guideline_lib_id(x)),
            decreases self.guidelines@.len() - i,
        {
            assert(self.guidelines@[i as int].spec_lib() is Some ==> self.guidelines@[i as int].spec_identifier() is Some);
            add_guideline_lib(&mut d, &self.guidelines[i]);
            proof {
                lemma_ids_of_step(self.guidelines@, fg, i as int);
                assert(dict_keys(d) =~= after_anchors + ids_of(self.guidelines@.take(i + 1), fg));
            }
            i += 1;
        }
        assert(self.guidelines@.take(self.guidelines@.len() as int) =~= self.guidelines@);
        let ghost after_guidelines = dict_keys(d);
        assert(self.contours@.take(0) =~= Seq::<Contour>::empty());
        assert(ids_of(self.contours@.take(0), fc) =~= Set::empty());
        assert(union_of(self.contours@.take(0), fu) =~= Set::empty());
        let mut i: usize = 0;
        while i < self.contours.len()
            invariant
                i <= self.contours@.len(),
                dict_keys(d) == after_guidelines + ids_of(self.contours@.take(i as int), fc)
                    + union_of(self.contours@.take(i as int), fu),
                fc == (|c: Contour| lib_id(c.object_lib)),
                fp == (|p: ContourPoint| lib_id(p.object_lib)),
                fu == (|c: Contour| point_ids(c)),
            decreases self.contours@.len() - i,
        {
            let contour = &self.contours[i];
            add_object_lib(&mut d, &contour.object_lib);
            let ghost before_points = dict_keys(d);
            assert(contour.points@.take(0) =~= Seq::<ContourPoint>::empty());
            assert(ids_of(contour.points@.take(0), fp) =~= Set::empty());
            assert(before_points =~= before_points + ids_of(contour.points@.take(0), fp));
            let mut j: usize = 0;
            while j < contour.points.len()
                invariant
                    j <= contour.points@.len(),
                    dict_keys(d) == before_points + ids_of(contour.points@.take(j as int), fp),
                    fp == (|p: ContourPoint| lib_id(p.object_lib)),
                decreases contour.points@.len() - j,
            {
                add_object_lib(&mut d, &contour.points[j].object_lib);
                proof {
                    lemma_ids_of_step(contour.points@, fp, j as int);
                    assert(dict_keys(d) =~= before_points + ids_of(contour.points@.take(j + 1), fp));
                }
                j += 1;
            }
            proof {
                assert(contour.points@.take(contour.points@.len() as int) =~= contour.points@);
                assert(ids_of(contour.points@, fp) == point_ids(*contour));
                lemma_ids_of_step(self.contours@, fc, i as int);
                lemma_union_of_step(self.contours@, fu, i as int);
                assert(dict_keys(d) =~= after_guidelines + ids_of(self.contours@.take(i + 1), fc)
                    + union_of(self.contours@.take(i + 1), fu));
            }
            i += 1;
        }
        assert(self.contours@.take(self.contours@.len() as int) =~= self.contours@);
        let ghost after_contours = dict_keys(d);
        assert(self.components@.take(0) =~= Seq::<Component>::empty());
        assert(ids_of(self.components@.take(0), fm) =~= Set::empty());
        let mut i: usize = 0;
        while i < self.components.len()
            invariant
                i <= self.components@.len(),
                dict_keys(d) == after_contours + ids_of(self.components@.take(i as int), fm),
                fm == (|c: Component| lib_id(c.object_lib)),
            decreases self.components@.len() - i,
        {
            add_object_lib(&mut d, &self.components[i].object_lib);
            proof {
                lemma_ids_of_step(self.components@, fm, i as int);
                assert(dict_keys(d) =~= after_contours + ids_of(self.components@.take(i + 1), fm));
            }
            i += 1;
        }
        assert(self.components@.take(self.components@.len() as int) =~= self.components@);
        assert(dict_keys(d) =~= object_lib_ids(*self));
        d
    }
}

/// ASCII text as bytes.
pub open spec fn ascii_seq(s: Seq<char>) -> Seq<u8> {
    s.map_values(|c: char| c as u8)
}

/// True when every character of `s` is ASCII.
pub open spec fn is_ascii_text(s: Seq<char>) -> bool {
    forall|i: int| 0 <= i < s.len() ==> (#[trigger] s[i] as u32) < 128
}

/// The bytes of an ASCII string.
fn ascii_bytes(s: &str) -> (res: Vec<u8>)
    requires
        is_ascii_text(s@),
    ensures
        res@ == ascii_seq(s@),
{
    let chars = crate::text::chars_of(s);
    let mut out: Vec<u8> = Vec::new();
    let mut i: usize = 0;
    while i < chars.len()
        invariant
            i <= chars@.len(),
            chars@ == s@,
            is_ascii_text(s@),
            out@ == ascii_seq(chars@.take(i as int)),
        decreases chars@.len() - i,
    {
        let c = chars[i];
        assert((c as u32) < 128);
        out.push(c as u8);
        assert(ascii_seq(chars@.take(i + 1)) =~= ascii_seq(chars@.take(i as int)).push(c as u8));
        i += 1;
    }
    assert(chars@.take(chars@.len() as int) =~= chars@);
    out
}

/// The first position at or after `i` where `pat` stands in `hay`.
pub open spec fn find_at(hay: Seq<u8>, pat: Seq<u8>, i: int) -> Option<int>
    decreases hay.len() + 1 - i,
{
    if i < 0 || i + pat.len() > hay.len() {
        None
    } else if hay.subrange(i, i + pat.len()) == pat {
        Some(i)
    } else {
        find_at(hay, pat, i + 1)
    }
}

/// Where `find_at` finds the pattern, it stands there, at or after `i`.
pub proof fn lemma_find_at(hay: Seq<u8>, pat: Seq<u8>, i: int)
    ensures
        find_at(hay, pat, i) matches Some(k) ==> i <= k && k + pat.len() <= hay.len()
            && hay.subrange(k, k + pat.len()) == pat,
    decreases hay.len() + 1 - i,
{
    if !(i < 0 || i + pat.len() > hay.len()) && hay.subrange(i, i + pat.len()) != pat {
        lemma_find_at(hay, pat, i + 1);
    }
}

/// Whether `pat` stands in `hay` at position `i`.
fn bytes_at(hay: &Vec<u8>, i: usize, pat: &Vec<u8>) -> (res: bool)
    requires
        i + pat@.len() <= hay@.len(),
    ensures
        res == (hay@.subrange(i as int, i + pat@.len()) == pat@),
{
    let n = hay.len();
    let mut k: usize = 0;
    while k < pat.len()
        invariant
            n == hay@.len(),
            k <= pat@.len(),
            i + pat@.len() <= hay@.len(),
            forall|m: int| 0 <= m < k ==> hay@[i + m] == pat@[m],
        decreases pat@.len() - k,
    {
        let idx: usize = i + k;
        if hay[idx] != pat[k] {
            assert(hay@.subrange(i as int, i + pat@.len())[k as int] != pat@[k as int]);
            return false;
        }
        k += 1;
    }
    assert(hay@.subrange(i as int, i + pat@.len()) =~= pat@);
    true
}

/// The first position where `pat` stands in `hay`.
fn find_bytes(hay: &Vec<u8>, pat: &Vec<u8>) -> (res: Option<usize>)
    ensures
        match res {
            Some(i) => find_at(hay@, pat@, 0) == Some(i as int),
            None => find_at(hay@, pat@, 0) is None,
        },
{
    let n = hay.len();
    let m = pat.len();
    if m > n {
        return None;
    }
    let last = n - m;
    let mut i: usize = 0;
    while i <= last
        invariant
            n == hay@.len(),
            m == pat@.len(),
            last == n - m,
            i <= last + 1,
            find_at(hay@, pat@, 0) == find_at(hay@, pat@, i as int),
        decreases last + 1 - i,
    {
        if bytes_at(hay, i, pat) {
            return Some(i);
        }
        if i == last {
            assert(find_at(hay@, pat@, i + 1) is None);
            return None;
        }
        i += 1;
    }
    None
}

/// The position of the first line feed at or after `i`, or the length of `s`.
pub open spec fn next_newline(s: Seq<u8>, i: int) -> int
    decreases s.len() - i,
{
    if i < 0 || i >= s.len() {
        s.len() as int
    } else if s[i] == 10 {
        i
    } else {
        next_newline(s, i + 1)
    }
}

/// The next line feed stands at or after `i`, within `s`.
pub proof fn lemma_next_newline(s: Seq<u8>, i: int)
    requires
        0 <= i <= s.len(),
    ensures
        i <= next_newline(s, i) <= s.len(),
    decreases s.len() - i,
{
    if i < s.len() && s[i] != 10 {
        lemma_next_newline(s, i + 1);
    }
}

/// A line without the carriage return that ends it, if any.
pub open spec fn strip_cr(l: Seq<u8>) -> Seq<u8> {
    if l.len() > 0 && l.last() == 13 {
        l.drop_last()
    } else {
        l
    }
}

/// The lines of `s` from position `i` on, as `str::lines` gives them: split at line
/// feeds, a carriage return before a line feed dropped, no empty line after a final
/// line feed.
pub open spec fn lines_from(s: Seq<u8>, i: int) -> Seq<Seq<u8>>
    decreases s.len() - i,
{
    if i < 0 || i >= s.len() {
        Seq::empty()
    } else {
        let p = next_newline(s, i);
        proof {
            lemma_next_newline(s, i);
        }
        if p >= s.len() {
            seq![s.subrange(i, s.len() as int)]
        } else {
            seq![strip_cr(s.subrange(i, p))] + lines_from(s, p + 1)
        }
    }
}

/// The opening of the property list element, after which the lib's text starts.
pub open spec fn plist_header() -> Seq<char> {
    "<plist version=\"1.0\">\n"@
}

/// The closing of the property list element, before which the lib's text ends.
pub open spec fn plist_footer() -> Seq<char> {
    "\n</plist>"@
}

/// The item of one line of the lib: on a line of its own, indented two levels.
pub open spec fn lib_line_piece(indent: Seq<u8>, line: Seq<u8>) -> XmlPiece {
    XmlPiece::Raw(seq![10u8] + indent + indent + line)
}

/// The items of the lib section, from the property list document of the lib: the
/// text between the opening and the closing of the property list element, line by
/// line inside a `lib` element; `None` where the document does not have that shape.
pub open spec fn lib_section(xml: Seq<u8>, indent: Seq<u8>) -> Option<Seq<XmlPiece>> {
    let h = find_at(xml, ascii_seq(plist_header()), 0);
    let f = find_at(xml, ascii_seq(plist_footer()), 0);
    if h is Some && f is Some && h->0 + plist_header().len() <= f->0 {
        Some(
            seq![XmlPiece::Start("lib"@, Seq::empty())]
                + lines_from(xml.subrange(h->0 + plist_header().len(), f->0), 0).map_values(
                |l: Seq<u8>| lib_line_piece(indent, l),
            ) + seq![XmlPiece::End("lib"@)],
        )
    } else {
        None
    }
}

/// The bytes of `v` from `a` to `b`.
fn sub_bytes(v: &Vec<u8>, a: usize, b: usize) -> (res: Vec<u8>)
    requires
        a <= b <= v@.len(),
    ensures
        res@ == v@.subrange(a as int, b as int),
{
    let mut out: Vec<u8> = Vec::new();
    let mut i: usize = a;
    while i < b
        invariant
            a <= i <= b <= v@.len(),
            out@ == v@.subrange(a as int, i as int),
        decreases b - i,
    {
        out.push(v[i]);
        assert(v@.subrange(a as int, i + 1) =~= v@.subrange(a as int, i as int).push(v@[i as int]));
        i += 1;
    }
    out
}

/// The item of one line of the lib.
fn lib_line_item(indent: &Vec<u8>, line: Vec<u8>) -> (res: XmlItem)
    ensures
        res.piece() == lib_line_piece(indent@, line@),
{
    let mut bytes: Vec<u8> = Vec::new();
    bytes.push(10u8);
    let mut k: usize = 0;
    while k < 2
        invariant
            k <= 2,
            k == 0 ==> bytes@ == seq![10u8],
            k == 1 ==> bytes@ == seq![10u8] + indent@,
            k == 2 ==> bytes@ == seq![10u8] + indent@ + indent@,
        decreases 2 - k,
    {
        let mut more = indent.clone();
        let ghost before = bytes@;
        bytes.append(&mut more);
        assert(bytes@ =~= before + indent@);
        k += 1;
    }
    let ghost before = bytes@;
    let mut rest = line;
    let ghost l = rest@;
    bytes.append(&mut rest);
    assert(bytes@ =~= seq![10u8] + indent@ + indent@ + l);
    XmlItem::Raw(bytes)
}

/// Appends the items of the lib section taken from the property list document `xml`
/// of the lib, or reports that the document does not have the expected shape.
pub fn write_lib_section(xml: &Vec<u8>, indent: &Vec<u8>, items: &mut Vec<XmlItem>) -> (res: Result<(), ()>)
    ensures
        lib_section(xml@, indent@) is Some <==> res is Ok,
        res is Ok ==> pieces(final(items)@) == pieces(old(items)@) + lib_section(xml@, indent@)->0,
{
    let header_text = "<plist version=\"1.0\">\n";
    let footer_text = "\n</plist>";
    proof {
        reveal_strlit("<plist version=\"1.0\">\n");
        reveal_strlit("\n</plist>");
    }
    let header = ascii_bytes(header_text);
    let footer = ascii_bytes(footer_text);
    let start = match find_bytes(xml, &header) {
        Some(h) => h,
        None => {
            return Err(());
        },
    };
    let end = match find_bytes(xml, &footer) {
        Some(f) => f,
        None => {
            return Err(());
        },
    };
    proof {
        lemma_find_at(xml@, header@, 0);
        lemma_find_at(xml@, footer@, 0);
        assert(header@.len() == plist_header().len());
    }
    let xml_len = xml.len();
    if start + header.len() > end {
        return Err(());
    }
    let body = sub_bytes(xml, start + header.len(), end);
    let ghost f = |l: Seq<u8>| lib_line_piece(indent@, l);
    push_item(items, XmlItem::Start(to_string("lib"), Vec::new()));
    proof {
        assert(attrs_view(Seq::<(String, String)>::empty()) =~= Seq::empty());
    }
    let ghost pre = pieces(items@);
    let ghost mut done: Seq<Seq<u8>> = Seq::empty();
    assert(lines_from(body@, 0) =~= done + lines_from(body@, 0));
    let mut i: usize = 0;
    while i < body.len()
        invariant
            i <= body@.len(),
            lines_from(body@, 0) == done + lines_from(body@, i as int),
            pieces(items@) == pre + done.map_values(f),
            f == (|l: Seq<u8>| lib_line_piece(indent@, l)),
        decreases body@.len() - i,
    {
        let mut p: usize = i;
        while p < body.len() && body[p] != 10u8
            invariant
                i <= p <= body@.len(),
                next_newline(body@, i as int) == next_newline(body@, p as int),
            decreases body@.len() - p,
        {
            p += 1;
        }
        let ghost rest = lines_from(body@, i as int);
        let line = if p < body.len() {
            let mut l = sub_bytes(&body, i, p);
            if l.len() > 0 && l[l.len() - 1] == 13u8 {
                l.pop();
            }
            l
        } else {
            sub_bytes(&body, i, p)
        };
        let ghost line_view = line@;
        push_item(items, lib_line_item(indent, line));
        proof {
            if p < body@.len() {
                assert(line_view =~= strip_cr(body@.subrange(i as int, p as int)));
                assert(rest == seq![line_view] + lines_from(body@, p + 1));
            } else {
                assert(rest == seq![line_view]);
                assert(lines_from(body@, p + 1) =~= Seq::<Seq<u8>>::empty());
            }
            assert((done + seq![line_view]).map_values(f) =~= done.map_values(f).push(lib_line_piece(indent@, line_view)));
            assert(done + seq![line_view] + lines_from(body@, p + 1) =~= done + (seq![line_view] + lines_from(body@, p + 1)));
            done = done + seq![line_view];
        }
        if p < body.len() {
            i = p + 1;
        } else {
            i = body.len();
        }
    }
    proof {
        assert(lines_from(body@, i as int) =~= Seq::<Seq<u8>>::empty());
        assert(done =~= lines_from(body@, 0));
    }
    push_item(items, XmlItem::End(to_string("lib")));
    assert(pieces(items@) =~= pieces(old(items)@) + lib_section(xml@, indent@)->0);
    Ok(())
}

/// The XML declaration, with the quote character chosen.
pub open spec fn decl_text(q: QuoteChar) -> Seq<char> {
    match q {
        QuoteChar::Double => "<?xml version=\"1.0\" encoding=\"UTF-8\"?>\n"@,
        QuoteChar::Single => "<?xml version='1.0' encoding='UTF-8'?>\n"@,
    }
}

/// The advance, written where the width or the height is a normal number; each is
/// left out where it is zero.
pub open spec fn advance_pieces<F: Fn(FloatBits) -> String>(width: FloatBits, height: FloatBits, show: F) -> Seq<XmlPiece> {
    if is_normal_bits(width.0) || is_normal_bits(height.0) {
        seq![XmlPiece::Empty(
            "advance"@,
            attr_if(!is_zero_bits(height.0), "height"@, shown(show, height))
                + attr_if(!is_zero_bits(width.0), "width"@, shown(show, width)),
        )]
    } else {
        Seq::empty()
    }
}

/// The image, where there is one.
pub open spec fn image_pieces<F: Fn(FloatBits) -> String, G: Fn(Float32Bits) -> String>(
    image: Option<Image>,
    show: F,
    show3: G,
) -> Seq<XmlPiece> {
    match image {
        Some(i) => seq![image_piece(i, show, show3)],
        None => Seq::empty(),
    }
}

/// The outline: the contours, then the components, where there are any.
pub open spec fn outline_pieces<F: Fn(FloatBits) -> String>(g: Glyph, show: F) -> Seq<XmlPiece> {
    if g.contours@.len() > 0 || g.components@.len() > 0 {
        seq![XmlPiece::Start("outline"@, Seq::empty())] + contours_pieces(g.contours@, show)
            + g.components@.map_values(|c: Component| component_piece(c, show)) + seq![XmlPiece::End("outline"@)]
    } else {
        Seq::empty()
    }
}

/// What a glif file holds before the lib: the XML declaration, the glyph's start tag,
/// its codepoints, advance, image, outline, anchors and guidelines.
pub open spec fn glyph_head_pieces<F: Fn(FloatBits) -> String, G: Fn(Float32Bits) -> String>(
    g: Glyph,
    quote: QuoteChar,
    show: F,
    show3: G,
) -> Seq<XmlPiece> {
    seq![
        XmlPiece::Raw(ascii_seq(decl_text(quote))),
        XmlPiece::Start("glyph"@, seq![("name"@, g.name@), ("format"@, g.format.spec_as_str())]),
    ] + g.codepoints@.map_values(|c: char| unicode_piece(c)) + advance_pieces(g.width, g.height, show)
        + image_pieces(g.image, show, show3) + outline_pieces(g, show)
        + g.anchors@.map_values(|a: Anchor| anchor_piece(a, show, show3))
        + g.guidelines@.map_values(|x: Guideline| guideline_piece(x, show, show3))
}

/// What a glif file holds after the lib: the note, the glyph's end tag and a line feed.
pub open spec fn glyph_tail_pieces(g: Glyph) -> Seq<XmlPiece> {
    (match g.note {
        Some(n) => seq![XmlPiece::Start("note"@, Seq::empty()), XmlPiece::Text(n@), XmlPiece::End("note"@)],
        None => Seq::empty(),
    }) + seq![XmlPiece::End("glyph"@), XmlPiece::Raw(seq![10u8])]
}

/// The keys of the lib as written: those of the glyph's lib, and `public.objectLibs`
/// where any object of the glyph has a lib.
pub open spec fn written_lib_keys(g: Glyph) -> Set<Seq<char>> {
    if object_lib_ids(g) == Set::<Seq<char>>::empty() {
        dict_keys(g.lib)
    } else {
        dict_keys(g.lib).insert(PUBLIC_OBJECT_LIBS_KEY@)
    }
}

/// True when `part` is the lib section of a glif file written with `opts`: nothing
/// where the written lib has no key, else the section taken from the property list
/// document of a dictionary with the written lib's keys.
pub open spec fn is_lib_part(g: Glyph, opts: WriteOptions, part: Seq<XmlPiece>) -> bool {
    if written_lib_keys(g) == Set::<Seq<char>>::empty() {
        part == Seq::<XmlPiece>::empty()
    } else {
        exists|d: Plist|
            dict_keys(d) == written_lib_keys(g) && lib_section(
                #[trigger] plist_xml(d, opts.spec_indent_char(), opts.spec_indent().len() as usize),
                ascii_seq(opts.spec_indent()),
            ) == Some(part)
    }
}

/// Appends the items of `more`.
fn push_items(items: &mut Vec<XmlItem>, more: Vec<XmlItem>)
    ensures
        pieces(final(items)@) == pieces(old(items)@) + pieces(more@),
{
    let ghost added = more@;
    let mut more = more;
    items.append(&mut more);
    assert(pieces(items@) =~= pieces(old(items)@) + pieces(added));
}

impl Glyph {
    /// The items of the glyph's codepoints.
    fn codepoint_items(&self) -> (res: Vec<XmlItem>)
        ensures
            pieces(res@) == self.codepoints@.map_values(|c: char| unicode_piece(c)),
    {
        let mut items: Vec<XmlItem> = Vec::new();
        let cps = self.codepoints.iter();
        let mut i: usize = 0;
        while i < cps.len()
            invariant
                i <= cps@.len(),
                cps@ == self.codepoints@,
                pieces(items@) == cps@.take(i as int).map_values(|c: char| unicode_piece(c)),
            decreases cps@.len() - i,
        {
            push_item(&mut items, char_to_event(cps[i]));
            assert(cps@.take(i + 1).map_values(|c: char| unicode_piece(c))
                =~= cps@.take(i as int).map_values(|c: char| unicode_piece(c)).push(unicode_piece(cps@[i as int])));
            i += 1;
        }
        assert(cps@.take(cps@.len() as int) =~= cps@);
        items
    }

    /// The items of the glyph's advance.
    fn advance_items<F: Fn(FloatBits) -> String>(&self, show: &F) -> (res: Vec<XmlItem>)
        requires
            shows_one_way(*show),
        ensures
            pieces(res@) == advance_pieces(self.width, self.height, *show),
    {
        let mut items: Vec<XmlItem> = Vec::new();
        if is_normal(self.width) || is_normal(self.height) {
            let mut attrs: Vec<(String, String)> = Vec::new();
            assert(attrs_view(attrs@) =~= Seq::<(Seq<char>, Seq<char>)>::empty());
            push_number_if(&mut attrs, !is_zero(self.height), "height", self.height, show);
            push_number_if(&mut attrs, !is_zero(self.width), "width", self.width, show);
            push_item(&mut items, XmlItem::Empty(to_string("advance"), attrs));
        }
        assert(pieces(items@) =~= advance_pieces(self.width, self.height, *show));
        items
    }

    /// The items of the glyph's outline.
    fn outline_items<F: Fn(FloatBits) -> String>(&self, show: &F) -> (res: Vec<XmlItem>)
        requires
            shows_one_way(*show),
        ensures
            pieces(res@) == outline_pieces(*self, *show),
    {
        let mut items: Vec<XmlItem> = Vec::new();
        if self.contours.len() > 0 || self.components.len() > 0 {
            push_item(&mut items, XmlItem::Start(to_string("outline"), Vec::new()));
            assert(attrs_view(Seq::<(String, String)>::empty()) =~= Seq::empty());
            let ghost q0 = pieces(items@);
            let mut k: usize = 0;
            assert(contours_pieces(self.contours@.take(0), *show) =~= Seq::empty());
            while k < self.contours.len()
                invariant
                    k <= self.contours@.len(),
                    shows_one_way(*show),
                    pieces(items@) == q0 + contours_pieces(self.contours@.take(k as int), *show),
                decreases self.contours@.len() - k,
            {
                self.contours[k].write_xml(&mut items, show);
                assert(self.contours@.take(k + 1).drop_last() =~= self.contours@.take(k as int));
                assert(self.contours@.take(k + 1).last() == self.contours@[k as int]);
                k += 1;
            }
            assert(self.contours@.take(self.contours@.len() as int) =~= self.contours@);
            let ghost q1 = pieces(items@);
            let mut k: usize = 0;
            while k < self.components.len()
                invariant
                    k <= self.components@.len(),
                    shows_one_way(*show),
                    pieces(items@) == q1 + self.components@.take(k as int).map_values(|c: Component| component_piece(c, *show)),
                decreases self.components@.len() - k,
            {
                push_item(&mut items, self.components[k].to_event(show));
                assert(self.components@.take(k + 1).map_values(|c: Component| component_piece(c, *show))
                    =~= self.components@.take(k as int).map_values(|c: Component| component_piece(c, *show)).push(
                    component_piece(self.components@[k as int], *show),
                ));
                k += 1;
            }
            assert(self.components@.take(self.components@.len() as int) =~= self.components@);
            push_item(&mut items, XmlItem::End(to_string("outline")));
        }
        assert(pieces(items@) =~= outline_pieces(*self, *show));
        items
    }

    /// The items of the glyph's anchors and guidelines.
    fn anchor_and_guideline_items<F: Fn(FloatBits) -> String, G: Fn(Float32Bits) -> String>(
        &self,
        show: &F,
        show3: &G,
    ) -> (res: Vec<XmlItem>)
        requires
            shows_one_way(*show),
            shows_one_way(*show3),
        ensures
            pieces(res@) == self.anchors@.map_values(|a: Anchor| anchor_piece(a, *show, *show3))
                + self.guidelines@.map_values(|x: Guideline| guideline_piece(x, *show, *show3)),
    {
        let mut items: Vec<XmlItem> = Vec::new();
        let mut k: usize = 0;
        while k < self.anchors.len()
            invariant
                k <= self.anchors@.len(),
                shows_one_way(*show),
                shows_one_way(*show3),
                pieces(items@) == self.anchors@.take(k as int).map_values(|a: Anchor| anchor_piece(a, *show, *show3)),
            decreases self.anchors@.len() - k,
        {
            push_item(&mut items, self.anchors[k].to_event(show, show3));
            assert(self.anchors@.take(k + 1).map_values(|a: Anchor| anchor_piece(a, *show, *show3))
                =~= self.anchors@.take(k as int).map_values(|a: Anchor| anchor_piece(a, *show, *show3)).push(
                anchor_piece(self.anchors@[k as int], *show, *show3),
            ));
            k += 1;
        }
        assert(self.anchors@.take(self.anchors@.len() as int) =~= self.anchors@);
        let ghost p5 = pieces(items@);
        let mut k: usize = 0;
        while k < self.guidelines.len()
            invariant
                k <= self.guidelines@.len(),
                shows_one_way(*show),
                shows_one_way(*show3),
                pieces(items@) == p5 + self.guidelines@.take(k as int).map_values(|x: Guideline| guideline_piece(x, *show, *show3)),
            decreases self.guidelines@.len() - k,
        {
            push_item(&mut items, self.guidelines[k].to_event(show, show3));
            assert(self.guidelines@.take(k + 1).map_values(|x: Guideline| guideline_piece(x, *show, *show3))
                =~= self.guidelines@.take(k as int).map_values(|x: Guideline| guideline_piece(x, *show, *show3)).push(
                guideline_piece(self.guidelines@[k as int], *show, *show3),
            ));
            k += 1;
        }
        assert(self.guidelines@.take(self.guidelines@.len() as int) =~= self.guidelines@);
        items
    }

    /// The items of the glif file before the lib.
    fn head_items<F: Fn(FloatBits) -> String, G: Fn(Float32Bits) -> String>(
        &self,
        quote: QuoteChar,
        show: &F,
        show3: &G,
    ) -> (res: Vec<XmlItem>)
        requires
            shows_one_way(*show),
            shows_one_way(*show3),
        ensures
            pieces(res@) == glyph_head_pieces(*self, quote, *show, *show3),
    {
        let mut items: Vec<XmlItem> = Vec::new();
        let decl = match quote {
            QuoteChar::Double => "<?xml version=\"1.0\" encoding=\"UTF-8\"?>\n",
            QuoteChar::Single => "<?xml version='1.0' encoding='UTF-8'?>\n",
        };
        proof {
            reveal_strlit("<?xml version=\"1.0\" encoding=\"UTF-8\"?>\n");
            reveal_strlit("<?xml version='1.0' encoding='UTF-8'?>\n");
        }
        push_item(&mut items, XmlItem::Raw(ascii_bytes(decl)));
        let mut attrs: Vec<(String, String)> = Vec::new();
        push_attr(&mut attrs, "name", to_string(self.name.as_str()));
        push_attr(&mut attrs, "format", to_string(self.format.as_str()));
        assert(attrs_view(attrs@) =~= seq![("name"@, self.name@), ("format"@, self.format.spec_as_str())]);
        push_item(&mut items, XmlItem::Start(to_string("glyph"), attrs));
        let ghost a = pieces(items@);
        let ghost b = self.codepoints@.map_values(|c: char| unicode_piece(c));
        let ghost c = advance_pieces(self.width, self.height, *show);
        let ghost d = image_pieces(self.image, *show, *show3);
        let ghost e = outline_pieces(*self, *show);
        let ghost f = self.anchors@.map_values(|x: Anchor| anchor_piece(x, *show, *show3));
        let ghost g = self.guidelines@.map_values(|x: Guideline| guideline_piece(x, *show, *show3));
        push_items(&mut items, self.codepoint_items());
        push_items(&mut items, self.advance_items(show));
        let mut image_items: Vec<XmlItem> = Vec::new();
        match &self.image {
            Some(image) => {
                push_item(&mut image_items, image.to_event(show, show3));
            },
            None => {},
        }
        assert(pieces(image_items@) =~= d);
        push_items(&mut items, image_items);
        push_items(&mut items, self.outline_items(show));
        push_items(&mut items, self.anchor_and_guideline_items(show, show3));
        proof {
            assert(pieces(items@) == a + b + c + d + e + (f + g));
            assert(a + b + c + d + e + (f + g) =~= a + b + c + d + e + f + g);
        }
        items
    }

    /// The items of the glif file after the lib.
    fn tail_items(&self) -> (res: Vec<XmlItem>)
        ensures
            pieces(res@) == glyph_tail_pieces(*self),
    {
        let mut items: Vec<XmlItem> = Vec::new();
        match &self.note {
            Some(note) => {
                push_item(&mut items, XmlItem::Start(to_string("note"), Vec::new()));
                push_item(&mut items, XmlItem::Text(note.clone()));
                push_item(&mut items, XmlItem::End(to_string("note")));
            },
            None => {},
        }
        assert(attrs_view(Seq::<(String, String)>::empty()) =~= Seq::empty());
        push_item(&mut items, XmlItem::End(to_string("glyph")));
        let mut nl: Vec<u8> = Vec::new();
        nl.push(10u8);
        push_item(&mut items, XmlItem::Raw(nl));
        assert(pieces(items@) =~= glyph_tail_pieces(*self));
        items
    }
}

/// True when `bytes` are what saving the glyph writes: its lib leaves
/// `public.objectLibs` to the library, and the bytes are its glif document, with a lib
/// section that [`is_lib_part`] admits.
pub open spec fn is_saved_glif<F: Fn(FloatBits) -> String, G: Fn(Float32Bits) -> String>(
    g: Glyph,
    opts: WriteOptions,
    show: F,
    show3: G,
    bytes: Seq<u8>,
) -> bool {
    &&& !dict_keys(g.lib).contains(PUBLIC_OBJECT_LIBS_KEY@)
    &&& exists|part: Seq<XmlPiece>|
        #[trigger] is_lib_part(g, opts, part) && bytes == xml_written(
            opts.spec_indent_char(),
            opts.spec_indent().len() as usize,
            glyph_head_pieces(g, opts.spec_quote(), show, show3) + part + glyph_tail_pieces(g),
        )
}

impl Glyph {
    /// Serializes the glyph into the bytes of a glif file, laid out by `opts`, with
    /// numbers written by `show` and color channels (to three decimals) by `show3`.
    ///
    /// The order of elements and attributes follows ufonormalizer where possible. The
    /// libs of the glyph's objects are written into the glyph's lib, under
    /// `public.objectLibs`, with the keys of every dictionary in it sorted.
    pub fn encode_xml_with_options<F: Fn(FloatBits) -> String, G: Fn(Float32Bits) -> String>(
        &self,
        opts: &WriteOptions,
        show: &F,
        show3: &G,
    ) -> (res: Result<Vec<u8>, GlifWriteError>)
        requires
            shows_one_way(*show),
            shows_one_way(*show3),
            guideline_libs_identified(self.guidelines@),
        ensures
            res matches Ok(bytes) ==> exists|part: Seq<XmlPiece>|
                #[trigger] is_lib_part(*self, *opts, part) && bytes@ == xml_written(
                    opts.spec_indent_char(),
                    opts.spec_indent().len() as usize,
                    glyph_head_pieces(*self, opts.spec_quote(), *show, *show3) + part + glyph_tail_pieces(*self),
                ),
            res matches Err(e) ==> ((e is Plist || e is InternalLibWriteError) && written_lib_keys(*self)
                != Set::<Seq<char>>::empty()),
            written_lib_keys(*self) == Set::<Seq<char>>::empty() ==> res is Ok,
            res matches Err(GlifWriteError::InternalLibWriteError) ==> exists|d: Plist|
                dict_keys(d) == written_lib_keys(*self) && #[trigger] lib_section(
                    plist_xml(d, opts.spec_indent_char(), opts.spec_indent().len() as usize),
                    ascii_seq(opts.spec_indent()),
                ) is None,
    {
        let ic = opts.whitespace_char();
        let n = opts.whitespace_count();
        let mut items = self.head_items(opts.quote_style(), show, show3);
        let ghost head = pieces(items@);
        let mut lib = self.lib.clone();
        let object_libs = self.dump_object_libs();
        if !dict_is_empty(&object_libs) {
            dict_insert_dictionary(&mut lib, to_string(PUBLIC_OBJECT_LIBS_KEY), object_libs);
        }
        assert(dict_keys(lib) =~= written_lib_keys(*self));
        let ghost mut part: Seq<XmlPiece> = Seq::empty();
        if !dict_is_empty(&lib) {
            sort_keys_recursively(&mut lib);
            let xml = match dict_to_xml(&lib, ic, n) {
                Ok(x) => x,
                Err(e) => {
                    return Err(GlifWriteError::Plist(e));
                },
            };
            let indent_text = opts.indent_str();
            proof {
                assert(is_ascii_text(indent_text@)) by {
                    assert forall|i: int| 0 <= i < indent_text@.len() implies (#[trigger] indent_text@[i] as u32) < 128 by {
                        assert(indent_text@[i] == indent_text@[0]);
                    }
                }
            }
            let indent = ascii_bytes(indent_text);
            match write_lib_section(&xml, &indent, &mut items) {
                Ok(()) => {},
                Err(()) => {
                    assert(lib_section(
                        plist_xml(lib, opts.spec_indent_char(), opts.spec_indent().len() as usize),
                        ascii_seq(opts.spec_indent()),
                    ) is None);
                    return Err(GlifWriteError::InternalLibWriteError);
                },
            }
            proof {
                part = lib_section(xml@, indent@)->0;
                assert(is_lib_part(*self, *opts, part));
            }
        }
        assert(pieces(items@) == head + part);
        push_items(&mut items, self.tail_items());
        let mut w = new_writer(ic, n);
        match write_items(&mut w, &items) {
            Ok(()) => {},
            Err(e) => {
                return Err(GlifWriteError::Xml(e));
            },
        }
        assert(writer_log(w) =~= glyph_head_pieces(*self, opts.spec_quote(), *show, *show3) + part + glyph_tail_pieces(*self));
        assert(is_lib_part(*self, *opts, part));
        Ok(writer_bytes(w))
    }

    /// Serializes the glyph into the bytes of a glif file, with one tab of indentation
    /// and double quotes.
    pub fn encode_xml<F: Fn(FloatBits) -> String, G: Fn(Float32Bits) -> String>(&self, show: &F, show3: &G) -> (res: Result<Vec<u8>, GlifWriteError>)
        requires
            shows_one_way(*show),
            shows_one_way(*show3),
            guideline_libs_identified(self.guidelines@),
        ensures
            res matches Ok(bytes) ==> exists|o: WriteOptions, part: Seq<XmlPiece>|
                o.spec_indent() == seq!['\t'] && o.spec_indent_char() == 9 && #[trigger] is_lib_part(*self, o, part)
                    && bytes@ == xml_written(
                    9u8,
                    1usize,
                    glyph_head_pieces(*self, QuoteChar::Double, *show, *show3) + part + glyph_tail_pieces(*self),
                ),
            res matches Err(e) ==> ((e is Plist || e is InternalLibWriteError) && written_lib_keys(*self)
                != Set::<Seq<char>>::empty()),
            written_lib_keys(*self) == Set::<Seq<char>>::empty() ==> res is Ok,
    {
        let opts = WriteOptions::default();
        self.encode_xml_with_options(&opts, show, show3)
    }

    /// The bytes of the glif file that saving the glyph writes: refused where the
    /// glyph's lib holds the `public.objectLibs` key, which the library manages.
    pub fn encode_for_saving<F: Fn(FloatBits) -> String, G: Fn(Float32Bits) -> String>(
        &self,
        opts: &WriteOptions,
        show: &F,
        show3: &G,
    ) -> (res: Result<Vec<u8>, GlifWriteError>)
        requires
            shows_one_way(*show),
            shows_one_way(*show3),
            guideline_libs_identified(self.guidelines@),
        ensures
            dict_keys(self.lib).contains(PUBLIC_OBJECT_LIBS_KEY@) ==> res matches Err(
                GlifWriteError::PreexistingPublicObjectLibsKey,
            ),
            res matches Ok(bytes) ==> is_saved_glif(*self, *opts, *show, *show3, bytes@),
    {
        if dict_contains_key(&self.lib, PUBLIC_OBJECT_LIBS_KEY) {
            return Err(GlifWriteError::PreexistingPublicObjectLibsKey);
        }
        self.encode_xml_with_options(opts, show, show3)
    }
}

/// The value of the first attribute named `key`, if there is one.
pub open spec fn attr_value(attrs: AttrSeq, key: Seq<char>) -> Option<Seq<char>>
    decreases attrs.len(),
{
    if attrs.len() == 0 {
        None
    } else if attrs[0].0 == key {
        Some(attrs[0].1)
    } else {
        attr_value(attrs.drop_first(), key)
    }
}

/// In attributes written one list after another, the first with a name is found in
/// the first list that has it.
proof fn lemma_attr_value_concat(a: AttrSeq, b: AttrSeq, key: Seq<char>)
    ensures
        attr_value(a + b, key) == match attr_value(a, key) {
            Some(v) => Some(v),
            None => attr_value(b, key),
        },
    decreases a.len(),
{
    if a.len() > 0 {
        assert((a + b).drop_first() =~= a.drop_first() + b);
        lemma_attr_value_concat(a.drop_first(), b, key);
    } else {
        assert(a + b =~= b);
    }
}

/// The written `point` element says what the point is: its `name` attribute is the
/// point's name where it has one (and there is none where it has none), `x` and `y`
/// are its coordinates as `show` writes them, `type` is its type unless it is an
/// off-curve point, `smooth` is `yes` where it is smooth, and `identifier` is its
/// identifier where it has one. No name, coordinate or type is lost on writing.
pub proof fn law_point_element_says_the_point<F: Fn(FloatBits) -> String>(p: ContourPoint, show: F)
    ensures
        point_piece(p, show) matches XmlPiece::Empty(tag, attrs) && tag == "point"@ && attr_value(attrs, "name"@)
            == opt_view(p.name) && attr_value(attrs, "x"@) == Some(shown(show, p.x)) && attr_value(attrs, "y"@) == Some(
            shown(show, p.y),
        ) && attr_value(attrs, "type"@) == (if p.typ != PointType::OffCurve {
            Some(p.typ.spec_as_str())
        } else {
            None
        }) && attr_value(attrs, "smooth"@) == (if p.smooth {
            Some("yes"@)
        } else {
            None
        }) && attr_value(attrs, "identifier"@) == opt_id(p.object_lib.spec_identifier()),
{
    reveal_strlit("name");
    reveal_strlit("x");
    reveal_strlit("y");
    reveal_strlit("type");
    reveal_strlit("smooth");
    reveal_strlit("identifier");
    let a1 = opt_attr("name"@, opt_view(p.name));
    let a2 = seq![("x"@, shown(show, p.x)), ("y"@, shown(show, p.y))];
    let a3 = attr_if(p.typ != PointType::OffCurve, "type"@, p.typ.spec_as_str());
    let a4 = attr_if(p.smooth, "smooth"@, "yes"@);
    let a5 = opt_attr("identifier"@, opt_id(p.object_lib.spec_identifier()));
    let keys = seq!["name"@, "x"@, "y"@, "type"@, "smooth"@, "identifier"@];
    assert forall|k: int| 0 <= k < keys.len() implies {
        let key = #[trigger] keys[k];
        &&& attr_value(a1 + a2 + a3 + a4 + a5, key) == match attr_value(a1, key) {
            Some(v) => Some(v),
            None => match attr_value(a2, key) {
                Some(v) => Some(v),
                None => match attr_value(a3, key) {
                    Some(v) => Some(v),
                    None => match attr_value(a4, key) {
                        Some(v) => Some(v),
                        None => attr_value(a5, key),
                    },
                },
            },
        }
    } by {
        let key = keys[k];
        lemma_attr_value_concat(a1 + a2 + a3 + a4, a5, key);
        lemma_attr_value_concat(a1 + a2 + a3, a4, key);
        lemma_attr_value_concat(a1 + a2, a3, key);
        lemma_attr_value_concat(a1, a2, key);
    }
    assert(keys[0] == "name"@);
    assert(keys[1] == "x"@);
    assert(keys[2] == "y"@);
    assert(keys[3] == "type"@);
    assert(keys[4] == "smooth"@);
    assert(keys[5] == "identifier"@);
    reveal_with_fuel(attr_value, 3);
    assert(a2.drop_first() =~= seq![("y"@, shown(show, p.y))]);
    assert(seq![("y"@, shown(show, p.y))].drop_first() =~= Seq::<(Seq<char>, Seq<char>)>::empty());
    assert(a1.len() > 0 ==> a1.drop_first() =~= Seq::<(Seq<char>, Seq<char>)>::empty());
    assert(a3.len() > 0 ==> a3.drop_first() =~= Seq::<(Seq<char>, Seq<char>)>::empty());
    assert(a4.len() > 0 ==> a4.drop_first() =~= Seq::<(Seq<char>, Seq<char>)>::empty());
    assert(a5.len() > 0 ==> a5.drop_first() =~= Seq::<(Seq<char>, Seq<char>)>::empty());
    assert("name"@ != "type"@) by {
        assert("name"@[0] != "type"@[0]);
    }
    assert("x"@ != "y"@) by {
        assert("x"@[0] != "y"@[0]);
    }
    assert("name"@.len() == 4 && "smooth"@.len() == 6 && "x"@.len() == 1 && "y"@.len() == 1);
    assert("name"@ != "x"@ && "name"@ != "y"@ && "smooth"@ != "x"@ && "smooth"@ != "y"@);
    assert("type"@.len() == 4 && "identifier"@.len() == 10);
    assert("type"@ != "x"@ && "type"@ != "y"@ && "type"@ != "smooth"@ && "type"@ != "identifier"@);
    assert("identifier"@ != "name"@ && "identifier"@ != "x"@ && "identifier"@ != "y"@ && "identifier"@ != "smooth"@);
    assert("smooth"@ != "name"@);
    assert(attr_value(a2, "x"@) == Some(shown(show, p.x)));
    assert(attr_value(a2, "y"@) == Some(shown(show, p.y)));
    assert(attr_value(a2, "name"@) is None);
    assert(attr_value(a2, "type"@) is None);
    assert(attr_value(a2, "smooth"@) is None);
    assert(attr_value(a2, "identifier"@) is None);
    let attrs = a1 + a2 + a3 + a4 + a5;
    assert(point_piece(p, show) == XmlPiece::Empty("point"@, attrs));
    assert(attr_value(attrs, keys[0]) == opt_view(p.name));
    assert(attr_value(attrs, keys[1]) == Some(shown(show, p.x)));
    assert(attr_value(attrs, keys[2]) == Some(shown(show, p.y)));
    assert(attr_value(attrs, keys[3]) == (if p.typ != PointType::OffCurve {
        Some(p.typ.spec_as_str())
    } else {
        None
    }));
    assert(attr_value(attrs, keys[4]) == (if p.smooth {
        Some("yes"@)
    } else {
        None
    }));
    assert(attr_value(attrs, keys[5]) == opt_id(p.object_lib.spec_identifier()));
}

/// The written `anchor` element says what the anchor is: its `name` attribute is the
/// anchor's name where it has one, `x` and `y` are its coordinates as `show` writes
/// them, and `identifier` is its identifier where it has one.
pub proof fn law_anchor_element_says_the_anchor<F: Fn(FloatBits) -> String, G: Fn(Float32Bits) -> String>(
    a: Anchor,
    show: F,
    show3: G,
)
    ensures
        anchor_piece(a, show, show3) matches XmlPiece::Empty(tag, attrs) && tag == "anchor"@ && attr_value(attrs, "name"@)
            == opt_view(a.name) && attr_value(attrs, "x"@) == Some(shown(show, a.x)) && attr_value(attrs, "y"@) == Some(
            shown(show, a.y),
        ) && attr_value(attrs, "identifier"@) == opt_id(a.object_lib.spec_identifier()),
{
    reveal_strlit("name");
    reveal_strlit("x");
    reveal_strlit("y");
    reveal_strlit("color");
    reveal_strlit("identifier");
    reveal_with_fuel(attr_value, 3);
    let a1 = opt_attr("name"@, opt_view(a.name));
    let a2 = seq![("x"@, shown(show, a.x)), ("y"@, shown(show, a.y))];
    let a3 = opt_attr("color"@, opt_color(a.color, show3));
    let a4 = opt_attr("identifier"@, opt_id(a.object_lib.spec_identifier()));
    let attrs = a1 + a2 + a3 + a4;
    assert(anchor_piece(a, show, show3) == XmlPiece::Empty("anchor"@, attrs));
    assert("name"@.len() == 4 && "x"@.len() == 1 && "y"@.len() == 1 && "color"@.len() == 5 && "identifier"@.len() == 10);
    assert("x"@ != "y"@) by {
        assert("x"@[0] != "y"@[0]);
    }
    assert(a2.drop_first() =~= seq![("y"@, shown(show, a.y))]);
    assert(seq![("y"@, shown(show, a.y))].drop_first() =~= Seq::<(Seq<char>, Seq<char>)>::empty());
    assert(a1.len() > 0 ==> a1.drop_first() =~= Seq::<(Seq<char>, Seq<char>)>::empty());
    assert(a3.len() > 0 ==> a3.drop_first() =~= Seq::<(Seq<char>, Seq<char>)>::empty());
    assert(a4.len() > 0 ==> a4.drop_first() =~= Seq::<(Seq<char>, Seq<char>)>::empty());
    let keys = seq!["name"@, "x"@, "y"@, "identifier"@];
    assert forall|k: int| 0 <= k < keys.len() implies attr_value(attrs, #[trigger] keys[k]) == match attr_value(a1, keys[k]) {
        Some(v) => Some(v),
        None => match attr_value(a2, keys[k]) {
            Some(v) => Some(v),
            None => match attr_value(a3, keys[k]) {
                Some(v) => Some(v),
                None => attr_value(a4, keys[k]),
            },
        },
    } by {
        lemma_attr_value_concat(a1 + a2 + a3, a4, keys[k]);
        lemma_attr_value_concat(a1 + a2, a3, keys[k]);
        lemma_attr_value_concat(a1, a2, keys[k]);
    }
    assert(keys[0] == "name"@ && keys[1] == "x"@ && keys[2] == "y"@ && keys[3] == "identifier"@);
    assert(attr_value(attrs, keys[0]) == opt_view(a.name));
    assert(attr_value(attrs, keys[1]) == Some(shown(show, a.x)));
    assert(attr_value(attrs, keys[2]) == Some(shown(show, a.y)));
    assert(attr_value(attrs, keys[3]) == opt_id(a.object_lib.spec_identifier()));
}

/// The written `component` element names the component's base glyph first.
pub proof fn law_component_element_names_its_base<F: Fn(FloatBits) -> String>(c: Component, show: F)
    ensures
        component_piece(c, show) matches XmlPiece::Empty(tag, attrs) && tag == "component"@ && attr_value(attrs, "base"@)
            == Some(c.base@),
{
    let attrs = seq![("base"@, c.base@)] + transform_attrs(c.transform, show) + opt_attr(
        "identifier"@,
        opt_id(c.object_lib.spec_identifier()),
    );
    assert(attrs[0] == ("base"@, c.base@));
}

/// The written `guideline` element carries the guideline's name where it has one.
pub proof fn law_guideline_element_names_it<F: Fn(FloatBits) -> String, G: Fn(Float32Bits) -> String>(
    g: Guideline,
    show: F,
    show3: G,
)
    ensures
        guideline_piece(g, show, show3) matches XmlPiece::Empty(tag, attrs) && tag == "guideline"@ && (g.spec_name() matches Some(
            n,
        ) ==> attr_value(attrs, "name"@) == Some(n@)),
{
    let attrs = opt_attr("name"@, opt_view(g.spec_name())) + line_attrs(g.spec_line(), show) + opt_attr(
        "color"@,
        opt_color(g.spec_color(), show3),
    ) + opt_attr("identifier"@, opt_id(g.spec_identifier()));
    if let Some(n) = g.spec_name() {
        assert(attrs[0] == ("name"@, n@));
    }
}

/// A contour is written as a `contour` element holding one `point` element for each
/// of its points, in order: none is dropped, added or moved.
pub proof fn law_contour_writes_every_point<F: Fn(FloatBits) -> String>(c: Contour, show: F)
    ensures
        contour_pieces(c, show).len() == c.points@.len() + 2,
        contour_pieces(c, show)[0] matches XmlPiece::Start(tag, _) && tag == "contour"@,
        contour_pieces(c, show)[c.points@.len() + 1int] == XmlPiece::End("contour"@),
        forall|j: int| 0 <= j < c.points@.len() ==> #[trigger] contour_pieces(c, show)[j + 1] == point_piece(c.points@[j], show),
{
    let ps = c.points@.map_values(|p: ContourPoint| point_piece(p, show));
    assert forall|j: int| 0 <= j < c.points@.len() implies #[trigger] contour_pieces(c, show)[j + 1] == point_piece(
        c.points@[j],
        show,
    ) by {
        assert(ps[j] == point_piece(c.points@[j], show));
    }
}

} // verus!
