//! The attributes of the elements of a glif file.
//!
//! Each element's attributes are read in the order in which they stand; each sets
//! one field, and a later one overrides an earlier one of the same name. The first
//! failure is reported. Numbers are read by the caller's readers, which take the
//! attribute's text and give the bits of the float it spells, if it spells one.

use vstd::prelude::*;

use crate::error::{ErrorKind, GlifLoadError};
use crate::glyph::xml::{
    attribute_text, attribute_views, is_ascii_name, name_is, read_attributes, xml_attribute_text,
    xml_tag_attributes,
};
use crate::glyph::{AffineTransform, GlifVersion, PointType};
use crate::identifier::{Identifier, spec_is_valid_identifier};
use crate::name::{Name, spec_is_valid_name};
use crate::numbers::{char_from_u32, f32_bits_in_unit, f64_bits_in_degrees, is_scalar_value, parse_hex_u32, spec_hex_u32};
use crate::shared_types::{Color, Float32Bits, FloatBits};
use crate::text::{spec_split, split_on, str_eq};

verus! {

/// The elements whose attributes are read.
#[derive(Debug, Clone, Copy, PartialEq, Eq, Structural)]
pub enum ElementKind {
    /// The root `glyph` element.
    Glyph,
    /// A `contour` element.
    Contour,
    /// A `point` element.
    Point,
    /// A `component` element.
    Component,
    /// An `anchor` element.
    Anchor,
    /// A `guideline` element.
    Guideline,
    /// An `image` element.
    Image,
    /// The `advance` element.
    Advance,
    /// A `unicode` element.
    Unicode,
}

/// The fields that the attributes of an element set.
#[derive(Debug)]
pub struct ElementAttrs {
    /// `x`.
    pub x: Option<FloatBits>,
    /// `y`.
    pub y: Option<FloatBits>,
    /// A guideline's `angle`.
    pub angle: Option<FloatBits>,
    /// The advance's `width`.
    pub width: FloatBits,
    /// The advance's `height`.
    pub height: FloatBits,
    /// The `name` of a point, an anchor or a guideline.
    pub name: Option<String>,
    /// `color`.
    pub color: Option<Color>,
    /// `identifier`.
    pub identifier: Option<Identifier>,
    /// A point's `type`.
    pub typ: PointType,
    /// A point's `smooth`.
    pub smooth: bool,
    /// The transformation of a component or an image.
    pub transform: AffineTransform,
    /// A component's `base`.
    pub base: Option<Name>,
    /// An image's `fileName`.
    pub file_name: Option<String>,
    /// The code points of a `unicode` element's `hex` attributes, in order.
    pub codepoints: Vec<char>,
    /// The glyph's `name`.
    pub glyph_name: Option<Name>,
    /// The glyph's `format`.
    pub format: Option<GlifVersion>,
}

/// The fields of [`ElementAttrs`], as values.
pub struct AttrsView {
    pub x: Option<u64>,
    pub y: Option<u64>,
    pub angle: Option<u64>,
    pub width: u64,
    pub height: u64,
    pub name: Option<Seq<char>>,
    pub color: Option<Color>,
    pub identifier: Option<Seq<char>>,
    pub typ: PointType,
    pub smooth: bool,
    pub transform: AffineTransform,
    pub base: Option<Seq<char>>,
    pub file_name: Option<Seq<char>>,
    pub codepoints: Seq<char>,
    pub glyph_name: Option<Seq<char>>,
    pub format: Option<GlifVersion>,
}

/// The fields as values.
pub open spec fn attrs_view(a: ElementAttrs) -> AttrsView {
    AttrsView {
        x: match a.x {
            Some(b) => Some(b.0),
            None => None,
        },
        y: match a.y {
            Some(b) => Some(b.0),
            None => None,
        },
        angle: match a.angle {
            Some(b) => Some(b.0),
            None => None,
        },
        width: a.width.0,
        height: a.height.0,
        name: match a.name {
            Some(s) => Some(s@),
            None => None,
        },
        color: a.color,
        identifier: match a.identifier {
            Some(i) => Some(i@),
            None => None,
        },
        typ: a.typ,
        smooth: a.smooth,
        transform: a.transform,
        base: match a.base {
            Some(n) => Some(n@),
            None => None,
        },
        file_name: match a.file_name {
            Some(s) => Some(s@),
            None => None,
        },
        codepoints: a.codepoints@,
        glyph_name: match a.glyph_name {
            Some(n) => Some(n@),
            None => None,
        },
        format: a.format,
    }
}

/// The fields before any attribute: no coordinates, a zero advance, an off-curve point
/// that is not smooth, and the identity transformation.
pub open spec fn initial_attrs() -> AttrsView {
    AttrsView {
        x: None,
        y: None,
        angle: None,
        width: 0,
        height: 0,
        name: None,
        color: None,
        identifier: None,
        typ: PointType::OffCurve,
        smooth: false,
        transform: AffineTransform::spec_identity(),
        base: None,
        file_name: None,
        codepoints: Seq::empty(),
        glyph_name: None,
        format: None,
    }
}

/// A failure while reading attributes.
pub enum AttrFail {
    /// The XML reader failed.
    Xml,
    /// The glif data is malformed.
    Kind(ErrorKind),
}

/// True when `res` reports the failure `f`.
pub open spec fn reports_fail<T>(res: Result<T, GlifLoadError>, f: AttrFail) -> bool {
    match f {
        AttrFail::Xml => res matches Err(GlifLoadError::Xml(_)),
        AttrFail::Kind(k) => res matches Err(GlifLoadError::Parse(k2)) && k2 == k,
    }
}

/// The texts of identifiers.
pub open spec fn id_texts(ids: Seq<Identifier>) -> Seq<Seq<char>> {
    ids.map_values(|i: Identifier| i@)
}

/// True when the key is the ASCII text `s`.
pub open spec fn is_key(k: Seq<u8>, s: &str) -> bool {
    is_ascii_name(k, s@)
}

/// The outcome of an attribute that sets a field: the new fields, the identifiers seen.
pub type AttrStep = Result<(AttrsView, Seq<Seq<char>>), AttrFail>;

/// A number attribute: the float the reader gives for the text.
pub open spec fn number_of(t: Seq<char>, n64: spec_fn(Seq<char>) -> Option<u64>) -> Result<u64, AttrFail> {
    match n64(t) {
        Some(b) => Ok(b),
        None => Err(AttrFail::Kind(ErrorKind::BadNumber)),
    }
}

/// An `identifier` attribute: refused in format 1, and it must be valid and new.
pub open spec fn identifier_step(acc: AttrsView, t: Seq<char>, v1: bool, seen: Seq<Seq<char>>) -> AttrStep {
    if v1 {
        Err(AttrFail::Kind(ErrorKind::UnexpectedV1Attribute("identifier")))
    } else if !spec_is_valid_identifier(t) {
        Err(AttrFail::Kind(ErrorKind::BadIdentifier))
    } else if seen.contains(t) {
        Err(AttrFail::Kind(ErrorKind::DuplicateIdentifier))
    } else {
        Ok((AttrsView { identifier: Some(t), ..acc }, seen.push(t)))
    }
}

/// A component in the unit interval, as the reader gives it.
pub open spec fn unit_channel(t: Seq<char>, n32: spec_fn(Seq<char>) -> Option<u32>) -> Option<Float32Bits> {
    match n32(t) {
        Some(b) => if f32_bits_in_unit(b) {
            Some(Float32Bits(b))
        } else {
            None
        },
        None => None,
    }
}

/// The color that a `color` attribute's text describes: exactly four comma-separated
/// numbers, each between 0 and 1.
pub open spec fn spec_color(t: Seq<char>, n32: spec_fn(Seq<char>) -> Option<u32>) -> Option<Color> {
    let parts = spec_split(t, ',');
    if parts.len() != 4 {
        None
    } else {
        match (unit_channel(parts[0], n32), unit_channel(parts[1], n32), unit_channel(parts[2], n32), unit_channel(parts[3], n32)) {
            (Some(r), Some(g), Some(b), Some(a)) => Some(Color { red: r, green: g, blue: b, alpha: a }),
            _ => None,
        }
    }
}

/// A `color` attribute.
pub open spec fn color_step(acc: AttrsView, t: Seq<char>, seen: Seq<Seq<char>>, n32: spec_fn(Seq<char>) -> Option<u32>) -> AttrStep {
    match spec_color(t, n32) {
        Some(c) => Ok((AttrsView { color: Some(c), ..acc }, seen)),
        None => Err(AttrFail::Kind(ErrorKind::BadColor)),
    }
}

/// A transformation attribute, if `k` names one.
pub open spec fn transform_step(acc: AttrsView, k: Seq<u8>, t: Seq<char>, seen: Seq<Seq<char>>, n64: spec_fn(Seq<char>) -> Option<u64>) -> Option<AttrStep> {
    let tr = acc.transform;
    let set = |nt: AffineTransform| Ok((AttrsView { transform: nt, ..acc }, seen));
    if is_key(k, "xScale") {
        Some(match number_of(t, n64) { Ok(b) => set(AffineTransform { x_scale: FloatBits(b), ..tr }), Err(e) => Err(e) })
    } else if is_key(k, "xyScale") {
        Some(match number_of(t, n64) { Ok(b) => set(AffineTransform { xy_scale: FloatBits(b), ..tr }), Err(e) => Err(e) })
    } else if is_key(k, "yxScale") {
        Some(match number_of(t, n64) { Ok(b) => set(AffineTransform { yx_scale: FloatBits(b), ..tr }), Err(e) => Err(e) })
    } else if is_key(k, "yScale") {
        Some(match number_of(t, n64) { Ok(b) => set(AffineTransform { y_scale: FloatBits(b), ..tr }), Err(e) => Err(e) })
    } else if is_key(k, "xOffset") {
        Some(match number_of(t, n64) { Ok(b) => set(AffineTransform { x_offset: FloatBits(b), ..tr }), Err(e) => Err(e) })
    } else if is_key(k, "yOffset") {
        Some(match number_of(t, n64) { Ok(b) => set(AffineTransform { y_offset: FloatBits(b), ..tr }), Err(e) => Err(e) })
    } else {
        None
    }
}

/// An `x` or `y` attribute, if `k` names one.
pub open spec fn coordinate_step(acc: AttrsView, k: Seq<u8>, t: Seq<char>, seen: Seq<Seq<char>>, n64: spec_fn(Seq<char>) -> Option<u64>) -> Option<AttrStep> {
    if is_key(k, "x") {
        Some(match number_of(t, n64) { Ok(b) => Ok((AttrsView { x: Some(b), ..acc }, seen)), Err(e) => Err(e) })
    } else if is_key(k, "y") {
        Some(match number_of(t, n64) { Ok(b) => Ok((AttrsView { y: Some(b), ..acc }, seen)), Err(e) => Err(e) })
    } else {
        None
    }
}

/// What one attribute with key `k` and text `t` does to the fields of an element of
/// kind `kind`.
pub open spec fn attr_step(
    kind: ElementKind,
    acc: AttrsView,
    k: Seq<u8>,
    t: Seq<char>,
    v1: bool,
    seen: Seq<Seq<char>>,
    n64: spec_fn(Seq<char>) -> Option<u64>,
    n32: spec_fn(Seq<char>) -> Option<u32>,
) -> AttrStep {
    match kind {
        ElementKind::Glyph => if is_key(k, "name") {
            if spec_is_valid_name(t) {
                Ok((AttrsView { glyph_name: Some(t), ..acc }, seen))
            } else {
                Err(AttrFail::Kind(ErrorKind::InvalidName))
            }
        } else if is_key(k, "format") {
            if t == "1"@ {
                Ok((AttrsView { format: Some(GlifVersion::V1), ..acc }, seen))
            } else if t == "2"@ {
                Ok((AttrsView { format: Some(GlifVersion::V2), ..acc }, seen))
            } else {
                Err(AttrFail::Kind(ErrorKind::UnsupportedGlifVersion))
            }
        } else if is_key(k, "formatMinor") {
            Ok((acc, seen))
        } else {
            Err(AttrFail::Kind(ErrorKind::UnexpectedAttribute))
        },
        ElementKind::Contour => if is_key(k, "identifier") {
            identifier_step(acc, t, v1, seen)
        } else {
            Err(AttrFail::Kind(ErrorKind::UnexpectedAttribute))
        },
        ElementKind::Point => match coordinate_step(acc, k, t, seen, n64) {
            Some(r) => r,
            None => if is_key(k, "name") {
                Ok((AttrsView { name: Some(t), ..acc }, seen))
            } else if is_key(k, "type") {
                match PointType::spec_from_str(t) {
                    Some(p) => Ok((AttrsView { typ: p, ..acc }, seen)),
                    None => Err(AttrFail::Kind(ErrorKind::UnknownPointType)),
                }
            } else if is_key(k, "smooth") {
                Ok((AttrsView { smooth: t == "yes"@, ..acc }, seen))
            } else if is_key(k, "identifier") {
                identifier_step(acc, t, v1, seen)
            } else {
                Err(AttrFail::Kind(ErrorKind::UnexpectedPointField))
            },
        },
        ElementKind::Component => match transform_step(acc, k, t, seen, n64) {
            Some(r) => r,
            None => if is_key(k, "base") {
                if t.len() == 0 {
                    Err(AttrFail::Kind(ErrorKind::ComponentEmptyBase))
                } else if !spec_is_valid_name(t) {
                    Err(AttrFail::Kind(ErrorKind::InvalidName))
                } else {
                    Ok((AttrsView { base: Some(t), ..acc }, seen))
                }
            } else if is_key(k, "identifier") {
                identifier_step(acc, t, v1, seen)
            } else {
                Err(AttrFail::Kind(ErrorKind::UnexpectedComponentField))
            },
        },
        ElementKind::Anchor => match coordinate_step(acc, k, t, seen, n64) {
            Some(r) => r,
            None => if is_key(k, "name") {
                Ok((AttrsView { name: Some(t), ..acc }, seen))
            } else if is_key(k, "color") {
                color_step(acc, t, seen, n32)
            } else if is_key(k, "identifier") {
                identifier_step(acc, t, v1, seen)
            } else {
                Err(AttrFail::Kind(ErrorKind::UnexpectedAnchorField))
            },
        },
        ElementKind::Guideline => match coordinate_step(acc, k, t, seen, n64) {
            Some(r) => r,
            None => if is_key(k, "angle") {
                match number_of(t, n64) {
                    Ok(b) => if f64_bits_in_degrees(b) {
                        Ok((AttrsView { angle: Some(b), ..acc }, seen))
                    } else {
                        Err(AttrFail::Kind(ErrorKind::BadAngle))
                    },
                    Err(e) => Err(e),
                }
            } else if is_key(k, "name") {
                Ok((AttrsView { name: Some(t), ..acc }, seen))
            } else if is_key(k, "color") {
                color_step(acc, t, seen, n32)
            } else if is_key(k, "identifier") {
                identifier_step(acc, t, v1, seen)
            } else {
                Err(AttrFail::Kind(ErrorKind::UnexpectedGuidelineField))
            },
        },
        ElementKind::Image => match transform_step(acc, k, t, seen, n64) {
            Some(r) => r,
            None => if is_key(k, "color") {
                color_step(acc, t, seen, n32)
            } else if is_key(k, "fileName") {
                Ok((AttrsView { file_name: Some(t), ..acc }, seen))
            } else {
                Err(AttrFail::Kind(ErrorKind::UnexpectedImageField))
            },
        },
        ElementKind::Advance => if is_key(k, "width") {
            match number_of(t, n64) {
                Ok(b) => Ok((AttrsView { width: b, ..acc }, seen)),
                Err(e) => Err(e),
            }
        } else {
            match number_of(t, n64) {
                Ok(b) => Ok((AttrsView { height: b, ..acc }, seen)),
                Err(e) => Err(e),
            }
        },
        ElementKind::Unicode => match spec_hex_u32(t) {
            Some(v) => if is_scalar_value(v) {
                Ok((AttrsView { codepoints: acc.codepoints.push(v as char), ..acc }, seen))
            } else {
                Err(AttrFail::Kind(ErrorKind::BadHexValue))
            },
            None => Err(AttrFail::Kind(ErrorKind::BadHexValue)),
        },
    }
}

/// True when an attribute of an element of this kind with key `k` is refused before
/// its value is read: the `advance` and `unicode` elements check the key first.
pub open spec fn refused_before_value(kind: ElementKind, k: Seq<u8>) -> bool {
    match kind {
        ElementKind::Advance => !is_key(k, "width") && !is_key(k, "height"),
        ElementKind::Unicode => !is_key(k, "hex"),
        _ => false,
    }
}

/// The fields that the attributes from position `i` on set, starting from `acc`, and
/// the identifiers seen; or the first failure. A `contour` element of format 1 may
/// have no attribute at all.
pub open spec fn spec_attrs(
    kind: ElementKind,
    attrs: Seq<Option<(Seq<u8>, Seq<u8>)>>,
    i: int,
    acc: AttrsView,
    v1: bool,
    seen: Seq<Seq<char>>,
    n64: spec_fn(Seq<char>) -> Option<u64>,
    n32: spec_fn(Seq<char>) -> Option<u32>,
) -> AttrStep
    decreases attrs.len() - i,
{
    if i < 0 || i >= attrs.len() {
        Ok((acc, seen))
    } else if kind == ElementKind::Contour && v1 {
        Err(AttrFail::Kind(ErrorKind::UnexpectedAttribute))
    } else {
        match attrs[i] {
            None => Err(AttrFail::Xml),
            Some((k, raw)) => if refused_before_value(kind, k) {
                Err(AttrFail::Kind(ErrorKind::UnexpectedAttribute))
            } else {
                match xml_attribute_text(raw) {
                    None => Err(AttrFail::Xml),
                    Some(t) => match attr_step(kind, acc, k, t, v1, seen, n64, n32) {
                        Ok((acc2, seen2)) => spec_attrs(kind, attrs, i + 1, acc2, v1, seen2, n64, n32),
                        Err(e) => Err(e),
                    },
                }
            },
        }
    }
}

/// True when the reader `f` reads every text and agrees with `n`.
pub open spec fn reads_as<F: Fn(&str) -> Option<u64>>(f: F, n: spec_fn(Seq<char>) -> Option<u64>) -> bool {
    &&& forall|t: &str| #[trigger] call_requires(f, (t,))
    &&& forall|t: &str, r: Option<u64>| #[trigger] call_ensures(f, (t,), r) ==> r == n(t@)
}

/// True when the reader `f` reads every text and agrees with `n`.
pub open spec fn reads_as32<G: Fn(&str) -> Option<u32>>(g: G, n: spec_fn(Seq<char>) -> Option<u32>) -> bool {
    &&& forall|t: &str| #[trigger] call_requires(g, (t,))
    &&& forall|t: &str, r: Option<u32>| #[trigger] call_ensures(g, (t,), r) ==> r == n(t@)
}

/// The color that `t` describes, as [`spec_color`] says, read with `read_f32`.
pub fn parse_color<G: Fn(&str) -> Option<u32>>(t: &str, read_f32: &G, Ghost(n32): Ghost<spec_fn(Seq<char>) -> Option<u32>>) -> (res: Option<Color>)
    requires
        reads_as32(*read_f32, n32),
    ensures
        res == spec_color(t@, n32),
{
    let parts = split_on(t, ',');
    if parts.len() != 4 {
        return None;
    }
    let mut channels: Vec<Float32Bits> = Vec::new();
    let mut i: usize = 0;
    while i < 4
        invariant
            0 <= i <= 4,
            parts@.len() == 4,
            reads_as32(*read_f32, n32),
            forall|j: int| 0 <= j < 4 ==> (#[trigger] parts@[j])@ == spec_split(t@, ',')[j],
            spec_split(t@, ',').len() == 4,
            channels@.len() == i,
            forall|j: int| 0 <= j < i ==> unit_channel(spec_split(t@, ',')[j], n32) == Some(#[trigger] channels@[j]),
        decreases 4 - i,
    {
        let r = read_f32(parts[i].as_str());
        match r {
            Some(b) => {
                if b <= 0x3f80_0000 || b == 0x8000_0000 {
                    channels.push(Float32Bits(b));
                } else {
                    return None;
                }
            },
            None => {
                return None;
            },
        }
        i += 1;
    }
    Some(Color { red: channels[0], green: channels[1], blue: channels[2], alpha: channels[3] })
}

fn contains_id(seen: &Vec<Identifier>, t: &str) -> (res: bool)
    ensures
        res == id_texts(seen@).contains(t@),
{
    let mut i: usize = 0;
    while i < seen.len()
        invariant
            0 <= i <= seen@.len(),
            forall|j: int| 0 <= j < i ==> #[trigger] seen@[j]@ != t@,
        decreases seen@.len() - i,
    {
        if str_eq(seen[i].as_str(), t) {
            assert(id_texts(seen@)[i as int] == t@);
            return true;
        }
        i += 1;
    }
    proof {
        if id_texts(seen@).contains(t@) {
            let j = choose|j: int| 0 <= j < id_texts(seen@).len() && id_texts(seen@)[j] == t@;
            assert(seen@[j]@ == t@);
        }
    }
    false
}

/// Reads an `identifier` attribute into `acc`.
fn read_identifier(acc: &mut ElementAttrs, t: &str, v1: bool, seen: &mut Vec<Identifier>) -> (res: Result<(), GlifLoadError>)
    ensures
        match identifier_step(attrs_view(*old(acc)), t@, v1, id_texts(old(seen)@)) {
            Ok((a, s)) => res is Ok && attrs_view(*final(acc)) == a && id_texts(final(seen)@) == s,
            Err(f) => reports_fail(res, f),
        },
{
    if v1 {
        return Err(GlifLoadError::Parse(ErrorKind::UnexpectedV1Attribute("identifier")));
    }
    let id = match Identifier::new(t) {
        Ok(id) => id,
        Err(_) => {
            return Err(GlifLoadError::Parse(ErrorKind::BadIdentifier));
        },
    };
    if contains_id(seen, t) {
        return Err(GlifLoadError::Parse(ErrorKind::DuplicateIdentifier));
    }
    let ghost before = seen@;
    seen.push(id.clone());
    assert(id_texts(seen@) =~= id_texts(before).push(t@));
    acc.identifier = Some(id);
    Ok(())
}

/// Reads a number attribute.
fn read_number<F: Fn(&str) -> Option<u64>>(t: &str, read_f64: &F, Ghost(n64): Ghost<spec_fn(Seq<char>) -> Option<u64>>) -> (res: Result<FloatBits, GlifLoadError>)
    requires
        reads_as(*read_f64, n64),
    ensures
        match number_of(t@, n64) {
            Ok(b) => res matches Ok(r) && r.0 == b,
            Err(f) => reports_fail(res, f),
        },
{
    match read_f64(t) {
        Some(b) => Ok(FloatBits(b)),
        None => Err(GlifLoadError::Parse(ErrorKind::BadNumber)),
    }
}

/// Reads a transformation attribute into `acc`, if `k` names one.
fn read_transform<F: Fn(&str) -> Option<u64>>(
    acc: &mut ElementAttrs,
    k: &Vec<u8>,
    t: &str,
    read_f64: &F,
    Ghost(n64): Ghost<spec_fn(Seq<char>) -> Option<u64>>,
    Ghost(seen): Ghost<Seq<Seq<char>>>,
) -> (res: Option<Result<(), GlifLoadError>>)
    requires
        reads_as(*read_f64, n64),
    ensures
        match transform_step(attrs_view(*old(acc)), k@, t@, seen, n64) {
            None => res is None && *final(acc) == *old(acc),
            Some(Ok((a, s))) => res matches Some(r) && r is Ok && attrs_view(*final(acc)) == a && s == seen,
            Some(Err(f)) => res matches Some(r) && reports_fail(r, f),
        },
{
    let which: u8 = if name_is(k, "xScale") {
        0
    } else if name_is(k, "xyScale") {
        1
    } else if name_is(k, "yxScale") {
        2
    } else if name_is(k, "yScale") {
        3
    } else if name_is(k, "xOffset") {
        4
    } else if name_is(k, "yOffset") {
        5
    } else {
        return None;
    };
    let b = match read_number(t, read_f64, Ghost(n64)) {
        Ok(b) => b,
        Err(e) => {
            return Some(Err(e));
        },
    };
    if which == 0 {
        acc.transform.x_scale = b;
    } else if which == 1 {
        acc.transform.xy_scale = b;
    } else if which == 2 {
        acc.transform.yx_scale = b;
    } else if which == 3 {
        acc.transform.y_scale = b;
    } else if which == 4 {
        acc.transform.x_offset = b;
    } else {
        acc.transform.y_offset = b;
    }
    Some(Ok(()))
}

/// Reads an `x` or `y` attribute into `acc`, if `k` names one.
fn read_coordinate<F: Fn(&str) -> Option<u64>>(
    acc: &mut ElementAttrs,
    k: &Vec<u8>,
    t: &str,
    read_f64: &F,
    Ghost(n64): Ghost<spec_fn(Seq<char>) -> Option<u64>>,
    Ghost(seen): Ghost<Seq<Seq<char>>>,
) -> (res: Option<Result<(), GlifLoadError>>)
    requires
        reads_as(*read_f64, n64),
    ensures
        match coordinate_step(attrs_view(*old(acc)), k@, t@, seen, n64) {
            None => res is None && *final(acc) == *old(acc),
            Some(Ok((a, s))) => res matches Some(r) && r is Ok && attrs_view(*final(acc)) == a && s == seen,
            Some(Err(f)) => res matches Some(r) && reports_fail(r, f),
        },
{
    let is_x = name_is(k, "x");
    if !is_x && !name_is(k, "y") {
        return None;
    }
    let b = match read_number(t, read_f64, Ghost(n64)) {
        Ok(b) => b,
        Err(e) => {
            return Some(Err(e));
        },
    };
    if is_x {
        acc.x = Some(b);
    } else {
        acc.y = Some(b);
    }
    Some(Ok(()))
}

/// Reads a `color` attribute into `acc`.
fn read_color<G: Fn(&str) -> Option<u32>>(
    acc: &mut ElementAttrs,
    t: &str,
    read_f32: &G,
    Ghost(n32): Ghost<spec_fn(Seq<char>) -> Option<u32>>,
    Ghost(seen): Ghost<Seq<Seq<char>>>,
) -> (res: Result<(), GlifLoadError>)
    requires
        reads_as32(*read_f32, n32),
    ensures
        match color_step(attrs_view(*old(acc)), t@, seen, n32) {
            Ok((a, s)) => res is Ok && attrs_view(*final(acc)) == a && s == seen,
            Err(f) => reports_fail(res, f),
        },
{
    match parse_color(t, read_f32, Ghost(n32)) {
        Some(c) => {
            acc.color = Some(c);
            Ok(())
        },
        None => Err(GlifLoadError::Parse(ErrorKind::BadColor)),
    }
}

/// What one attribute does to the fields, as [`attr_step`] says.
fn read_attr<F: Fn(&str) -> Option<u64>, G: Fn(&str) -> Option<u32>>(
    kind: ElementKind,
    acc: &mut ElementAttrs,
    k: &Vec<u8>,
    t: &str,
    v1: bool,
    seen: &mut Vec<Identifier>,
    read_f64: &F,
    read_f32: &G,
    Ghost(n64): Ghost<spec_fn(Seq<char>) -> Option<u64>>,
    Ghost(n32): Ghost<spec_fn(Seq<char>) -> Option<u32>>,
) -> (res: Result<(), GlifLoadError>)
    requires
        reads_as(*read_f64, n64),
        reads_as32(*read_f32, n32),
        !refused_before_value(kind, k@),
    ensures
        match attr_step(kind, attrs_view(*old(acc)), k@, t@, v1, id_texts(old(seen)@), n64, n32) {
            Ok((a, s)) => res is Ok && attrs_view(*final(acc)) == a && id_texts(final(seen)@) == s,
            Err(f) => reports_fail(res, f),
        },
{
    let ghost seen0 = id_texts(seen@);
    proof {
        reveal_strlit("1");
        reveal_strlit("2");
    }
    match kind {
        ElementKind::Glyph => {
            if name_is(k, "name") {
                match Name::new(t) {
                    Ok(n) => {
                        acc.glyph_name = Some(n);
                        Ok(())
                    },
                    Err(_) => Err(GlifLoadError::Parse(ErrorKind::InvalidName)),
                }
            } else if name_is(k, "format") {
                if str_eq(t, "1") {
                    acc.format = Some(GlifVersion::V1);
                    Ok(())
                } else if str_eq(t, "2") {
                    acc.format = Some(GlifVersion::V2);
                    Ok(())
                } else {
                    Err(GlifLoadError::Parse(ErrorKind::UnsupportedGlifVersion))
                }
            } else if name_is(k, "formatMinor") {
                Ok(())
            } else {
                Err(GlifLoadError::Parse(ErrorKind::UnexpectedAttribute))
            }
        },
        ElementKind::Contour => {
            if name_is(k, "identifier") {
                read_identifier(acc, t, v1, seen)
            } else {
                Err(GlifLoadError::Parse(ErrorKind::UnexpectedAttribute))
            }
        },
        ElementKind::Point => {
            match read_coordinate(acc, k, t, read_f64, Ghost(n64), Ghost(seen0)) {
                Some(r) => {
                    return r;
                },
                None => {},
            }
            if name_is(k, "name") {
                acc.name = Some(t.to_owned());
                Ok(())
            } else if name_is(k, "type") {
                match PointType::parse(t) {
                    Ok(p) => {
                        acc.typ = p;
                        Ok(())
                    },
                    Err(_) => Err(GlifLoadError::Parse(ErrorKind::UnknownPointType)),
                }
            } else if name_is(k, "smooth") {
                acc.smooth = str_eq(t, "yes");
                Ok(())
            } else if name_is(k, "identifier") {
                read_identifier(acc, t, v1, seen)
            } else {
                Err(GlifLoadError::Parse(ErrorKind::UnexpectedPointField))
            }
        },
        ElementKind::Component => {
            match read_transform(acc, k, t, read_f64, Ghost(n64), Ghost(seen0)) {
                Some(r) => {
                    return r;
                },
                None => {},
            }
            if name_is(k, "base") {
                if t.unicode_len() == 0 {
                    Err(GlifLoadError::Parse(ErrorKind::ComponentEmptyBase))
                } else {
                    match Name::new(t) {
                        Ok(n) => {
                            acc.base = Some(n);
                            Ok(())
                        },
                        Err(_) => Err(GlifLoadError::Parse(ErrorKind::InvalidName)),
                    }
                }
            } else if name_is(k, "identifier") {
                read_identifier(acc, t, v1, seen)
            } else {
                Err(GlifLoadError::Parse(ErrorKind::UnexpectedComponentField))
            }
        },
        ElementKind::Anchor => {
            match read_coordinate(acc, k, t, read_f64, Ghost(n64), Ghost(seen0)) {
                Some(r) => {
                    return r;
                },
                None => {},
            }
            if name_is(k, "name") {
                acc.name = Some(t.to_owned());
                Ok(())
            } else if name_is(k, "color") {
                read_color(acc, t, read_f32, Ghost(n32), Ghost(seen0))
            } else if name_is(k, "identifier") {
                read_identifier(acc, t, v1, seen)
            } else {
                Err(GlifLoadError::Parse(ErrorKind::UnexpectedAnchorField))
            }
        },
        ElementKind::Guideline => {
            match read_coordinate(acc, k, t, read_f64, Ghost(n64), Ghost(seen0)) {
                Some(r) => {
                    return r;
                },
                None => {},
            }
            if name_is(k, "angle") {
                let b = match read_number(t, read_f64, Ghost(n64)) {
                    Ok(b) => b,
                    Err(e) => {
                        return Err(e);
                    },
                };
                if b.0 <= 0x4076_8000_0000_0000 || b.0 == 0x8000_0000_0000_0000 {
                    acc.angle = Some(b);
                    Ok(())
                } else {
                    Err(GlifLoadError::Parse(ErrorKind::BadAngle))
                }
            } else if name_is(k, "name") {
                acc.name = Some(t.to_owned());
                Ok(())
            } else if name_is(k, "color") {
                read_color(acc, t, read_f32, Ghost(n32), Ghost(seen0))
            } else if name_is(k, "identifier") {
                read_identifier(acc, t, v1, seen)
            } else {
                Err(GlifLoadError::Parse(ErrorKind::UnexpectedGuidelineField))
            }
        },
        ElementKind::Image => {
            match read_transform(acc, k, t, read_f64, Ghost(n64), Ghost(seen0)) {
                Some(r) => {
                    return r;
                },
                None => {},
            }
            if name_is(k, "color") {
                read_color(acc, t, read_f32, Ghost(n32), Ghost(seen0))
            } else if name_is(k, "fileName") {
                acc.file_name = Some(t.to_owned());
                Ok(())
            } else {
                Err(GlifLoadError::Parse(ErrorKind::UnexpectedImageField))
            }
        },
        ElementKind::Advance => {
            let b = match read_number(t, read_f64, Ghost(n64)) {
                Ok(b) => b,
                Err(e) => {
                    return Err(e);
                },
            };
            if name_is(k, "width") {
                acc.width = b;
            } else {
                acc.height = b;
            }
            Ok(())
        },
        ElementKind::Unicode => {
            let v = match parse_hex_u32(t) {
                Some(v) => v,
                None => {
                    return Err(GlifLoadError::Parse(ErrorKind::BadHexValue));
                },
            };
            match char_from_u32(v) {
                Some(c) => {
                    assert(c == v as char);
                    acc.codepoints.push(c);
                    Ok(())
                },
                None => Err(GlifLoadError::Parse(ErrorKind::BadHexValue)),
            }
        },
    }
}

/// Whether an attribute of an element of this kind with key `k` is refused before its
/// value is read.
fn is_refused_before_value(kind: ElementKind, k: &Vec<u8>) -> (res: bool)
    ensures
        res == refused_before_value(kind, k@),
{
    match kind {
        ElementKind::Advance => !name_is(k, "width") && !name_is(k, "height"),
        ElementKind::Unicode => !name_is(k, "hex"),
        _ => false,
    }
}

/// The fields that the attributes of an element set, and the identifiers seen after
/// it; or the first failure, as [`spec_attrs`] says.
pub fn read_element_attrs<F: Fn(&str) -> Option<u64>, G: Fn(&str) -> Option<u32>>(
    kind: ElementKind,
    content: &Vec<u8>,
    name: &Vec<u8>,
    v1: bool,
    seen: &mut Vec<Identifier>,
    read_f64: &F,
    read_f32: &G,
    Ghost(n64): Ghost<spec_fn(Seq<char>) -> Option<u64>>,
    Ghost(n32): Ghost<spec_fn(Seq<char>) -> Option<u32>>,
) -> (res: Result<ElementAttrs, GlifLoadError>)
    requires
        name@.len() <= content@.len(),
        reads_as(*read_f64, n64),
        reads_as32(*read_f32, n32),
    ensures
        match spec_attrs(
            kind,
            xml_tag_attributes(content@, name@.len() as usize),
            0,
            initial_attrs(),
            v1,
            id_texts(old(seen)@),
            n64,
            n32,
        ) {
            Ok((a, s)) => res matches Ok(r) && attrs_view(r) == a && id_texts(final(seen)@) == s,
            Err(f) => reports_fail(res, f),
        },
{
    let attrs = read_attributes(content.as_slice(), name.len());
    let ghost av = attribute_views(attrs@);
    let mut acc = ElementAttrs {
        x: None,
        y: None,
        angle: None,
        width: FloatBits(0),
        height: FloatBits(0),
        name: None,
        color: None,
        identifier: None,
        typ: PointType::OffCurve,
        smooth: false,
        transform: AffineTransform::identity(),
        base: None,
        file_name: None,
        codepoints: Vec::new(),
        glyph_name: None,
        format: None,
    };
    assert(attrs_view(acc) =~= initial_attrs());
    let mut i: usize = 0;
    while i < attrs.len()
        invariant
            0 <= i <= attrs@.len(),
            av == attribute_views(attrs@),
            av == xml_tag_attributes(content@, name@.len() as usize),
            reads_as(*read_f64, n64),
            reads_as32(*read_f32, n32),
            spec_attrs(kind, av, 0, initial_attrs(), v1, id_texts(old(seen)@), n64, n32) == spec_attrs(
                kind,
                av,
                i as int,
                attrs_view(acc),
                v1,
                id_texts(seen@),
                n64,
                n32,
            ),
        decreases attrs@.len() - i,
    {
        if kind == ElementKind::Contour && v1 {
            return Err(GlifLoadError::Parse(ErrorKind::UnexpectedAttribute));
        }
        if attrs[i].is_err() {
            let mut rest = attrs;
            let failed = rest.remove(i);
            return match failed {
                Err(e) => Err(GlifLoadError::Xml(e)),
                Ok(_) => Err(GlifLoadError::Parse(ErrorKind::UnexpectedAttribute)),
            };
        }
        let (k, raw) = match &attrs[i] {
            Ok((k, raw)) => (k, raw),
            Err(_) => {
                return Err(GlifLoadError::Parse(ErrorKind::UnexpectedAttribute));
            },
        };
        if is_refused_before_value(kind, k) {
            return Err(GlifLoadError::Parse(ErrorKind::UnexpectedAttribute));
        }
        let t = match attribute_text(raw.as_slice()) {
            Ok(t) => t,
            Err(e) => {
                return Err(GlifLoadError::Xml(e));
            },
        };
        match read_attr(kind, &mut acc, k, t.as_str(), v1, seen, read_f64, read_f32, Ghost(n64), Ghost(n32)) {
            Ok(()) => {},
            Err(e) => {
                return Err(e);
            },
        }
        i += 1;
    }
    Ok(acc)
}

} // verus!
