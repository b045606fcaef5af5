//! Reading a glyph from the XML of a glif file.
//!
//! The file is read event by event. The root `glyph` element names the glyph and its
//! format; it holds at most one `outline`, `advance`, `lib`, `note` and `image`, and
//! any number of `unicode`, `anchor` and `guideline` elements. Format 1 has no
//! anchors, guidelines, images, notes or identifiers; its single-point contours with
//! a name are anchors.

use vstd::prelude::*;

use crate::error::{ErrorKind, GlifLoadError};
use crate::glyph::attrs::{
    AttrFail, AttrsView, ElementAttrs, ElementKind, attrs_view, id_texts, read_element_attrs, reads_as, reads_as32, reports_fail,
    spec_attrs, initial_attrs,
};
use crate::glyph::builder::{OutlineBuilder, OutlineBuilderError};
use crate::glyph::object_lib::ObjectLib;
use crate::glyph::xml::{
    XmlCursor, XmlEvent, content_text, cursor_measure, cursor_step, is_ascii_name, name_is, xml_content_text,
    xml_tag_attributes,
};
use crate::glyph::serialize::opt_view;
use crate::glyph::{Anchor, Component, Contour, ContourPoint, GlifVersion, Glyph, Image, PointType};
use crate::guideline::{Guideline, Line};
use crate::identifier::Identifier;
use crate::names::NameList;
use crate::plist_ops::{
    dict_dictionary_keys, dict_keys, dict_remove_dictionary, dict_strings, parse_xml_dictionary, xml_dictionary,
};
use crate::shared_types::{Plist, PUBLIC_OBJECT_LIBS_KEY};

verus! {

/// The glif error for an error of the outline builder.
pub open spec fn spec_builder_error(e: OutlineBuilderError) -> ErrorKind {
    match e {
        OutlineBuilderError::PenPathNotStarted => ErrorKind::PenPathNotStarted,
        OutlineBuilderError::TooManyOffCurves => ErrorKind::TooManyOffCurves,
        OutlineBuilderError::TrailingOffCurves => ErrorKind::TrailingOffCurves,
        OutlineBuilderError::UnexpectedMove => ErrorKind::UnexpectedMove,
        OutlineBuilderError::UnexpectedPointAfterOffCurve => ErrorKind::UnexpectedPointAfterOffCurve,
        OutlineBuilderError::UnexpectedSmooth => ErrorKind::UnexpectedSmooth,
        OutlineBuilderError::UnfinishedDrawing => ErrorKind::UnfinishedDrawing,
    }
}

fn builder_error(e: OutlineBuilderError) -> (res: GlifLoadError)
    ensures
        res == GlifLoadError::Parse(spec_builder_error(e)),
{
    GlifLoadError::Parse(
        match e {
            OutlineBuilderError::PenPathNotStarted => ErrorKind::PenPathNotStarted,
            OutlineBuilderError::TooManyOffCurves => ErrorKind::TooManyOffCurves,
            OutlineBuilderError::TrailingOffCurves => ErrorKind::TrailingOffCurves,
            OutlineBuilderError::UnexpectedMove => ErrorKind::UnexpectedMove,
            OutlineBuilderError::UnexpectedPointAfterOffCurve => ErrorKind::UnexpectedPointAfterOffCurve,
            OutlineBuilderError::UnexpectedSmooth => ErrorKind::UnexpectedSmooth,
            OutlineBuilderError::UnfinishedDrawing => ErrorKind::UnfinishedDrawing,
        },
    )
}

/// The state of a glif parse after the root element: the glyph so far, the
/// identifiers seen, and the readers of numbers with what they read.
struct GlifParser {
    glyph: Glyph,
    seen_identifiers: Vec<Identifier>,
}

/// True when the cursor moved on within the same document, and no further than it was.
pub open spec fn cursor_moved(before: XmlCursor, after: XmlCursor) -> bool {
    &&& after.wf()
    &&& after.spec_xml() == before.spec_xml()
    &&& after.spec_measure() <= before.spec_measure()
}

/// The step of a reader of `xml` in the given state, where it is an event that
/// advances the reader or the end of the file: `None` where the reader fails.
pub open spec fn advancing_step(xml: Seq<u8>, pos: int, open: Seq<Seq<u8>>, after_text: bool) -> Option<(XmlEvent, int, Seq<Seq<u8>>, bool)> {
    match cursor_step(xml, pos, open, after_text) {
        Some((e, p, o, a)) => if e is Eof || (p <= xml.len() && cursor_measure(xml, p, a) < cursor_measure(
            xml,
            pos,
            after_text,
        )) {
            Some((e, p, o, a))
        } else {
            None
        },
        None => None,
    }
}

/// What reading the rest of a `note` element gives, from a reader of `xml` in the given
/// state and with the note so far: the note, where the `note` end tag comes, and the
/// reader's state after it. Each text event replaces the note by its text; other events
/// are passed over. `Err(true)` where the file ends first, `Err(false)` where the reader
/// or the decoding of a text fails.
pub open spec fn note_run(xml: Seq<u8>, pos: int, open: Seq<Seq<u8>>, after_text: bool, note: Option<Seq<char>>) -> Result<(Option<Seq<char>>, int, Seq<Seq<u8>>, bool), bool>
    decreases cursor_measure(xml, pos, after_text),
{
    match advancing_step(xml, pos, open, after_text) {
        None => Err(false),
        Some((e, p, o, a)) => match e {
            XmlEvent::Eof => Err(true),
            XmlEvent::End(n) => if is_ascii_name(n@, "note"@) {
                Ok((note, p, o, a))
            } else {
                note_run(xml, p, o, a, note)
            },
            XmlEvent::Text(t) => match xml_content_text(t@) {
                Some(text) => note_run(xml, p, o, a, Some(text)),
                None => Err(false),
            },
            _ => note_run(xml, p, o, a, note),
        },
    }
}

/// The first event after any comments and XML declarations, read by a reader of `xml`
/// in the given state, with the reader's state after it; `None` where the reader fails.
pub open spec fn first_element(xml: Seq<u8>, pos: int, open: Seq<Seq<u8>>, after_text: bool) -> Option<(XmlEvent, int, Seq<Seq<u8>>, bool)>
    decreases cursor_measure(xml, pos, after_text),
{
    match advancing_step(xml, pos, open, after_text) {
        None => None,
        Some((e, p, o, a)) => match e {
            XmlEvent::Comment => first_element(xml, p, o, a),
            XmlEvent::Decl => first_element(xml, p, o, a),
            _ => Some((e, p, o, a)),
        },
    }
}

/// The glyph that a root element with this first event gives: its name and format,
/// read from the attributes of a `glyph` start tag, or the error.
pub open spec fn root_glyph(
    e: XmlEvent,
    n64: spec_fn(Seq<char>) -> Option<u64>,
    n32: spec_fn(Seq<char>) -> Option<u32>,
) -> Result<(Seq<char>, GlifVersion), AttrFail> {
    match e {
        XmlEvent::Start(n, c) => if is_ascii_name(n@, "glyph"@) {
            match spec_attrs(
                ElementKind::Glyph,
                xml_tag_attributes(c@, n@.len() as usize),
                0,
                initial_attrs(),
                false,
                Seq::empty(),
                n64,
                n32,
            ) {
                Ok((a, _)) => match a.glyph_name {
                    Some(name) => match a.format {
                        Some(format) => Ok((name, format)),
                        None => Err(AttrFail::Kind(ErrorKind::WrongFirstElement)),
                    },
                    None => Err(AttrFail::Kind(ErrorKind::WrongFirstElement)),
                },
                Err(f) => Err(f),
            }
        } else {
            Err(AttrFail::Kind(ErrorKind::WrongFirstElement))
        },
        _ => Err(AttrFail::Kind(ErrorKind::WrongFirstElement)),
    }
}

/// What reading the rest of a `contour` element gives, from a reader of `xml` in the
/// given state: the contents of its `point` tags in order, after those of `points`,
/// and the reader's state after its end tag. `Err(None)` where the reader fails;
/// `Err(Some(k))` where an element out of place, or the end of the file, comes first.
pub open spec fn contour_events(xml: Seq<u8>, pos: int, open: Seq<Seq<u8>>, after_text: bool, points: Seq<Seq<u8>>) -> Result<(Seq<Seq<u8>>, int, Seq<Seq<u8>>, bool), Option<ErrorKind>>
    decreases cursor_measure(xml, pos, after_text),
{
    match advancing_step(xml, pos, open, after_text) {
        None => Err(None),
        Some((e, p, o, a)) => match e {
            XmlEvent::End(n) => if is_ascii_name(n@, "contour"@) {
                Ok((points, p, o, a))
            } else {
                Err(Some(ErrorKind::UnexpectedElement))
            },
            XmlEvent::Empty(n, c) => if is_ascii_name(n@, "point"@) {
                contour_events(xml, p, o, a, points.push(c@))
            } else {
                Err(Some(ErrorKind::UnexpectedElement))
            },
            XmlEvent::Eof => Err(Some(ErrorKind::UnexpectedEof)),
            _ => Err(Some(ErrorKind::UnexpectedElement)),
        },
    }
}

/// Reading a `contour` element leaves the reader further on.
pub proof fn lemma_contour_events_advance(xml: Seq<u8>, pos: int, open: Seq<Seq<u8>>, after_text: bool, points: Seq<Seq<u8>>)
    ensures
        contour_events(xml, pos, open, after_text, points) matches Ok((_, p, _, a)) ==> p <= xml.len()
            && cursor_measure(xml, p, a) < cursor_measure(xml, pos, after_text),
    decreases cursor_measure(xml, pos, after_text),
{
    match advancing_step(xml, pos, open, after_text) {
        None => {},
        Some((e, p, o, a)) => match e {
            XmlEvent::Empty(n, c) => if is_ascii_name(n@, "point"@) {
                lemma_contour_events_advance(xml, p, o, a, points.push(c@));
            },
            _ => {},
        },
    }
}

/// What reading the rest of an `outline` element gives, from a reader of `xml` in the
/// given state: the reader's state after its end tag, where every element in it is a
/// `contour` element whose content is read as [`contour_events`] says or an empty
/// `contour` or `component` tag. `Err(None)` where the reader fails; `Err(Some(k))`
/// where an element out of place, or the end of the file, comes first.
pub open spec fn outline_events(xml: Seq<u8>, pos: int, open: Seq<Seq<u8>>, after_text: bool) -> Result<(int, Seq<Seq<u8>>, bool), Option<ErrorKind>>
    decreases cursor_measure(xml, pos, after_text),
{
    match advancing_step(xml, pos, open, after_text) {
        None => Err(None),
        Some((e, p, o, a)) => match e {
            XmlEvent::Start(n, _) => if is_ascii_name(n@, "contour"@) {
                match contour_events(xml, p, o, a, Seq::empty()) {
                    Ok((_, p2, o2, a2)) => {
                        proof {
                            lemma_contour_events_advance(xml, p, o, a, Seq::empty());
                        }
                        outline_events(xml, p2, o2, a2)
                    },
                    Err(k) => Err(k),
                }
            } else {
                Err(Some(ErrorKind::UnexpectedElement))
            },
            XmlEvent::Empty(n, _) => if is_ascii_name(n@, "contour"@) || is_ascii_name(n@, "component"@) {
                outline_events(xml, p, o, a)
            } else {
                Err(Some(ErrorKind::UnexpectedElement))
            },
            XmlEvent::End(n) => if is_ascii_name(n@, "outline"@) {
                Ok((p, o, a))
            } else {
                Err(Some(ErrorKind::UnexpectedElement))
            },
            XmlEvent::Eof => Err(Some(ErrorKind::UnexpectedEof)),
            _ => Err(Some(ErrorKind::UnexpectedElement)),
        },
    }
}

/// The types of the points, in order.
pub open spec fn point_types(points: Seq<ContourPoint>) -> Seq<PointType> {
    points.map_values(|p: ContourPoint| p.typ)
}

/// The index of the first type that is not off-curve, or the length of the sequence
/// where every one is.
pub open spec fn first_on_curve_type(types: Seq<PointType>) -> int
    decreases types.len(),
{
    if types.len() == 0 {
        0
    } else if types[0] == PointType::OffCurve {
        1 + first_on_curve_type(types.drop_first())
    } else {
        0
    }
}

/// The error, if any, that adding a point of type `typ` to a contour of `count` points,
/// after `n` off-curve points in a row, causes.
pub open spec fn count_add_error(count: int, n: u32, typ: PointType, smooth: bool) -> Option<OutlineBuilderError> {
    match typ {
        PointType::Move => if count > 0 {
            Some(OutlineBuilderError::UnexpectedMove)
        } else {
            None
        },
        PointType::Line => if n > 0 {
            Some(OutlineBuilderError::UnexpectedPointAfterOffCurve)
        } else {
            None
        },
        PointType::OffCurve => if smooth {
            Some(OutlineBuilderError::UnexpectedSmooth)
        } else {
            None
        },
        PointType::Curve => if n > 2 {
            Some(OutlineBuilderError::TooManyOffCurves)
        } else {
            None
        },
        PointType::QCurve => None,
    }
}

/// The error, if any, that ending a contour whose points have these types, after `n`
/// off-curve points in a row, causes.
pub open spec fn types_end_error(types: Seq<PointType>, n: u32) -> Option<OutlineBuilderError> {
    if n == 0 {
        None
    } else if !(types.len() == 0 || types[0] != PointType::Move) {
        Some(OutlineBuilderError::TrailingOffCurves)
    } else {
        let k = first_on_curve_type(types);
        if k >= types.len() {
            None
        } else {
            match types[k] {
                PointType::Line => Some(OutlineBuilderError::UnexpectedPointAfterOffCurve),
                PointType::Curve => if crate::glyph::builder::sat_add(n as int, k) > 2 {
                    Some(OutlineBuilderError::TooManyOffCurves)
                } else {
                    None
                },
                _ => None,
            }
        }
    }
}

proof fn lemma_first_on_curve_types(points: Seq<ContourPoint>)
    ensures
        crate::glyph::builder::first_on_curve(points) == first_on_curve_type(point_types(points)),
        first_on_curve_type(point_types(points)) >= 0,
    decreases points.len(),
{
    if points.len() > 0 {
        assert(point_types(points.drop_first()) =~= point_types(points).drop_first());
        lemma_first_on_curve_types(points.drop_first());
    }
}

/// Ending a contour depends on the types of its points alone.
pub proof fn lemma_end_error_types(points: Seq<ContourPoint>, n: u32)
    ensures
        crate::glyph::builder::end_path_error(points, n) == types_end_error(point_types(points), n),
{
    lemma_first_on_curve_types(points);
    let k = crate::glyph::builder::first_on_curve(points);
    if points.len() > 0 {
        assert(point_types(points)[0] == points[0].typ);
    }
    if k < points.len() {
        assert(point_types(points)[k] == points[k].typ);
    }
}

/// What reading the rest of a `contour` element gives, from a reader of `xml` in the
/// given state, where the points so far have the types `types` and end in `n` off-curve
/// points in a row, and the identifiers `ids` are taken: each `point` tag read with
/// its attributes and added, then the types of all points, the off-curve points at
/// their end, the identifiers then taken, and the reader's state after the end tag. The failure is that of the
/// first element that fails, or of the reader.
pub open spec fn contour_run(
    xml: Seq<u8>,
    pos: int,
    open: Seq<Seq<u8>>,
    after_text: bool,
    v1: bool,
    ids: Seq<Seq<char>>,
    n64: spec_fn(Seq<char>) -> Option<u64>,
    n32: spec_fn(Seq<char>) -> Option<u32>,
    types: Seq<PointType>,
    n: u32,
) -> Result<(Seq<PointType>, u32, Seq<Seq<char>>, int, Seq<Seq<u8>>, bool), AttrFail>
    decreases cursor_measure(xml, pos, after_text),
{
    match advancing_step(xml, pos, open, after_text) {
        None => Err(AttrFail::Xml),
        Some((e, p, o, a)) => match e {
            XmlEvent::End(nm) => if is_ascii_name(nm@, "contour"@) {
                Ok((types, n, ids, p, o, a))
            } else {
                Err(AttrFail::Kind(ErrorKind::UnexpectedElement))
            },
            XmlEvent::Empty(nm, c) => if is_ascii_name(nm@, "point"@) {
                match spec_attrs(
                    ElementKind::Point,
                    xml_tag_attributes(c@, nm@.len() as usize),
                    0,
                    initial_attrs(),
                    v1,
                    ids,
                    n64,
                    n32,
                ) {
                    Err(f) => Err(f),
                    Ok((at, ids2)) => if at.x is Some && at.y is Some {
                        match count_add_error(types.len() as int, n, at.typ, at.smooth) {
                            Some(err) => Err(AttrFail::Kind(spec_builder_error(err))),
                            None => contour_run(
                                xml,
                                p,
                                o,
                                a,
                                v1,
                                ids2,
                                n64,
                                n32,
                                types.push(at.typ),
                                crate::glyph::builder::next_offcurve_count(n, at.typ),
                            ),
                        }
                    } else {
                        Err(AttrFail::Kind(ErrorKind::BadPoint))
                    },
                }
            } else {
                Err(AttrFail::Kind(ErrorKind::UnexpectedElement))
            },
            XmlEvent::Eof => Err(AttrFail::Kind(ErrorKind::UnexpectedEof)),
            _ => Err(AttrFail::Kind(ErrorKind::UnexpectedElement)),
        },
    }
}

/// Reading a `contour` element with its points leaves the reader further on.
pub proof fn lemma_contour_run_advance(
    xml: Seq<u8>,
    pos: int,
    open: Seq<Seq<u8>>,
    after_text: bool,
    v1: bool,
    ids: Seq<Seq<char>>,
    n64: spec_fn(Seq<char>) -> Option<u64>,
    n32: spec_fn(Seq<char>) -> Option<u32>,
    types: Seq<PointType>,
    n: u32,
)
    ensures
        contour_run(xml, pos, open, after_text, v1, ids, n64, n32, types, n) matches Ok((_, _, _, p, _, a)) ==> p
            <= xml.len() && cursor_measure(xml, p, a) < cursor_measure(xml, pos, after_text),
    decreases cursor_measure(xml, pos, after_text),
{
    match advancing_step(xml, pos, open, after_text) {
        None => {},
        Some((e, p, o, a)) => match e {
            XmlEvent::Empty(nm, c) => if is_ascii_name(nm@, "point"@) {
                match spec_attrs(
                    ElementKind::Point,
                    xml_tag_attributes(c@, nm@.len() as usize),
                    0,
                    initial_attrs(),
                    v1,
                    ids,
                    n64,
                    n32,
                ) {
                    Err(_) => {},
                    Ok((at, ids2)) => {
                        lemma_contour_run_advance(
                            xml,
                            p,
                            o,
                            a,
                            v1,
                            ids2,
                            n64,
                            n32,
                            types.push(at.typ),
                            crate::glyph::builder::next_offcurve_count(n, at.typ),
                        );
                    },
                }
            },
            _ => {},
        },
    }
}

/// What reading the rest of an `outline` element gives, from a reader of `xml` in the
/// given state, with the identifiers `ids` taken: each `contour` element read as
/// [`contour_run`] says and ended, each `component` tag read with its attributes, then
/// the identifiers taken and the reader's state after the end tag. The failure is that
/// of the first element that fails, or of the reader.
pub open spec fn outline_run(
    xml: Seq<u8>,
    pos: int,
    open: Seq<Seq<u8>>,
    after_text: bool,
    v1: bool,
    ids: Seq<Seq<char>>,
    n64: spec_fn(Seq<char>) -> Option<u64>,
    n32: spec_fn(Seq<char>) -> Option<u32>,
) -> Result<(Seq<Seq<char>>, int, Seq<Seq<u8>>, bool), AttrFail>
    decreases cursor_measure(xml, pos, after_text),
{
    match advancing_step(xml, pos, open, after_text) {
        None => Err(AttrFail::Xml),
        Some((e, p, o, a)) => match e {
            XmlEvent::Start(nm, c) => if is_ascii_name(nm@, "contour"@) {
                match spec_attrs(
                    ElementKind::Contour,
                    xml_tag_attributes(c@, nm@.len() as usize),
                    0,
                    initial_attrs(),
                    v1,
                    ids,
                    n64,
                    n32,
                ) {
                    Err(f) => Err(f),
                    Ok((_, ids2)) => match contour_run(xml, p, o, a, v1, ids2, n64, n32, Seq::empty(), 0) {
                        Err(f) => Err(f),
                        Ok((types, n, ids3, p2, o2, a2)) => match types_end_error(types, n) {
                            Some(err) => Err(AttrFail::Kind(spec_builder_error(err))),
                            None => {
                                proof {
                                    lemma_contour_run_advance(xml, p, o, a, v1, ids2, n64, n32, Seq::empty(), 0);
                                }
                                outline_run(xml, p2, o2, a2, v1, ids3, n64, n32)
                            },
                        },
                    },
                }
            } else {
                Err(AttrFail::Kind(ErrorKind::UnexpectedElement))
            },
            XmlEvent::Empty(nm, c) => if is_ascii_name(nm@, "contour"@) {
                outline_run(xml, p, o, a, v1, ids, n64, n32)
            } else if is_ascii_name(nm@, "component"@) {
                match spec_attrs(
                    ElementKind::Component,
                    xml_tag_attributes(c@, nm@.len() as usize),
                    0,
                    initial_attrs(),
                    v1,
                    ids,
                    n64,
                    n32,
                ) {
                    Err(f) => Err(f),
                    Ok((at, ids2)) => if at.base is Some {
                        outline_run(xml, p, o, a, v1, ids2, n64, n32)
                    } else {
                        Err(AttrFail::Kind(ErrorKind::ComponentMissingBase))
                    },
                }
            } else {
                Err(AttrFail::Kind(ErrorKind::UnexpectedElement))
            },
            XmlEvent::End(nm) => if is_ascii_name(nm@, "outline"@) {
                Ok((ids, p, o, a))
            } else {
                Err(AttrFail::Kind(ErrorKind::UnexpectedElement))
            },
            XmlEvent::Eof => Err(AttrFail::Kind(ErrorKind::UnexpectedEof)),
            _ => Err(AttrFail::Kind(ErrorKind::UnexpectedElement)),
        },
    }
}

/// Reading an `outline` element with its contours and components leaves the reader
/// further on.
pub proof fn lemma_outline_run_advance(
    xml: Seq<u8>,
    pos: int,
    open: Seq<Seq<u8>>,
    after_text: bool,
    v1: bool,
    ids: Seq<Seq<char>>,
    n64: spec_fn(Seq<char>) -> Option<u64>,
    n32: spec_fn(Seq<char>) -> Option<u32>,
)
    ensures
        outline_run(xml, pos, open, after_text, v1, ids, n64, n32) matches Ok((_, p, _, a)) ==> p <= xml.len()
            && cursor_measure(xml, p, a) < cursor_measure(xml, pos, after_text),
    decreases cursor_measure(xml, pos, after_text),
{
    match advancing_step(xml, pos, open, after_text) {
        None => {},
        Some((e, p, o, a)) => match e {
            XmlEvent::Start(nm, c) => if is_ascii_name(nm@, "contour"@) {
                match spec_attrs(
                    ElementKind::Contour,
                    xml_tag_attributes(c@, nm@.len() as usize),
                    0,
                    initial_attrs(),
                    v1,
                    ids,
                    n64,
                    n32,
                ) {
                    Err(_) => {},
                    Ok((_, ids2)) => {
                        lemma_contour_run_advance(xml, p, o, a, v1, ids2, n64, n32, Seq::empty(), 0);
                        match contour_run(xml, p, o, a, v1, ids2, n64, n32, Seq::empty(), 0) {
                            Err(_) => {},
                            Ok((_, _, ids3, p2, o2, a2)) => {
                                lemma_outline_run_advance(xml, p2, o2, a2, v1, ids3, n64, n32);
                            },
                        }
                    },
                }
            },
            XmlEvent::Empty(nm, c) => if is_ascii_name(nm@, "contour"@) {
                lemma_outline_run_advance(xml, p, o, a, v1, ids, n64, n32);
            } else if is_ascii_name(nm@, "component"@) {
                match spec_attrs(
                    ElementKind::Component,
                    xml_tag_attributes(c@, nm@.len() as usize),
                    0,
                    initial_attrs(),
                    v1,
                    ids,
                    n64,
                    n32,
                ) {
                    Err(_) => {},
                    Ok((_, ids2)) => {
                        lemma_outline_run_advance(xml, p, o, a, v1, ids2, n64, n32);
                    },
                }
            },
            _ => {},
        },
    }
}

/// The attributes of an empty-element tag with this name and content.
pub open spec fn tag_attrs(
    kind: ElementKind,
    name: Seq<u8>,
    content: Seq<u8>,
    v1: bool,
    ids: Seq<Seq<char>>,
    n64: spec_fn(Seq<char>) -> Option<u64>,
    n32: spec_fn(Seq<char>) -> Option<u32>,
) -> Result<(AttrsView, Seq<Seq<char>>), AttrFail> {
    spec_attrs(kind, xml_tag_attributes(content, name.len() as usize), 0, initial_attrs(), v1, ids, n64, n32)
}

/// What an empty-element tag of the root element's content gives: the identifiers
/// then taken, which of `advance` and `image` have been read, and the glyph's width
/// and height bits and code points after it (`vals` before it), or the failure.
pub open spec fn body_tag(
    name: Seq<u8>,
    content: Seq<u8>,
    v1: bool,
    ids: Seq<Seq<char>>,
    n64: spec_fn(Seq<char>) -> Option<u64>,
    n32: spec_fn(Seq<char>) -> Option<u32>,
    advance: bool,
    image: bool,
    vals: (u64, u64, Seq<char>),
) -> Result<(Seq<Seq<char>>, bool, bool, (u64, u64, Seq<char>)), AttrFail> {
    if is_ascii_name(name, "advance"@) {
        if advance {
            Err(AttrFail::Kind(ErrorKind::DuplicateElement("advance")))
        } else {
            match tag_attrs(ElementKind::Advance, name, content, v1, ids, n64, n32) {
                Err(f) => Err(f),
                Ok((a, ids2)) => Ok((ids2, true, image, (a.width, a.height, vals.2))),
            }
        }
    } else if is_ascii_name(name, "unicode"@) {
        match tag_attrs(ElementKind::Unicode, name, content, v1, ids, n64, n32) {
            Err(f) => Err(f),
            Ok((a, ids2)) => Ok((ids2, advance, image, (vals.0, vals.1, insert_all(vals.2, a.codepoints)))),
        }
    } else if is_ascii_name(name, "anchor"@) {
        if v1 {
            Err(AttrFail::Kind(ErrorKind::UnexpectedV1Element("anchor")))
        } else {
            match tag_attrs(ElementKind::Anchor, name, content, v1, ids, n64, n32) {
                Err(f) => Err(f),
                Ok((a, ids2)) => if a.x is Some && a.y is Some {
                    Ok((ids2, advance, image, vals))
                } else {
                    Err(AttrFail::Kind(ErrorKind::BadAnchor))
                },
            }
        }
    } else if is_ascii_name(name, "guideline"@) {
        if v1 {
            Err(AttrFail::Kind(ErrorKind::UnexpectedV1Element("guideline")))
        } else {
            match tag_attrs(ElementKind::Guideline, name, content, v1, ids, n64, n32) {
                Err(f) => Err(f),
                Ok((a, ids2)) => if spec_guideline_line(a.x, a.y, a.angle) is Some {
                    Ok((ids2, advance, image, vals))
                } else {
                    Err(AttrFail::Kind(ErrorKind::BadGuideline))
                },
            }
        }
    } else if is_ascii_name(name, "image"@) {
        if v1 {
            Err(AttrFail::Kind(ErrorKind::UnexpectedV1Element("image")))
        } else if image {
            Err(AttrFail::Kind(ErrorKind::DuplicateElement("image")))
        } else {
            match tag_attrs(ElementKind::Image, name, content, v1, ids, n64, n32) {
                Err(f) => Err(f),
                Ok((a, ids2)) => match a.file_name {
                    Some(f) => if crate::glyph::spec_image_name_error(f) is None {
                        Ok((ids2, advance, true, vals))
                    } else {
                        Err(AttrFail::Kind(ErrorKind::BadImage))
                    },
                    None => Err(AttrFail::Kind(ErrorKind::BadImage)),
                },
            }
        }
    } else {
        Err(AttrFail::Kind(ErrorKind::UnexpectedElement))
    }
}

/// What reading the rest of the root `glyph` element gives, from a reader of `xml` in
/// the given state, with the identifiers `ids` taken; `v1` tells whether the glyph is
/// of format 1, the flags which of the elements that may occur once were read already
/// (a note counts once it had text), and `object_libs` whether the glyph's lib holds
/// the `public.objectLibs` key; `vals` holds the bits of the glyph's width and height
/// and its code points so far. Each element is read and checked as the functions that
/// read it say. The result: whether the lib then holds that key, the width, height
/// and code points that the `advance` and `unicode` elements give, and the reader's
/// state after the end tag; or the failure of the first element that fails, or of
/// the reader.
pub open spec fn body_run(
    xml: Seq<u8>,
    pos: int,
    open: Seq<Seq<u8>>,
    after_text: bool,
    v1: bool,
    ids: Seq<Seq<char>>,
    n64: spec_fn(Seq<char>) -> Option<u64>,
    n32: spec_fn(Seq<char>) -> Option<u32>,
    outline: bool,
    advance: bool,
    lib: bool,
    note: bool,
    image: bool,
    object_libs: bool,
    vals: (u64, u64, Seq<char>),
) -> Result<(bool, (u64, u64, Seq<char>), int, Seq<Seq<u8>>, bool), AttrFail>
    decreases cursor_measure(xml, pos, after_text),
{
    match advancing_step(xml, pos, open, after_text) {
        None => Err(AttrFail::Xml),
        Some((e, p, o, a)) => match e {
            XmlEvent::Start(nm, _) => if is_ascii_name(nm@, "outline"@) {
                if outline {
                    Err(AttrFail::Kind(ErrorKind::DuplicateElement("outline")))
                } else {
                    match outline_run(xml, p, o, a, v1, ids, n64, n32) {
                        Err(f) => Err(f),
                        Ok((ids2, p2, o2, a2)) => {
                            proof {
                                lemma_outline_run_advance(xml, p, o, a, v1, ids, n64, n32);
                            }
                            body_run(xml, p2, o2, a2, v1, ids2, n64, n32, true, advance, lib, note, image, object_libs, vals)
                        },
                    }
                }
            } else if is_ascii_name(nm@, "lib"@) {
                if lib {
                    Err(AttrFail::Kind(ErrorKind::DuplicateElement("lib")))
                } else {
                    match lib_run(xml, p, o, a, p) {
                        Err(true) => Err(AttrFail::Kind(ErrorKind::UnexpectedEof)),
                        Err(false) => Err(AttrFail::Xml),
                        Ok((end, p2, o2, a2)) => match xml_dictionary(xml.subrange(p, end)) {
                            Some(Some((keys, _))) => {
                                proof {
                                    lemma_lib_run_advance(xml, p, o, a, p);
                                }
                                body_run(
                                    xml,
                                    p2,
                                    o2,
                                    a2,
                                    v1,
                                    ids,
                                    n64,
                                    n32,
                                    outline,
                                    advance,
                                    true,
                                    note,
                                    image,
                                    keys.contains(PUBLIC_OBJECT_LIBS_KEY@),
                                    vals,
                                )
                            },
                            Some(None) => Err(AttrFail::Kind(ErrorKind::LibMustBeDictionary)),
                            None => Err(AttrFail::Kind(ErrorKind::BadLib)),
                        },
                    }
                }
            } else if is_ascii_name(nm@, "note"@) {
                if v1 {
                    Err(AttrFail::Kind(ErrorKind::UnexpectedV1Element("note")))
                } else if note {
                    Err(AttrFail::Kind(ErrorKind::DuplicateElement("note")))
                } else {
                    match note_run(xml, p, o, a, None) {
                        Err(true) => Err(AttrFail::Kind(ErrorKind::UnexpectedEof)),
                        Err(false) => Err(AttrFail::Xml),
                        Ok((t, p2, o2, a2)) => {
                            proof {
                                lemma_note_run_advance(xml, p, o, a, None);
                            }
                            body_run(xml, p2, o2, a2, v1, ids, n64, n32, outline, advance, lib, t is Some, image, object_libs, vals)
                        },
                    }
                }
            } else {
                Err(AttrFail::Kind(ErrorKind::UnexpectedElement))
            },
            XmlEvent::Empty(nm, c) => if is_ascii_name(nm@, "outline"@) {
                if outline {
                    Err(AttrFail::Kind(ErrorKind::DuplicateElement("outline")))
                } else {
                    body_run(xml, p, o, a, v1, ids, n64, n32, true, advance, lib, note, image, object_libs, vals)
                }
            } else {
                match body_tag(nm@, c@, v1, ids, n64, n32, advance, image, vals) {
                    Err(f) => Err(f),
                    Ok((ids2, advance2, image2, vals2)) => body_run(
                        xml,
                        p,
                        o,
                        a,
                        v1,
                        ids2,
                        n64,
                        n32,
                        outline,
                        advance2,
                        lib,
                        note,
                        image2,
                        object_libs,
                        vals2,
                    ),
                }
            },
            XmlEvent::End(nm) => if is_ascii_name(nm@, "glyph"@) {
                Ok((object_libs, vals, p, o, a))
            } else {
                Err(AttrFail::Kind(ErrorKind::MissingCloseTag))
            },
            _ => Err(AttrFail::Kind(ErrorKind::MissingCloseTag)),
        },
    }
}

/// The point tags that reading a `contour` element gives follow those given to it.
pub proof fn lemma_contour_events_keep(xml: Seq<u8>, pos: int, open: Seq<Seq<u8>>, after_text: bool, points: Seq<Seq<u8>>)
    ensures
        contour_events(xml, pos, open, after_text, points) matches Ok((q, _, _, _)) ==> q.len() >= points.len(),
    decreases cursor_measure(xml, pos, after_text),
{
    match advancing_step(xml, pos, open, after_text) {
        None => {},
        Some((e, p, o, a)) => match e {
            XmlEvent::Empty(n, c) => if is_ascii_name(n@, "point"@) {
                lemma_contour_events_keep(xml, p, o, a, points.push(c@));
            },
            _ => {},
        },
    }
}

/// Reading a `lib` element leaves the reader further on.
pub proof fn lemma_lib_run_advance(xml: Seq<u8>, pos: int, open: Seq<Seq<u8>>, after_text: bool, end: int)
    ensures
        lib_run(xml, pos, open, after_text, end) matches Ok((_, p, _, a)) ==> p <= xml.len() && cursor_measure(xml, p, a)
            < cursor_measure(xml, pos, after_text),
    decreases cursor_measure(xml, pos, after_text),
{
    match advancing_step(xml, pos, open, after_text) {
        None => {},
        Some((e, p, o, a)) => match e {
            XmlEvent::Eof => {},
            XmlEvent::End(n) => if !is_ascii_name(n@, "lib"@) {
                lemma_lib_run_advance(xml, p, o, a, p);
            },
            _ => {
                lemma_lib_run_advance(xml, p, o, a, p);
            },
        },
    }
}

/// Reading a `note` element leaves the reader further on.
pub proof fn lemma_note_run_advance(xml: Seq<u8>, pos: int, open: Seq<Seq<u8>>, after_text: bool, note: Option<Seq<char>>)
    ensures
        note_run(xml, pos, open, after_text, note) matches Ok((_, p, _, a)) ==> p <= xml.len() && cursor_measure(xml, p, a)
            < cursor_measure(xml, pos, after_text),
    decreases cursor_measure(xml, pos, after_text),
{
    match advancing_step(xml, pos, open, after_text) {
        None => {},
        Some((e, p, o, a)) => match e {
            XmlEvent::Eof => {},
            XmlEvent::End(n) => if !is_ascii_name(n@, "note"@) {
                lemma_note_run_advance(xml, p, o, a, note);
            },
            XmlEvent::Text(t) => match xml_content_text(t@) {
                Some(text) => {
                    lemma_note_run_advance(xml, p, o, a, Some(text));
                },
                None => {},
            },
            _ => {
                lemma_note_run_advance(xml, p, o, a, note);
            },
        },
    }
}

/// True when the next event of a reader of `xml` in the given state is an end tag
/// named `tag`.
pub open spec fn closes_at_once(xml: Seq<u8>, pos: int, open: Seq<Seq<u8>>, after_text: bool, tag: Seq<char>) -> bool {
    advancing_step(xml, pos, open, after_text) matches Some((XmlEvent::End(n), _, _, _)) && is_ascii_name(n@, tag)
}

/// What reading the rest of a `lib` element gives, from a reader of `xml` in the given
/// state, where the content read so far ends at `end`: where the content ends (after
/// the last event before the `lib` end tag), and the reader's state after that tag.
/// `Err(true)` where the file ends first, `Err(false)` where the reader fails.
pub open spec fn lib_run(xml: Seq<u8>, pos: int, open: Seq<Seq<u8>>, after_text: bool, end: int) -> Result<(int, int, Seq<Seq<u8>>, bool), bool>
    decreases cursor_measure(xml, pos, after_text),
{
    match advancing_step(xml, pos, open, after_text) {
        None => Err(false),
        Some((e, p, o, a)) => match e {
            XmlEvent::Eof => Err(true),
            XmlEvent::End(n) => if is_ascii_name(n@, "lib"@) {
                Ok((end, p, o, a))
            } else {
                lib_run(xml, p, o, a, p)
            },
            _ => lib_run(xml, p, o, a, p),
        },
    }
}

impl GlifParser {
    spec fn v1(&self) -> bool {
        self.glyph.format == GlifVersion::V1
    }

    /// Reads the attributes of an element of this kind.
    fn attrs<F: Fn(&str) -> Option<u64>, G: Fn(&str) -> Option<u32>>(
        &mut self,
        kind: ElementKind,
        content: &Vec<u8>,
        name: &Vec<u8>,
        read_f64: &F,
        read_f32: &G,
        Ghost(n64): Ghost<spec_fn(Seq<char>) -> Option<u64>>,
        Ghost(n32): Ghost<spec_fn(Seq<char>) -> Option<u32>>,
    ) -> (res: Result<ElementAttrs, GlifLoadError>)
        requires
            name@.len() <= content@.len(),
            reads_as(*read_f64, n64),
            reads_as32(*read_f32, n32),
        ensures
            final(self).glyph == old(self).glyph,
            match spec_attrs(
                kind,
                xml_tag_attributes(content@, name@.len() as usize),
                0,
                initial_attrs(),
                old(self).v1(),
                id_texts(old(self).seen_identifiers@),
                n64,
                n32,
            ) {
                Ok((a, s)) => res matches Ok(r) && attrs_view(r) == a && id_texts(final(self).seen_identifiers@) == s,
                Err(f) => reports_fail(res, f),
            },
    {
        let v1 = self.glyph.format == GlifVersion::V1;
        read_element_attrs(kind, content, name, v1, &mut self.seen_identifiers, read_f64, read_f32, Ghost(n64), Ghost(n32))
    }

    /// A `point` element: a point added to the contour being drawn; both coordinates
    /// are required.
    fn parse_point<F: Fn(&str) -> Option<u64>, G: Fn(&str) -> Option<u32>>(
        &mut self,
        content: &Vec<u8>,
        name: &Vec<u8>,
        builder: &mut OutlineBuilder,
        read_f64: &F,
        read_f32: &G,
        Ghost(n64): Ghost<spec_fn(Seq<char>) -> Option<u64>>,
        Ghost(n32): Ghost<spec_fn(Seq<char>) -> Option<u32>>,
    ) -> (res: Result<(), GlifLoadError>)
        requires
            name@.len() <= content@.len(),
            reads_as(*read_f64, n64),
            reads_as32(*read_f32, n32),
        ensures
            final(self).glyph.width == old(self).glyph.width,
            final(self).glyph.height == old(self).glyph.height,
            final(self).glyph.codepoints == old(self).glyph.codepoints,
            final(self).glyph == old(self).glyph,
            final(builder).spec_contours() == old(builder).spec_contours(),
            final(builder).spec_components() == old(builder).spec_components(),
            match spec_attrs(
                ElementKind::Point,
                xml_tag_attributes(content@, name@.len() as usize),
                0,
                initial_attrs(),
                old(self).v1(),
                id_texts(old(self).seen_identifiers@),
                n64,
                n32,
            ) {
                Ok((a, ids)) => if a.x is Some && a.y is Some {
                    match old(builder).spec_scratch() {
                        None => res == Err::<(), GlifLoadError>(GlifLoadError::Parse(ErrorKind::PenPathNotStarted)),
                        Some((c, n)) => match crate::glyph::builder::add_point_error(c.points@, n, a.typ, a.smooth) {
                            Some(e) => res == Err::<(), GlifLoadError>(GlifLoadError::Parse(spec_builder_error(e))),
                            None => res is Ok && (final(builder).spec_scratch() matches Some((c2, n2))
                                && c2.points@.len() == c.points@.len() + 1
                                && c2.points@.subrange(0, c.points@.len() as int) == c.points@
                                && n2 == crate::glyph::builder::next_offcurve_count(n, a.typ)
                                && c2.points@.last().x.0 == a.x->Some_0 && c2.points@.last().y.0 == a.y->Some_0
                                && c2.points@.last().typ == a.typ && c2.points@.last().smooth == a.smooth)
                                && id_texts(final(self).seen_identifiers@) == ids,
                        },
                    }
                } else {
                    res == Err::<(), GlifLoadError>(GlifLoadError::Parse(ErrorKind::BadPoint))
                },
                Err(f) => reports_fail(res, f),
            },
    {
        let a = match self.attrs(ElementKind::Point, content, name, read_f64, read_f32, Ghost(n64), Ghost(n32)) {
            Ok(a) => a,
            Err(e) => {
                return Err(e);
            },
        };
        match (a.x, a.y) {
            (Some(x), Some(y)) => match builder.add_point(x, y, a.typ, a.smooth, a.name, a.identifier) {
                Ok(_) => Ok(()),
                Err(e) => Err(builder_error(e)),
            },
            _ => Err(GlifLoadError::Parse(ErrorKind::BadPoint)),
        }
    }

    /// A `component` element: a component added to the outline; a base is required.
    fn parse_component<F: Fn(&str) -> Option<u64>, G: Fn(&str) -> Option<u32>>(
        &mut self,
        content: &Vec<u8>,
        name: &Vec<u8>,
        builder: &mut OutlineBuilder,
        names: &mut NameList,
        read_f64: &F,
        read_f32: &G,
        Ghost(n64): Ghost<spec_fn(Seq<char>) -> Option<u64>>,
        Ghost(n32): Ghost<spec_fn(Seq<char>) -> Option<u32>>,
    ) -> (res: Result<(), GlifLoadError>)
        requires
            name@.len() <= content@.len(),
            reads_as(*read_f64, n64),
            reads_as32(*read_f32, n32),
        ensures
            final(self).glyph.width == old(self).glyph.width,
            final(self).glyph.height == old(self).glyph.height,
            final(self).glyph.codepoints == old(self).glyph.codepoints,
            final(self).glyph == old(self).glyph,
            final(builder).spec_contours() == old(builder).spec_contours(),
            final(builder).spec_scratch() == old(builder).spec_scratch(),
            match spec_attrs(
                ElementKind::Component,
                xml_tag_attributes(content@, name@.len() as usize),
                0,
                initial_attrs(),
                old(self).v1(),
                id_texts(old(self).seen_identifiers@),
                n64,
                n32,
            ) {
                Ok((a, ids)) => match a.base {
                    Some(base) => res is Ok && id_texts(final(self).seen_identifiers@) == ids
                        && final(builder).spec_components().len() == old(builder).spec_components().len() + 1
                        && final(builder).spec_components().last().base@ == base
                        && final(builder).spec_components().last().transform == a.transform,
                    None => res == Err::<(), GlifLoadError>(GlifLoadError::Parse(ErrorKind::ComponentMissingBase))
                        && final(builder).spec_components() == old(builder).spec_components(),
                },
                Err(f) => reports_fail(res, f) && final(builder).spec_components() == old(builder).spec_components(),
            },
    {
        let a = match self.attrs(ElementKind::Component, content, name, read_f64, read_f32, Ghost(n64), Ghost(n32)) {
            Ok(a) => a,
            Err(e) => {
                return Err(e);
            },
        };
        match a.base {
            Some(base) => {
                let interned = names.get(&base);
                builder.add_component(interned, a.transform, a.identifier);
                Ok(())
            },
            None => Err(GlifLoadError::Parse(ErrorKind::ComponentMissingBase)),
        }
    }

    /// An `anchor` element: an anchor added to the glyph; both coordinates are
    /// required.
    fn parse_anchor<F: Fn(&str) -> Option<u64>, G: Fn(&str) -> Option<u32>>(
        &mut self,
        content: &Vec<u8>,
        name: &Vec<u8>,
        read_f64: &F,
        read_f32: &G,
        Ghost(n64): Ghost<spec_fn(Seq<char>) -> Option<u64>>,
        Ghost(n32): Ghost<spec_fn(Seq<char>) -> Option<u32>>,
    ) -> (res: Result<(), GlifLoadError>)
        requires
            name@.len() <= content@.len(),
            reads_as(*read_f64, n64),
            reads_as32(*read_f32, n32),
        ensures
            final(self).glyph.width == old(self).glyph.width,
            final(self).glyph.height == old(self).glyph.height,
            final(self).glyph.codepoints == old(self).glyph.codepoints,
            final(self).glyph.format == old(self).glyph.format,
            final(self).glyph.name == old(self).glyph.name,
            final(self).glyph.lib == old(self).glyph.lib,
            final(self).glyph.note == old(self).glyph.note,
            final(self).glyph.image == old(self).glyph.image,
            final(self).glyph.contours == old(self).glyph.contours,
            match spec_attrs(
                ElementKind::Anchor,
                xml_tag_attributes(content@, name@.len() as usize),
                0,
                initial_attrs(),
                old(self).v1(),
                id_texts(old(self).seen_identifiers@),
                n64,
                n32,
            ) {
                Ok((a, ids)) => if a.x is Some && a.y is Some {
                    res is Ok && id_texts(final(self).seen_identifiers@) == ids && final(self).glyph.anchors@.len() == old(self).glyph.anchors@.len() + 1
                        && final(self).glyph.anchors@.last().x.0 == a.x->Some_0
                        && final(self).glyph.anchors@.last().y.0 == a.y->Some_0
                        && final(self).glyph.anchors@.last().color == a.color
                } else {
                    res == Err::<(), GlifLoadError>(GlifLoadError::Parse(ErrorKind::BadAnchor))
                },
                Err(f) => reports_fail(res, f),
            },
    {
        let a = match self.attrs(ElementKind::Anchor, content, name, read_f64, read_f32, Ghost(n64), Ghost(n32)) {
            Ok(a) => a,
            Err(e) => {
                return Err(e);
            },
        };
        match (a.x, a.y) {
            (Some(x), Some(y)) => {
                let anchor = Anchor::new(x, y, a.name, a.color, a.identifier, None);
                self.glyph.anchors.push(anchor);
                Ok(())
            },
            _ => Err(GlifLoadError::Parse(ErrorKind::BadAnchor)),
        }
    }

    /// A `guideline` element: a guideline added to the glyph. It has `x` alone, `y`
    /// alone, or `x`, `y` and `angle`.
    fn parse_guideline<F: Fn(&str) -> Option<u64>, G: Fn(&str) -> Option<u32>>(
        &mut self,
        content: &Vec<u8>,
        name: &Vec<u8>,
        read_f64: &F,
        read_f32: &G,
        Ghost(n64): Ghost<spec_fn(Seq<char>) -> Option<u64>>,
        Ghost(n32): Ghost<spec_fn(Seq<char>) -> Option<u32>>,
    ) -> (res: Result<(), GlifLoadError>)
        requires
            name@.len() <= content@.len(),
            reads_as(*read_f64, n64),
            reads_as32(*read_f32, n32),
        ensures
            final(self).glyph.width == old(self).glyph.width,
            final(self).glyph.height == old(self).glyph.height,
            final(self).glyph.codepoints == old(self).glyph.codepoints,
            final(self).glyph.format == old(self).glyph.format,
            final(self).glyph.name == old(self).glyph.name,
            final(self).glyph.lib == old(self).glyph.lib,
            final(self).glyph.note == old(self).glyph.note,
            final(self).glyph.image == old(self).glyph.image,
            final(self).glyph.contours == old(self).glyph.contours,
            match spec_attrs(
                ElementKind::Guideline,
                xml_tag_attributes(content@, name@.len() as usize),
                0,
                initial_attrs(),
                old(self).v1(),
                id_texts(old(self).seen_identifiers@),
                n64,
                n32,
            ) {
                Ok((a, ids)) => match spec_guideline_line(a.x, a.y, a.angle) {
                    Some(line) => res is Ok && id_texts(final(self).seen_identifiers@) == ids && final(self).glyph.guidelines@.len() == old(self).glyph.guidelines@.len() + 1
                        && final(self).glyph.guidelines@.last().spec_line() == line
                        && final(self).glyph.guidelines@.last().spec_color() == a.color,
                    None => res == Err::<(), GlifLoadError>(GlifLoadError::Parse(ErrorKind::BadGuideline)),
                },
                Err(f) => reports_fail(res, f),
            },
    {
        let a = match self.attrs(ElementKind::Guideline, content, name, read_f64, read_f32, Ghost(n64), Ghost(n32)) {
            Ok(a) => a,
            Err(e) => {
                return Err(e);
            },
        };
        let line = match (a.x, a.y, a.angle) {
            (Some(x), None, None) => Line::Vertical(x),
            (None, Some(y), None) => Line::Horizontal(y),
            (Some(x), Some(y), Some(degrees)) => Line::Angle { x, y, degrees },
            _ => {
                return Err(GlifLoadError::Parse(ErrorKind::BadGuideline));
            },
        };
        let guideline = Guideline::new(line, a.name, a.color, a.identifier, None);
        self.glyph.guidelines.push(guideline);
        Ok(())
    }

    /// An `image` element: the glyph's image; a file name without a directory is
    /// required.
    fn parse_image<F: Fn(&str) -> Option<u64>, G: Fn(&str) -> Option<u32>>(
        &mut self,
        content: &Vec<u8>,
        name: &Vec<u8>,
        read_f64: &F,
        read_f32: &G,
        Ghost(n64): Ghost<spec_fn(Seq<char>) -> Option<u64>>,
        Ghost(n32): Ghost<spec_fn(Seq<char>) -> Option<u32>>,
    ) -> (res: Result<(), GlifLoadError>)
        requires
            name@.len() <= content@.len(),
            reads_as(*read_f64, n64),
            reads_as32(*read_f32, n32),
        ensures
            final(self).glyph.width == old(self).glyph.width,
            final(self).glyph.height == old(self).glyph.height,
            final(self).glyph.codepoints == old(self).glyph.codepoints,
            final(self).glyph.format == old(self).glyph.format,
            final(self).glyph.name == old(self).glyph.name,
            final(self).glyph.lib == old(self).glyph.lib,
            final(self).glyph.note == old(self).glyph.note,
            final(self).glyph.contours == old(self).glyph.contours,
            match spec_attrs(
                ElementKind::Image,
                xml_tag_attributes(content@, name@.len() as usize),
                0,
                initial_attrs(),
                old(self).v1(),
                id_texts(old(self).seen_identifiers@),
                n64,
                n32,
            ) {
                Ok((a, ids)) => match a.file_name {
                    Some(f) => if crate::glyph::spec_image_name_error(f) is None {
                        res is Ok && id_texts(final(self).seen_identifiers@) == ids && (final(self).glyph.image matches Some(img) && img.spec_file_name() == f
                            && img.spec_color() == a.color && img.spec_transform() == a.transform)
                    } else {
                        res == Err::<(), GlifLoadError>(GlifLoadError::Parse(ErrorKind::BadImage))
                    },
                    None => res == Err::<(), GlifLoadError>(GlifLoadError::Parse(ErrorKind::BadImage)),
                },
                Err(f) => reports_fail(res, f),
            },
    {
        let a = match self.attrs(ElementKind::Image, content, name, read_f64, read_f32, Ghost(n64), Ghost(n32)) {
            Ok(a) => a,
            Err(e) => {
                return Err(e);
            },
        };
        match a.file_name {
            Some(file_name) => match Image::new(file_name, a.color, a.transform) {
                Ok(image) => {
                    self.glyph.image = Some(image);
                    Ok(())
                },
                Err(_) => Err(GlifLoadError::Parse(ErrorKind::BadImage)),
            },
            None => Err(GlifLoadError::Parse(ErrorKind::BadImage)),
        }
    }

    /// The `advance` element: the glyph's width and height, zero where not given.
    fn parse_advance<F: Fn(&str) -> Option<u64>, G: Fn(&str) -> Option<u32>>(
        &mut self,
        content: &Vec<u8>,
        name: &Vec<u8>,
        read_f64: &F,
        read_f32: &G,
        Ghost(n64): Ghost<spec_fn(Seq<char>) -> Option<u64>>,
        Ghost(n32): Ghost<spec_fn(Seq<char>) -> Option<u32>>,
    ) -> (res: Result<(), GlifLoadError>)
        requires
            name@.len() <= content@.len(),
            reads_as(*read_f64, n64),
            reads_as32(*read_f32, n32),
        ensures
            final(self).glyph.codepoints == old(self).glyph.codepoints,
            final(self).glyph.format == old(self).glyph.format,
            final(self).glyph.name == old(self).glyph.name,
            final(self).glyph.lib == old(self).glyph.lib,
            final(self).glyph.note == old(self).glyph.note,
            final(self).glyph.image == old(self).glyph.image,
            final(self).glyph.contours == old(self).glyph.contours,
            match spec_attrs(
                ElementKind::Advance,
                xml_tag_attributes(content@, name@.len() as usize),
                0,
                initial_attrs(),
                old(self).v1(),
                id_texts(old(self).seen_identifiers@),
                n64,
                n32,
            ) {
                Ok((a, ids)) => res is Ok && id_texts(final(self).seen_identifiers@) == ids && final(self).glyph.width.0 == a.width && final(self).glyph.height.0 == a.height,
                Err(f) => reports_fail(res, f),
            },
    {
        let a = match self.attrs(ElementKind::Advance, content, name, read_f64, read_f32, Ghost(n64), Ghost(n32)) {
            Ok(a) => a,
            Err(e) => {
                return Err(e);
            },
        };
        self.glyph.width = a.width;
        self.glyph.height = a.height;
        Ok(())
    }

    /// A `unicode` element: its code points added to the glyph's, each unless it is
    /// there already.
    fn parse_unicode<F: Fn(&str) -> Option<u64>, G: Fn(&str) -> Option<u32>>(
        &mut self,
        content: &Vec<u8>,
        name: &Vec<u8>,
        read_f64: &F,
        read_f32: &G,
        Ghost(n64): Ghost<spec_fn(Seq<char>) -> Option<u64>>,
        Ghost(n32): Ghost<spec_fn(Seq<char>) -> Option<u32>>,
    ) -> (res: Result<(), GlifLoadError>)
        requires
            name@.len() <= content@.len(),
            reads_as(*read_f64, n64),
            reads_as32(*read_f32, n32),
        ensures
            final(self).glyph.width == old(self).glyph.width,
            final(self).glyph.height == old(self).glyph.height,
            final(self).glyph.format == old(self).glyph.format,
            final(self).glyph.name == old(self).glyph.name,
            final(self).glyph.lib == old(self).glyph.lib,
            final(self).glyph.note == old(self).glyph.note,
            final(self).glyph.image == old(self).glyph.image,
            final(self).glyph.contours == old(self).glyph.contours,
            match spec_attrs(
                ElementKind::Unicode,
                xml_tag_attributes(content@, name@.len() as usize),
                0,
                initial_attrs(),
                old(self).v1(),
                id_texts(old(self).seen_identifiers@),
                n64,
                n32,
            ) {
                Ok((a, ids)) => res is Ok && id_texts(final(self).seen_identifiers@) == ids && final(self).glyph.codepoints@ == insert_all(old(self).glyph.codepoints@, a.codepoints),
                Err(f) => reports_fail(res, f),
            },
    {
        let a = match self.attrs(ElementKind::Unicode, content, name, read_f64, read_f32, Ghost(n64), Ghost(n32)) {
            Ok(a) => a,
            Err(e) => {
                return Err(e);
            },
        };
        let ghost seen1 = self.seen_identifiers;
        let ghost start = self.glyph.codepoints@;
        let mut i: usize = 0;
        proof {
            assert(a.codepoints@.subrange(0, 0) =~= Seq::<char>::empty());
        }
        while i < a.codepoints.len()
            invariant
                0 <= i <= a.codepoints@.len(),
                self.glyph.format == old(self).glyph.format,
                self.seen_identifiers == seen1,
                self.glyph.name == old(self).glyph.name,
                self.glyph.lib == old(self).glyph.lib,
                self.glyph.note == old(self).glyph.note,
                self.glyph.image == old(self).glyph.image,
                self.glyph.width == old(self).glyph.width,
                self.glyph.height == old(self).glyph.height,
                self.glyph.contours == old(self).glyph.contours,
                self.glyph.codepoints@ == insert_all(start, a.codepoints@.subrange(0, i as int)),
            decreases a.codepoints@.len() - i,
        {
            let c = a.codepoints[i];
            let ghost before = self.glyph.codepoints@;
            self.glyph.codepoints.insert(c);
            proof {
                assert(a.codepoints@.subrange(0, i + 1).drop_last() =~= a.codepoints@.subrange(0, i as int));
            }
            i += 1;
        }
        proof {
            assert(a.codepoints@.subrange(0, a.codepoints@.len() as int) =~= a.codepoints@);
        }
        Ok(())
    }
}

impl GlifParser {
    /// A `contour` element: its points drawn as one path. Format 1 contours have no
    /// attributes.
    fn parse_contour<F: Fn(&str) -> Option<u64>, G: Fn(&str) -> Option<u32>>(
        &mut self,
        content: &Vec<u8>,
        name: &Vec<u8>,
        cursor: &mut XmlCursor,
        builder: &mut OutlineBuilder,
        read_f64: &F,
        read_f32: &G,
        Ghost(n64): Ghost<spec_fn(Seq<char>) -> Option<u64>>,
        Ghost(n32): Ghost<spec_fn(Seq<char>) -> Option<u32>>,
    ) -> (res: Result<(), GlifLoadError>)
        requires
            name@.len() <= content@.len(),
            old(cursor).wf(),
            reads_as(*read_f64, n64),
            reads_as32(*read_f32, n32),
        ensures
            final(self).glyph.width == old(self).glyph.width,
            final(self).glyph.height == old(self).glyph.height,
            final(self).glyph.codepoints == old(self).glyph.codepoints,
            final(self).glyph == old(self).glyph,
            cursor_moved(*old(cursor), *final(cursor)),
            res is Ok ==> final(builder).spec_scratch() is None,
            spec_attrs(
                ElementKind::Contour,
                xml_tag_attributes(content@, name@.len() as usize),
                0,
                initial_attrs(),
                old(self).v1(),
                id_texts(old(self).seen_identifiers@),
                n64,
                n32,
            ) matches Err(f) ==> reports_fail(res, f),
            old(builder).spec_scratch() is Some ==> res is Err,
            contour_events(
                old(cursor).spec_xml(),
                old(cursor).spec_pos(),
                old(cursor).spec_open(),
                old(cursor).spec_after_text(),
                Seq::empty(),
            ) is Err ==> res is Err,
            res is Ok ==> (contour_events(
                old(cursor).spec_xml(),
                old(cursor).spec_pos(),
                old(cursor).spec_open(),
                old(cursor).spec_after_text(),
                Seq::empty(),
            ) matches Ok((pts, p, o, a)) && final(cursor).spec_pos() == p && final(cursor).spec_open() == o
                && final(cursor).spec_after_text() == a && final(builder).spec_components() == old(builder).spec_components()
                && if pts.len() > 0 {
                final(builder).spec_contours().len() == old(builder).spec_contours().len() + 1
                    && final(builder).spec_contours().drop_last() == old(builder).spec_contours()
                    && final(builder).spec_contours().last().points@.len() == pts.len()
            } else {
                final(builder).spec_contours() == old(builder).spec_contours()
            }),
            match spec_attrs(
                ElementKind::Contour,
                xml_tag_attributes(content@, name@.len() as usize),
                0,
                initial_attrs(),
                old(self).v1(),
                id_texts(old(self).seen_identifiers@),
                n64,
                n32,
            ) {
                Err(f) => reports_fail(res, f),
                Ok((_, ids)) => if old(builder).spec_scratch() is Some {
                    res == Err::<(), GlifLoadError>(GlifLoadError::Parse(ErrorKind::UnfinishedDrawing))
                } else {
                    match contour_run(
                        old(cursor).spec_xml(),
                        old(cursor).spec_pos(),
                        old(cursor).spec_open(),
                        old(cursor).spec_after_text(),
                        old(self).v1(),
                        ids,
                        n64,
                        n32,
                        Seq::empty(),
                        0,
                    ) {
                        Err(f) => reports_fail(res, f),
                        Ok((types, n, ids2, p, o, a)) => final(cursor).spec_pos() == p && final(cursor).spec_open() == o
                            && final(cursor).spec_after_text() == a && id_texts(final(self).seen_identifiers@) == ids2
                            && match types_end_error(types, n) {
                            Some(e) => res == Err::<(), GlifLoadError>(GlifLoadError::Parse(spec_builder_error(e))),
                            None => res is Ok && if types.len() > 0 {
                                final(builder).spec_contours().len() == old(builder).spec_contours().len() + 1
                                    && final(builder).spec_contours().drop_last() == old(builder).spec_contours()
                                    && point_types(final(builder).spec_contours().last().points@) == types
                            } else {
                                final(builder).spec_contours() == old(builder).spec_contours()
                            },
                        },
                    }
                },
            },
    {
        let a = match self.attrs(ElementKind::Contour, content, name, read_f64, read_f32, Ghost(n64), Ghost(n32)) {
            Ok(a) => a,
            Err(e) => {
                return Err(e);
            },
        };
        let ghost ids0 = id_texts(self.seen_identifiers@);
        let ghost run0 = contour_run(
            cursor.spec_xml(),
            cursor.spec_pos(),
            cursor.spec_open(),
            cursor.spec_after_text(),
            old(self).v1(),
            ids0,
            n64,
            n32,
            Seq::empty(),
            0,
        );
        match builder.begin_path(a.identifier) {
            Ok(_) => {},
            Err(e) => {
                return Err(builder_error(e));
            },
        }
        let ghost mut pts: Seq<Seq<u8>> = Seq::empty();
        proof {
            if let Some((c, _)) = builder.spec_scratch() {
                assert(point_types(c.points@) =~= Seq::<PointType>::empty());
            }
        }
        loop
            invariant_except_break
                builder.spec_scratch() matches Some((c, n)) && contour_run(
                    cursor.spec_xml(),
                    cursor.spec_pos(),
                    cursor.spec_open(),
                    cursor.spec_after_text(),
                    old(self).v1(),
                    id_texts(self.seen_identifiers@),
                    n64,
                    n32,
                    point_types(c.points@),
                    n,
                ) == run0,
                contour_events(cursor.spec_xml(), cursor.spec_pos(), cursor.spec_open(), cursor.spec_after_text(), pts)
                    == contour_events(
                    old(cursor).spec_xml(),
                    old(cursor).spec_pos(),
                    old(cursor).spec_open(),
                    old(cursor).spec_after_text(),
                    Seq::empty(),
                ),
            invariant
                cursor.wf(),
                cursor.spec_xml() == old(cursor).spec_xml(),
                cursor.spec_measure() <= old(cursor).spec_measure(),
                self.glyph == old(self).glyph,
                reads_as(*read_f64, n64),
                reads_as32(*read_f32, n32),
                builder.spec_contours() == old(builder).spec_contours(),
                builder.spec_components() == old(builder).spec_components(),
                builder.spec_scratch() matches Some((c, n)) && c.points@.len() == pts.len() && (pts.len() == 0 ==> n == 0),
                old(builder).spec_scratch() is None,
                spec_attrs(
                    ElementKind::Contour,
                    xml_tag_attributes(content@, name@.len() as usize),
                    0,
                    initial_attrs(),
                    old(self).v1(),
                    id_texts(old(self).seen_identifiers@),
                    n64,
                    n32,
                ) is Ok,
                spec_attrs(
                    ElementKind::Contour,
                    xml_tag_attributes(content@, name@.len() as usize),
                    0,
                    initial_attrs(),
                    old(self).v1(),
                    id_texts(old(self).seen_identifiers@),
                    n64,
                    n32,
                ) matches Ok((_, s)) && s == ids0,
                run0 == contour_run(
                    old(cursor).spec_xml(),
                    old(cursor).spec_pos(),
                    old(cursor).spec_open(),
                    old(cursor).spec_after_text(),
                    old(self).v1(),
                    ids0,
                    n64,
                    n32,
                    Seq::empty(),
                    0,
                ),
            ensures
                builder.spec_scratch() matches Some((c, n)) && run0 == Ok::<
                    (Seq<PointType>, u32, Seq<Seq<char>>, int, Seq<Seq<u8>>, bool),
                    AttrFail,
                >(
                    (
                        point_types(c.points@),
                        n,
                        id_texts(self.seen_identifiers@),
                        cursor.spec_pos(),
                        cursor.spec_open(),
                        cursor.spec_after_text(),
                    ),
                ),
                contour_events(
                    old(cursor).spec_xml(),
                    old(cursor).spec_pos(),
                    old(cursor).spec_open(),
                    old(cursor).spec_after_text(),
                    Seq::empty(),
                ) == Ok::<(Seq<Seq<u8>>, int, Seq<Seq<u8>>, bool), Option<ErrorKind>>(
                    (pts, cursor.spec_pos(), cursor.spec_open(), cursor.spec_after_text()),
                ),
            decreases cursor.spec_measure(),
        {
            proof {
                reveal_strlit("contour");
                reveal_strlit("point");
            }
            let event = match cursor.next() {
                Ok(e) => e,
                Err(e) => {
                    return Err(GlifLoadError::Xml(e));
                },
            };
            match event {
                XmlEvent::End(n) => {
                    if name_is(&n, "contour") {
                        break;
                    }
                    return Err(GlifLoadError::Parse(ErrorKind::UnexpectedElement));
                },
                XmlEvent::Empty(n, c) => {
                    if !name_is(&n, "point") {
                        return Err(GlifLoadError::Parse(ErrorKind::UnexpectedElement));
                    }
                    proof {
                        lemma_contour_events_keep(
                            cursor.spec_xml(),
                            cursor.spec_pos(),
                            cursor.spec_open(),
                            cursor.spec_after_text(),
                            pts.push(c@),
                        );
                    }
                    let ghost before = *builder;
                    match self.parse_point(&c, &n, builder, read_f64, read_f32, Ghost(n64), Ghost(n32)) {
                        Ok(()) => {},
                        Err(e) => {
                            return Err(e);
                        },
                    }
                    proof {
                        pts = pts.push(c@);
                        if let (Some((c1, _)), Some((c2, _))) = (before.spec_scratch(), builder.spec_scratch()) {
                            assert(point_types(c2.points@) =~= point_types(c1.points@).push(c2.points@.last().typ));
                        }
                    }
                },
                XmlEvent::Eof => {
                    return Err(GlifLoadError::Parse(ErrorKind::UnexpectedEof));
                },
                _ => {
                    return Err(GlifLoadError::Parse(ErrorKind::UnexpectedElement));
                },
            }
        }
        proof {
            if let Some((c, n)) = builder.spec_scratch() {
                lemma_end_error_types(c.points@, n);
            }
        }
        match builder.end_path() {
            Ok(_) => Ok(()),
            Err(e) => Err(builder_error(e)),
        }
    }

    /// The `outline` element: its contours and components added to the glyph. In
    /// format 1, a contour of one named move point is an anchor.
    fn parse_outline<F: Fn(&str) -> Option<u64>, G: Fn(&str) -> Option<u32>>(
        &mut self,
        cursor: &mut XmlCursor,
        names: &mut NameList,
        read_f64: &F,
        read_f32: &G,
        Ghost(n64): Ghost<spec_fn(Seq<char>) -> Option<u64>>,
        Ghost(n32): Ghost<spec_fn(Seq<char>) -> Option<u32>>,
    ) -> (res: Result<(), GlifLoadError>)
        requires
            old(cursor).wf(),
            reads_as(*read_f64, n64),
            reads_as32(*read_f32, n32),
        ensures
            final(self).glyph.width == old(self).glyph.width,
            final(self).glyph.height == old(self).glyph.height,
            final(self).glyph.codepoints == old(self).glyph.codepoints,
            final(self).glyph.format == old(self).glyph.format,
            final(self).glyph.name == old(self).glyph.name,
            final(self).glyph.lib == old(self).glyph.lib,
            final(self).glyph.note == old(self).glyph.note,
            final(self).glyph.image == old(self).glyph.image,
            cursor_moved(*old(cursor), *final(cursor)),
            outline_events(old(cursor).spec_xml(), old(cursor).spec_pos(), old(cursor).spec_open(), old(cursor).spec_after_text())
                is Err ==> res is Err,
            res is Ok ==> (outline_events(
                old(cursor).spec_xml(),
                old(cursor).spec_pos(),
                old(cursor).spec_open(),
                old(cursor).spec_after_text(),
            ) matches Ok((p, o, a)) && final(cursor).spec_pos() == p && final(cursor).spec_open() == o
                && final(cursor).spec_after_text() == a),
            closes_at_once(
                old(cursor).spec_xml(),
                old(cursor).spec_pos(),
                old(cursor).spec_open(),
                old(cursor).spec_after_text(),
                "outline"@,
            ) ==> res is Ok && final(self).glyph == old(self).glyph,
            match outline_run(
                old(cursor).spec_xml(),
                old(cursor).spec_pos(),
                old(cursor).spec_open(),
                old(cursor).spec_after_text(),
                old(self).v1(),
                id_texts(old(self).seen_identifiers@),
                n64,
                n32,
            ) {
                Err(f) => reports_fail(res, f),
                Ok((ids, p, o, a)) => res is Ok && final(cursor).spec_pos() == p && final(cursor).spec_open() == o
                    && final(cursor).spec_after_text() == a && id_texts(final(self).seen_identifiers@) == ids,
            },
    {
        let ghost run0 = outline_run(
            cursor.spec_xml(),
            cursor.spec_pos(),
            cursor.spec_open(),
            cursor.spec_after_text(),
            old(self).v1(),
            id_texts(self.seen_identifiers@),
            n64,
            n32,
        );
        let ghost at_once = closes_at_once(
            cursor.spec_xml(),
            cursor.spec_pos(),
            cursor.spec_open(),
            cursor.spec_after_text(),
            "outline"@,
        );
        let ghost c0 = *cursor;
        let mut builder = OutlineBuilder::new();
        loop
            invariant_except_break
                outline_events(cursor.spec_xml(), cursor.spec_pos(), cursor.spec_open(), cursor.spec_after_text())
                    == outline_events(
                    old(cursor).spec_xml(),
                    old(cursor).spec_pos(),
                    old(cursor).spec_open(),
                    old(cursor).spec_after_text(),
                ),
                at_once ==> *cursor == c0,
                outline_run(
                    cursor.spec_xml(),
                    cursor.spec_pos(),
                    cursor.spec_open(),
                    cursor.spec_after_text(),
                    old(self).v1(),
                    id_texts(self.seen_identifiers@),
                    n64,
                    n32,
                ) == run0,
            invariant
                at_once == closes_at_once(c0.spec_xml(), c0.spec_pos(), c0.spec_open(), c0.spec_after_text(), "outline"@),
                c0 == *old(cursor),
                at_once ==> (builder.spec_contours().len() == 0 && builder.spec_components().len() == 0
                    && builder.spec_scratch() is None),
                builder.spec_scratch() is None,
                run0 == outline_run(
                    old(cursor).spec_xml(),
                    old(cursor).spec_pos(),
                    old(cursor).spec_open(),
                    old(cursor).spec_after_text(),
                    old(self).v1(),
                    id_texts(old(self).seen_identifiers@),
                    n64,
                    n32,
                ),
                cursor.wf(),
                cursor.spec_xml() == old(cursor).spec_xml(),
                cursor.spec_measure() <= old(cursor).spec_measure(),
                self.glyph == old(self).glyph,
                reads_as(*read_f64, n64),
                reads_as32(*read_f32, n32),
            ensures
                outline_events(
                    old(cursor).spec_xml(),
                    old(cursor).spec_pos(),
                    old(cursor).spec_open(),
                    old(cursor).spec_after_text(),
                ) == Ok::<(int, Seq<Seq<u8>>, bool), Option<ErrorKind>>(
                    (cursor.spec_pos(), cursor.spec_open(), cursor.spec_after_text()),
                ),
                run0 == Ok::<(Seq<Seq<char>>, int, Seq<Seq<u8>>, bool), AttrFail>(
                    (id_texts(self.seen_identifiers@), cursor.spec_pos(), cursor.spec_open(), cursor.spec_after_text()),
                ),
            decreases cursor.spec_measure(),
        {
            proof {
                reveal_strlit("contour");
                reveal_strlit("component");
                reveal_strlit("outline");
            }
            let event = match cursor.next() {
                Ok(e) => e,
                Err(e) => {
                    return Err(GlifLoadError::Xml(e));
                },
            };
            match event {
                XmlEvent::Start(n, c) => {
                    if !name_is(&n, "contour") {
                        return Err(GlifLoadError::Parse(ErrorKind::UnexpectedElement));
                    }
                    match self.parse_contour(&c, &n, cursor, &mut builder, read_f64, read_f32, Ghost(n64), Ghost(n32)) {
                        Ok(()) => {},
                        Err(e) => {
                            return Err(e);
                        },
                    }
                },
                XmlEvent::Empty(n, c) => {
                    if name_is(&n, "contour") {
                        // An empty contour has no points to draw.
                    } else if name_is(&n, "component") {
                        match self.parse_component(&c, &n, &mut builder, names, read_f64, read_f32, Ghost(n64), Ghost(n32)) {
                            Ok(()) => {},
                            Err(e) => {
                                return Err(e);
                            },
                        }
                    } else {
                        return Err(GlifLoadError::Parse(ErrorKind::UnexpectedElement));
                    }
                },
                XmlEvent::End(n) => {
                    if name_is(&n, "outline") {
                        break;
                    }
                    return Err(GlifLoadError::Parse(ErrorKind::UnexpectedElement));
                },
                XmlEvent::Eof => {
                    return Err(GlifLoadError::Parse(ErrorKind::UnexpectedEof));
                },
                _ => {
                    return Err(GlifLoadError::Parse(ErrorKind::UnexpectedElement));
                },
            }
        }
        let ghost seen_end = self.seen_identifiers;
        let (mut contours, components) = match builder.finish() {
            Ok(r) => r,
            Err(e) => {
                return Err(builder_error(e));
            },
        };
        if self.glyph.format == GlifVersion::V1 {
            let mut kept: Vec<Contour> = Vec::new();
            while contours.len() > 0
                invariant
                    self.glyph.format == old(self).glyph.format,
                self.seen_identifiers == seen_end,
                    self.seen_identifiers == seen_end,
                    self.glyph.name == old(self).glyph.name,
                    self.glyph.lib == old(self).glyph.lib,
                self.glyph.lib == old(self).glyph.lib,
                    at_once ==> (contours@.len() == 0 && self.glyph == old(self).glyph && kept@.len() == 0),
                    self.glyph.note == old(self).glyph.note,
                    self.glyph.image == old(self).glyph.image,
                    self.glyph.width == old(self).glyph.width,
                    self.glyph.height == old(self).glyph.height,
                    self.glyph.codepoints == old(self).glyph.codepoints,
                decreases contours@.len(),
            {
                let mut contour = contours.remove(0);
                if contour.points.len() == 1 && contour.points[0].typ == PointType::Move
                    && contour.points[0].name.is_some() {
                    let point = contour.points.remove(0);
                    let anchor = Anchor::new(point.x, point.y, point.name, None, None, None);
                    self.glyph.anchors.push(anchor);
                } else if contour.points.len() > 0 {
                    kept.push(contour);
                }
            }
            contours = kept;
        }
        let mut i: usize = 0;
        while i < contours.len()
            invariant
                at_once ==> (contours@.len() == 0 && components@.len() == 0 && self.glyph == old(self).glyph),
                self.glyph.format == old(self).glyph.format,
                self.seen_identifiers == seen_end,
                self.glyph.name == old(self).glyph.name,
                self.glyph.lib == old(self).glyph.lib,
                self.glyph.note == old(self).glyph.note,
                self.glyph.image == old(self).glyph.image,
                self.glyph.width == old(self).glyph.width,
                self.glyph.height == old(self).glyph.height,
                self.glyph.codepoints == old(self).glyph.codepoints,
            decreases contours@.len() - i,
        {
            self.glyph.contours.push(contours[i].clone());
            i += 1;
        }
        let mut j: usize = 0;
        while j < components.len()
            invariant
                at_once ==> (components@.len() == 0 && self.glyph == old(self).glyph),
                self.glyph.format == old(self).glyph.format,
                self.seen_identifiers == seen_end,
                self.glyph.name == old(self).glyph.name,
                self.glyph.lib == old(self).glyph.lib,
                self.glyph.note == old(self).glyph.note,
                self.glyph.image == old(self).glyph.image,
                self.glyph.width == old(self).glyph.width,
                self.glyph.height == old(self).glyph.height,
                self.glyph.codepoints == old(self).glyph.codepoints,
            decreases components@.len() - j,
        {
            self.glyph.components.push(components[j].clone());
            j += 1;
        }
        Ok(())
    }

    /// The `lib` element: its content read as a property list, which must be a
    /// dictionary.
    fn parse_lib(&mut self, cursor: &mut XmlCursor) -> (res: Result<(), GlifLoadError>)
        requires
            old(cursor).wf(),
        ensures
            final(self).glyph.width == old(self).glyph.width,
            final(self).glyph.height == old(self).glyph.height,
            final(self).glyph.codepoints == old(self).glyph.codepoints,
            final(self).glyph.format == old(self).glyph.format,
            final(self).glyph.name == old(self).glyph.name,
            final(self).glyph.note == old(self).glyph.note,
            final(self).glyph.image == old(self).glyph.image,
            cursor_moved(*old(cursor), *final(cursor)),
            final(self).glyph == (Glyph { lib: final(self).glyph.lib, ..old(self).glyph }),
            final(self).seen_identifiers == old(self).seen_identifiers,
            match lib_run(
                old(cursor).spec_xml(),
                old(cursor).spec_pos(),
                old(cursor).spec_open(),
                old(cursor).spec_after_text(),
                old(cursor).spec_pos(),
            ) {
                Ok((end, p, o, a)) => final(cursor).spec_pos() == p && final(cursor).spec_open() == o
                    && final(cursor).spec_after_text() == a && match xml_dictionary(
                    old(cursor).spec_xml().subrange(old(cursor).spec_pos(), end),
                ) {
                    Some(Some((keys, strings))) => res is Ok && dict_keys(final(self).glyph.lib) == keys && dict_strings(
                        final(self).glyph.lib,
                    ) == strings,
                    Some(None) => res == Err::<(), GlifLoadError>(GlifLoadError::Parse(ErrorKind::LibMustBeDictionary)),
                    None => res == Err::<(), GlifLoadError>(GlifLoadError::Parse(ErrorKind::BadLib)),
                },
                Err(true) => res == Err::<(), GlifLoadError>(GlifLoadError::Parse(ErrorKind::UnexpectedEof)),
                Err(false) => res matches Err(GlifLoadError::Xml(_)),
            },
    {
        let start = cursor.position();
        let mut end = start;
        loop
            invariant_except_break
                lib_run(cursor.spec_xml(), cursor.spec_pos(), cursor.spec_open(), cursor.spec_after_text(), end as int)
                    == lib_run(
                    old(cursor).spec_xml(),
                    old(cursor).spec_pos(),
                    old(cursor).spec_open(),
                    old(cursor).spec_after_text(),
                    old(cursor).spec_pos(),
                ),
            invariant
                cursor.wf(),
                cursor.spec_xml() == old(cursor).spec_xml(),
                cursor.spec_measure() <= old(cursor).spec_measure(),
                start <= end <= cursor.spec_pos() <= cursor.spec_xml().len(),
                start == old(cursor).spec_pos(),
                self.glyph == old(self).glyph,
            ensures
                lib_run(
                    old(cursor).spec_xml(),
                    old(cursor).spec_pos(),
                    old(cursor).spec_open(),
                    old(cursor).spec_after_text(),
                    old(cursor).spec_pos(),
                ) == Ok::<(int, int, Seq<Seq<u8>>, bool), bool>(
                    (end as int, cursor.spec_pos(), cursor.spec_open(), cursor.spec_after_text()),
                ),
            decreases cursor.spec_measure(),
        {
            proof {
                reveal_strlit("lib");
            }
            let event = match cursor.next() {
                Ok(e) => e,
                Err(e) => {
                    return Err(GlifLoadError::Xml(e));
                },
            };
            match event {
                XmlEvent::End(n) => {
                    if name_is(&n, "lib") {
                        break;
                    }
                    end = cursor.position();
                },
                XmlEvent::Eof => {
                    return Err(GlifLoadError::Parse(ErrorKind::UnexpectedEof));
                },
                _ => {
                    end = cursor.position();
                },
            }
        }
        let slice = vstd::slice::slice_subrange(cursor.document(), start, end);
        match parse_xml_dictionary(slice) {
            Ok(Some(dict)) => {
                self.glyph.lib = dict;
                Ok(())
            },
            Ok(None) => Err(GlifLoadError::Parse(ErrorKind::LibMustBeDictionary)),
            Err(_) => Err(GlifLoadError::Parse(ErrorKind::BadLib)),
        }
    }

    /// The `note` element: its text is the glyph's note.
    fn parse_note(&mut self, cursor: &mut XmlCursor) -> (res: Result<(), GlifLoadError>)
        requires
            old(cursor).wf(),
        ensures
            final(self).glyph.width == old(self).glyph.width,
            final(self).glyph.height == old(self).glyph.height,
            final(self).glyph.codepoints == old(self).glyph.codepoints,
            final(self).glyph.format == old(self).glyph.format,
            final(self).glyph.name == old(self).glyph.name,
            final(self).glyph.image == old(self).glyph.image,
            cursor_moved(*old(cursor), *final(cursor)),
            final(self).glyph == (Glyph { note: final(self).glyph.note, ..old(self).glyph }),
            final(self).seen_identifiers == old(self).seen_identifiers,
            match note_run(
                old(cursor).spec_xml(),
                old(cursor).spec_pos(),
                old(cursor).spec_open(),
                old(cursor).spec_after_text(),
                opt_view(old(self).glyph.note),
            ) {
                Ok((note, p, o, a)) => res is Ok && opt_view(final(self).glyph.note) == note && final(cursor).spec_pos()
                    == p && final(cursor).spec_open() == o && final(cursor).spec_after_text() == a,
                Err(true) => res == Err::<(), GlifLoadError>(GlifLoadError::Parse(ErrorKind::UnexpectedEof)),
                Err(false) => res matches Err(GlifLoadError::Xml(_)),
            },
    {
        loop
            invariant_except_break
                note_run(cursor.spec_xml(), cursor.spec_pos(), cursor.spec_open(), cursor.spec_after_text(), opt_view(self.glyph.note))
                    == note_run(
                    old(cursor).spec_xml(),
                    old(cursor).spec_pos(),
                    old(cursor).spec_open(),
                    old(cursor).spec_after_text(),
                    opt_view(old(self).glyph.note),
                ),
            invariant
                cursor.wf(),
                cursor.spec_xml() == old(cursor).spec_xml(),
                cursor.spec_measure() <= old(cursor).spec_measure(),
                self.glyph.format == old(self).glyph.format,
                self.glyph.name == old(self).glyph.name,
                self.glyph.image == old(self).glyph.image,
                self.glyph == (Glyph { note: self.glyph.note, ..old(self).glyph }),
                self.seen_identifiers == old(self).seen_identifiers,
            ensures
                note_run(
                    old(cursor).spec_xml(),
                    old(cursor).spec_pos(),
                    old(cursor).spec_open(),
                    old(cursor).spec_after_text(),
                    opt_view(old(self).glyph.note),
                ) == Ok::<(Option<Seq<char>>, int, Seq<Seq<u8>>, bool), bool>(
                    (opt_view(self.glyph.note), cursor.spec_pos(), cursor.spec_open(), cursor.spec_after_text()),
                ),
            decreases cursor.spec_measure(),
        {
            proof {
                reveal_strlit("note");
            }
            let event = match cursor.next() {
                Ok(e) => e,
                Err(e) => {
                    return Err(GlifLoadError::Xml(e));
                },
            };
            match event {
                XmlEvent::End(n) => {
                    if name_is(&n, "note") {
                        break;
                    }
                },
                XmlEvent::Text(t) => {
                    match content_text(t.as_slice()) {
                        Ok(text) => {
                            self.glyph.note = Some(text);
                        },
                        Err(e) => {
                            return Err(GlifLoadError::Xml(e));
                        },
                    }
                },
                XmlEvent::Eof => {
                    return Err(GlifLoadError::Parse(ErrorKind::UnexpectedEof));
                },
                _ => {},
            }
        }
        Ok(())
    }

    /// An empty-element tag of the root element's content other than `outline`: read as
    /// [`body_tag`] says. `seen_advance` tells whether an `advance` tag was read.
    fn parse_body_tag<F: Fn(&str) -> Option<u64>, G: Fn(&str) -> Option<u32>>(
        &mut self,
        n: &Vec<u8>,
        c: &Vec<u8>,
        seen_advance: &mut bool,
        read_f64: &F,
        read_f32: &G,
        Ghost(n64): Ghost<spec_fn(Seq<char>) -> Option<u64>>,
        Ghost(n32): Ghost<spec_fn(Seq<char>) -> Option<u32>>,
    ) -> (res: Result<(), GlifLoadError>)
        requires
            n@.len() <= c@.len(),
            reads_as(*read_f64, n64),
            reads_as32(*read_f32, n32),
        ensures
            final(self).glyph.format == old(self).glyph.format,
            final(self).glyph.name == old(self).glyph.name,
            final(self).glyph.lib == old(self).glyph.lib,
            final(self).glyph.note == old(self).glyph.note,
            match body_tag(
                n@,
                c@,
                old(self).v1(),
                id_texts(old(self).seen_identifiers@),
                n64,
                n32,
                *old(seen_advance),
                old(self).glyph.image is Some,
                (old(self).glyph.width.0, old(self).glyph.height.0, old(self).glyph.codepoints@),
            ) {
                Err(f) => reports_fail(res, f),
                Ok((ids, advance, image, vals)) => res is Ok && id_texts(final(self).seen_identifiers@) == ids
                    && *final(seen_advance) == advance && (final(self).glyph.image is Some) == image
                    && final(self).glyph.width.0 == vals.0 && final(self).glyph.height.0 == vals.1
                    && final(self).glyph.codepoints@ == vals.2,
            },
    {
        proof {
            reveal_strlit("advance");
            reveal_strlit("unicode");
            reveal_strlit("anchor");
            reveal_strlit("guideline");
            reveal_strlit("image");
        }
        if name_is(n, "advance") {
            if *seen_advance {
                Err(GlifLoadError::Parse(ErrorKind::DuplicateElement("advance")))
            } else {
                *seen_advance = true;
                self.parse_advance(c, n, read_f64, read_f32, Ghost(n64), Ghost(n32))
            }
        } else if name_is(n, "unicode") {
            self.parse_unicode(c, n, read_f64, read_f32, Ghost(n64), Ghost(n32))
        } else if name_is(n, "anchor") {
            if self.glyph.format == GlifVersion::V1 {
                Err(GlifLoadError::Parse(ErrorKind::UnexpectedV1Element("anchor")))
            } else {
                self.parse_anchor(c, n, read_f64, read_f32, Ghost(n64), Ghost(n32))
            }
        } else if name_is(n, "guideline") {
            if self.glyph.format == GlifVersion::V1 {
                Err(GlifLoadError::Parse(ErrorKind::UnexpectedV1Element("guideline")))
            } else {
                self.parse_guideline(c, n, read_f64, read_f32, Ghost(n64), Ghost(n32))
            }
        } else if name_is(n, "image") {
            if self.glyph.format == GlifVersion::V1 {
                Err(GlifLoadError::Parse(ErrorKind::UnexpectedV1Element("image")))
            } else if self.glyph.image.is_some() {
                Err(GlifLoadError::Parse(ErrorKind::DuplicateElement("image")))
            } else {
                self.parse_image(c, n, read_f64, read_f32, Ghost(n64), Ghost(n32))
            }
        } else {
            Err(GlifLoadError::Parse(ErrorKind::UnexpectedElement))
        }
    }

    /// One event of the root element's content, with the element it opens, read as
    /// [`body_run`] says: `Ok(true)` at the root's end tag, `Ok(false)` after an
    /// element, with the flags that `body_run` keeps brought up to date.
    #[verifier::rlimit(100)]
    #[verifier::spinoff_prover]
    fn body_step<F: Fn(&str) -> Option<u64>, G: Fn(&str) -> Option<u32>>(
        &mut self,
        cursor: &mut XmlCursor,
        names: &mut NameList,
        seen_outline: &mut bool,
        seen_advance: &mut bool,
        seen_lib: &mut bool,
        read_f64: &F,
        read_f32: &G,
        Ghost(n64): Ghost<spec_fn(Seq<char>) -> Option<u64>>,
        Ghost(n32): Ghost<spec_fn(Seq<char>) -> Option<u32>>,
    ) -> (res: Result<bool, GlifLoadError>)
        requires
            old(cursor).wf(),
            reads_as(*read_f64, n64),
            reads_as32(*read_f32, n32),
        ensures
            cursor_moved(*old(cursor), *final(cursor)),
            final(self).glyph.name == old(self).glyph.name,
            final(self).glyph.format == old(self).glyph.format,
            res == Ok::<bool, GlifLoadError>(true) ==> *final(self) == *old(self),
            closes_at_once(
                old(cursor).spec_xml(),
                old(cursor).spec_pos(),
                old(cursor).spec_open(),
                old(cursor).spec_after_text(),
                "glyph"@,
            ) ==> res == Ok::<bool, GlifLoadError>(true),
            match res {
                Err(_) => body_run(
                old(cursor).spec_xml(),
                old(cursor).spec_pos(),
                old(cursor).spec_open(),
                old(cursor).spec_after_text(),
                old(self).v1(),
                id_texts(old(self).seen_identifiers@),
                n64,
                n32,
                *old(seen_outline),
                *old(seen_advance),
                *old(seen_lib),
                old(self).glyph.note is Some,
                old(self).glyph.image is Some,
                dict_keys(old(self).glyph.lib).contains(PUBLIC_OBJECT_LIBS_KEY@),
                (old(self).glyph.width.0, old(self).glyph.height.0, old(self).glyph.codepoints@),
            ) matches Err(f) && reports_fail(res, f),
                Ok(true) => body_run(
                old(cursor).spec_xml(),
                old(cursor).spec_pos(),
                old(cursor).spec_open(),
                old(cursor).spec_after_text(),
                old(self).v1(),
                id_texts(old(self).seen_identifiers@),
                n64,
                n32,
                *old(seen_outline),
                *old(seen_advance),
                *old(seen_lib),
                old(self).glyph.note is Some,
                old(self).glyph.image is Some,
                dict_keys(old(self).glyph.lib).contains(PUBLIC_OBJECT_LIBS_KEY@),
                (old(self).glyph.width.0, old(self).glyph.height.0, old(self).glyph.codepoints@),
            ) == Ok::<(bool, (u64, u64, Seq<char>), int, Seq<Seq<u8>>, bool), AttrFail>(
                    (
                        dict_keys(final(self).glyph.lib).contains(PUBLIC_OBJECT_LIBS_KEY@),
                        (final(self).glyph.width.0, final(self).glyph.height.0, final(self).glyph.codepoints@),
                        final(cursor).spec_pos(),
                        final(cursor).spec_open(),
                        final(cursor).spec_after_text(),
                    ),
                ),
                Ok(false) => final(cursor).spec_measure() < old(cursor).spec_measure() && body_run(
                    final(cursor).spec_xml(),
                    final(cursor).spec_pos(),
                    final(cursor).spec_open(),
                    final(cursor).spec_after_text(),
                    final(self).v1(),
                    id_texts(final(self).seen_identifiers@),
                    n64,
                    n32,
                    *final(seen_outline),
                    *final(seen_advance),
                    *final(seen_lib),
                    final(self).glyph.note is Some,
                    final(self).glyph.image is Some,
                    dict_keys(final(self).glyph.lib).contains(PUBLIC_OBJECT_LIBS_KEY@),
                    (final(self).glyph.width.0, final(self).glyph.height.0, final(self).glyph.codepoints@),
                ) == body_run(
                old(cursor).spec_xml(),
                old(cursor).spec_pos(),
                old(cursor).spec_open(),
                old(cursor).spec_after_text(),
                old(self).v1(),
                id_texts(old(self).seen_identifiers@),
                n64,
                n32,
                *old(seen_outline),
                *old(seen_advance),
                *old(seen_lib),
                old(self).glyph.note is Some,
                old(self).glyph.image is Some,
                dict_keys(old(self).glyph.lib).contains(PUBLIC_OBJECT_LIBS_KEY@),
                (old(self).glyph.width.0, old(self).glyph.height.0, old(self).glyph.codepoints@),
            ),
            },
    {
        proof {
            reveal_strlit("outline");
            reveal_strlit("lib");
            reveal_strlit("note");
            reveal_strlit("glyph");
            reveal_strlit("advance");
            reveal_strlit("unicode");
            reveal_strlit("anchor");
            reveal_strlit("guideline");
            reveal_strlit("image");
        }
        let v1 = self.glyph.format == GlifVersion::V1;
        let event = match cursor.next() {
            Ok(e) => e,
            Err(e) => {
                return Err(GlifLoadError::Xml(e));
            },
        };
        match event {
            XmlEvent::Start(n, _c) => {
                if name_is(&n, "outline") {
                    if *seen_outline {
                        return Err(GlifLoadError::Parse(ErrorKind::DuplicateElement("outline")));
                    }
                    *seen_outline = true;
                    match self.parse_outline(cursor, names, read_f64, read_f32, Ghost(n64), Ghost(n32)) {
                        Ok(()) => Ok(false),
                        Err(e) => Err(e),
                    }
                } else if name_is(&n, "lib") {
                    if *seen_lib {
                        return Err(GlifLoadError::Parse(ErrorKind::DuplicateElement("lib")));
                    }
                    *seen_lib = true;
                    match self.parse_lib(cursor) {
                        Ok(()) => Ok(false),
                        Err(e) => Err(e),
                    }
                } else if name_is(&n, "note") {
                    if v1 {
                        return Err(GlifLoadError::Parse(ErrorKind::UnexpectedV1Element("note")));
                    }
                    if self.glyph.note.is_some() {
                        return Err(GlifLoadError::Parse(ErrorKind::DuplicateElement("note")));
                    }
                    match self.parse_note(cursor) {
                        Ok(()) => Ok(false),
                        Err(e) => Err(e),
                    }
                } else {
                    Err(GlifLoadError::Parse(ErrorKind::UnexpectedElement))
                }
            },
            XmlEvent::Empty(n, c) => {
                if name_is(&n, "outline") {
                    if *seen_outline {
                        return Err(GlifLoadError::Parse(ErrorKind::DuplicateElement("outline")));
                    }
                    *seen_outline = true;
                    Ok(false)
                } else {
                    match self.parse_body_tag(&n, &c, seen_advance, read_f64, read_f32, Ghost(n64), Ghost(n32)) {
                        Ok(()) => Ok(false),
                        Err(e) => Err(e),
                    }
                }
            },
            XmlEvent::End(n) => {
                if name_is(&n, "glyph") {
                    Ok(true)
                } else {
                    Err(GlifLoadError::Parse(ErrorKind::MissingCloseTag))
                }
            },
            _ => Err(GlifLoadError::Parse(ErrorKind::MissingCloseTag)),
        }
    }

    /// The elements of the root `glyph` element, up to its end tag; then the object libs
    /// are moved out of the glyph's lib, and the glyph is of the current format.
    fn parse_body<F: Fn(&str) -> Option<u64>, G: Fn(&str) -> Option<u32>>(
        self,
        cursor: &mut XmlCursor,
        names: &mut NameList,
        read_f64: &F,
        read_f32: &G,
        Ghost(n64): Ghost<spec_fn(Seq<char>) -> Option<u64>>,
        Ghost(n32): Ghost<spec_fn(Seq<char>) -> Option<u32>>,
    ) -> (res: Result<Glyph, GlifLoadError>)
        requires
            old(cursor).wf(),
            reads_as(*read_f64, n64),
            reads_as32(*read_f32, n32),
        ensures
            res matches Ok(g) ==> g.format == GlifVersion::V2 && !dict_keys(g.lib).contains(PUBLIC_OBJECT_LIBS_KEY@),
            res matches Ok(g) ==> g.name == self.glyph.name,
            match body_run(
                old(cursor).spec_xml(),
                old(cursor).spec_pos(),
                old(cursor).spec_open(),
                old(cursor).spec_after_text(),
                self.glyph.format == GlifVersion::V1,
                id_texts(self.seen_identifiers@),
                n64,
                n32,
                false,
                false,
                false,
                self.glyph.note is Some,
                self.glyph.image is Some,
                dict_keys(self.glyph.lib).contains(PUBLIC_OBJECT_LIBS_KEY@),
                (self.glyph.width.0, self.glyph.height.0, self.glyph.codepoints@),
            ) {
                Err(f) => reports_fail(res, f),
                Ok((object_libs, vals, p, o, a)) => final(cursor).spec_pos() == p && final(cursor).spec_open() == o
                    && final(cursor).spec_after_text() == a && (!object_libs ==> res is Ok) && (res matches Ok(g)
                    ==> g.width.0 == vals.0 && g.height.0 == vals.1 && g.codepoints@ == vals.2),
            },
            closes_at_once(
                old(cursor).spec_xml(),
                old(cursor).spec_pos(),
                old(cursor).spec_open(),
                old(cursor).spec_after_text(),
                "glyph"@,
            ) && !dict_keys(self.glyph.lib).contains(PUBLIC_OBJECT_LIBS_KEY@) ==> (res matches Ok(g) && g == (Glyph {
                format: GlifVersion::V2,
                lib: g.lib,
                ..self.glyph
            }) && dict_keys(g.lib) == dict_keys(self.glyph.lib)),
    {
        let ghost brun0 = body_run(
            cursor.spec_xml(),
            cursor.spec_pos(),
            cursor.spec_open(),
            cursor.spec_after_text(),
            self.glyph.format == GlifVersion::V1,
            id_texts(self.seen_identifiers@),
            n64,
            n32,
            false,
            false,
            false,
            self.glyph.note is Some,
            self.glyph.image is Some,
            dict_keys(self.glyph.lib).contains(PUBLIC_OBJECT_LIBS_KEY@),
            (self.glyph.width.0, self.glyph.height.0, self.glyph.codepoints@),
        );
        let ghost name0 = self.glyph.name;
        let ghost glyph0 = self.glyph;
        let ghost at_once = closes_at_once(
            cursor.spec_xml(),
            cursor.spec_pos(),
            cursor.spec_open(),
            cursor.spec_after_text(),
            "glyph"@,
        );
        let ghost c0 = *cursor;
        let ghost format0 = self.glyph.format;
        let mut parser = self;
        let mut seen_advance = false;
        let mut seen_lib = false;
        let mut seen_outline = false;
        loop
            invariant_except_break
                body_run(
                    cursor.spec_xml(),
                    cursor.spec_pos(),
                    cursor.spec_open(),
                    cursor.spec_after_text(),
                    parser.v1(),
                    id_texts(parser.seen_identifiers@),
                    n64,
                    n32,
                    seen_outline,
                    seen_advance,
                    seen_lib,
                    parser.glyph.note is Some,
                    parser.glyph.image is Some,
                    dict_keys(parser.glyph.lib).contains(PUBLIC_OBJECT_LIBS_KEY@),
                    (parser.glyph.width.0, parser.glyph.height.0, parser.glyph.codepoints@),
                ) == brun0,
                at_once ==> (*cursor == c0 && parser.glyph == glyph0),
            invariant
                cursor.wf(),
                cursor.spec_xml() == old(cursor).spec_xml(),
                parser.glyph.name == name0,
                parser.glyph.format == format0,
                reads_as(*read_f64, n64),
                reads_as32(*read_f32, n32),
                at_once == closes_at_once(c0.spec_xml(), c0.spec_pos(), c0.spec_open(), c0.spec_after_text(), "glyph"@),
                c0 == *old(cursor),
                glyph0 == self.glyph,
                brun0 == body_run(
                    old(cursor).spec_xml(),
                    old(cursor).spec_pos(),
                    old(cursor).spec_open(),
                    old(cursor).spec_after_text(),
                    self.glyph.format == GlifVersion::V1,
                    id_texts(self.seen_identifiers@),
                    n64,
                    n32,
                    false,
                    false,
                    false,
                    self.glyph.note is Some,
                    self.glyph.image is Some,
                    dict_keys(self.glyph.lib).contains(PUBLIC_OBJECT_LIBS_KEY@),
                    (self.glyph.width.0, self.glyph.height.0, self.glyph.codepoints@),
                ),
            ensures
                brun0 == Ok::<(bool, (u64, u64, Seq<char>), int, Seq<Seq<u8>>, bool), AttrFail>(
                    (
                        dict_keys(parser.glyph.lib).contains(PUBLIC_OBJECT_LIBS_KEY@),
                        (parser.glyph.width.0, parser.glyph.height.0, parser.glyph.codepoints@),
                        cursor.spec_pos(),
                        cursor.spec_open(),
                        cursor.spec_after_text(),
                    ),
                ),
                at_once ==> parser.glyph == glyph0,
            decreases cursor.spec_measure(),
        {
            let step = parser.body_step(
                cursor,
                names,
                &mut seen_outline,
                &mut seen_advance,
                &mut seen_lib,
                read_f64,
                read_f32,
                Ghost(n64),
                Ghost(n32),
            );
            match step {
                Err(e) => {
                    proof {
                        match brun0 {
                            Err(f) => {
                                match f {
                                    AttrFail::Xml => {
                                        assert(e is Xml);
                                    },
                                    AttrFail::Kind(k) => {
                                        assert(e matches GlifLoadError::Parse(k2) && k2 == k);
                                    },
                                }
                            },
                            Ok(_) => {},
                        }
                    }
                    return Err(e);
                },
                Ok(true) => {
                    break;
                },
                Ok(false) => {},
            }
        }
        let mut glyph = parser.glyph;
        match load_object_libs(&mut glyph) {
            Ok(()) => {},
            Err(e) => {
                return Err(e);
            },
        }
        glyph.format = GlifVersion::V2;
        Ok(glyph)
    }
}

/// The root `glyph` element, after any comments and the XML declaration: a glyph with
/// its name and format, both of which are required.
fn start<F: Fn(&str) -> Option<u64>, G: Fn(&str) -> Option<u32>>(
    cursor: &mut XmlCursor,
    names: &mut NameList,
    read_f64: &F,
    read_f32: &G,
    Ghost(n64): Ghost<spec_fn(Seq<char>) -> Option<u64>>,
    Ghost(n32): Ghost<spec_fn(Seq<char>) -> Option<u32>>,
) -> (res: Result<Glyph, GlifLoadError>)
    requires
        old(cursor).wf(),
        reads_as(*read_f64, n64),
        reads_as32(*read_f32, n32),
    ensures
        cursor_moved(*old(cursor), *final(cursor)),
        res matches Ok(g) ==> g.codepoints@.len() == 0 && g.width.0 == 0 && g.height.0 == 0 && g.contours@.len() == 0 && g.note is None
            && g.image is None && dict_keys(g.lib) == Set::<Seq<char>>::empty(),
        match first_element(old(cursor).spec_xml(), old(cursor).spec_pos(), old(cursor).spec_open(), old(cursor).spec_after_text()) {
            None => res matches Err(GlifLoadError::Xml(_)) && final(names).spec_names() == old(names).spec_names(),
            Some((e, p, o, a)) => final(cursor).spec_pos() == p && final(cursor).spec_open() == o
                && final(cursor).spec_after_text() == a && match root_glyph(e, n64, n32) {
                Ok((name, format)) => res matches Ok(g) && g.name@ == name && g.format == format
                    && final(names).spec_names() == if old(names).spec_names().contains(name) {
                    old(names).spec_names()
                } else {
                    old(names).spec_names().push(name)
                },
                Err(f) => reports_fail(res, f) && final(names).spec_names() == old(names).spec_names(),
            },
        },
{
    loop
        invariant
            cursor.wf(),
            cursor.spec_xml() == old(cursor).spec_xml(),
            cursor.spec_measure() <= old(cursor).spec_measure(),
            reads_as(*read_f64, n64),
            reads_as32(*read_f32, n32),
            *names == *old(names),
            first_element(cursor.spec_xml(), cursor.spec_pos(), cursor.spec_open(), cursor.spec_after_text())
                == first_element(old(cursor).spec_xml(), old(cursor).spec_pos(), old(cursor).spec_open(), old(cursor).spec_after_text()),
        decreases cursor.spec_measure(),
    {
        proof {
            reveal_strlit("glyph");
        }
        let event = match cursor.next() {
            Ok(e) => e,
            Err(e) => {
                return Err(GlifLoadError::Xml(e));
            },
        };
        match event {
            XmlEvent::Comment | XmlEvent::Decl => {},
            XmlEvent::Start(n, c) => {
                if !name_is(&n, "glyph") {
                    return Err(GlifLoadError::Parse(ErrorKind::WrongFirstElement));
                }
                let mut seen: Vec<Identifier> = Vec::new();
                assert(id_texts(seen@) =~= Seq::<Seq<char>>::empty());
                let a = match read_element_attrs(ElementKind::Glyph, &c, &n, false, &mut seen, read_f64, read_f32, Ghost(n64), Ghost(n32)) {
                    Ok(a) => a,
                    Err(e) => {
                        return Err(e);
                    },
                };
                return match (a.glyph_name, a.format) {
                    (Some(name), Some(format)) => {
                        let interned = names.get(&name);
                        Ok(Glyph::new_impl(interned, format))
                    },
                    _ => Err(GlifLoadError::Parse(ErrorKind::WrongFirstElement)),
                };
            },
            _ => {
                return Err(GlifLoadError::Parse(ErrorKind::WrongFirstElement));
            },
        }
    }
}

/// Moves the lib filed under an object's identifier in `object_libs` into the object.
fn transfer_lib(object: &mut ObjectLib, object_libs: &mut Plist) -> (res: Result<(), GlifLoadError>)
    ensures
        match old(object).spec_identifier() {
            None => res is Ok && *final(object) == *old(object) && *final(object_libs) == *old(object_libs),
            Some(id) => {
                &&& !dict_keys(*old(object_libs)).contains(id@) ==> res is Ok && *final(object) == *old(object)
                    && *final(object_libs) == *old(object_libs)
                &&& dict_dictionary_keys(*old(object_libs)).contains(id@) ==> res is Ok
                    && final(object).spec_lib() is Some && final(object).spec_identifier() == Some(id)
                    && dict_keys(*final(object_libs)) == dict_keys(*old(object_libs)).remove(id@)
                &&& dict_keys(*old(object_libs)).contains(id@) && !dict_dictionary_keys(*old(object_libs)).contains(id@)
                    ==> (res matches Err(GlifLoadError::ObjectLibMustBeDictionary(k)) && k@ == id@)
            },
        },
{
    let key = match object.identifier() {
        Some(id) => crate::text::to_string(id.as_str()),
        None => {
            return Ok(());
        },
    };
    if !crate::plist_ops::dict_contains_key(object_libs, key.as_str()) {
        return Ok(());
    }
    match dict_remove_dictionary(object_libs, key.as_str()) {
        Some(Some(lib)) => {
            object.replace_lib(lib);
            Ok(())
        },
        Some(None) => Err(GlifLoadError::ObjectLibMustBeDictionary(key)),
        None => Ok(()),
    }
}

/// Moves the lib filed under a guideline's identifier in `object_libs` into it.
fn transfer_guideline_lib(guideline: &mut Guideline, object_libs: &mut Plist) -> (res: Result<(), GlifLoadError>)
    ensures
        match old(guideline).spec_identifier() {
            None => res is Ok && *final(guideline) == *old(guideline) && *final(object_libs) == *old(object_libs),
            Some(id) => {
                &&& !dict_keys(*old(object_libs)).contains(id@) ==> res is Ok && *final(guideline) == *old(guideline)
                    && *final(object_libs) == *old(object_libs)
                &&& dict_dictionary_keys(*old(object_libs)).contains(id@) ==> res is Ok
                    && final(guideline).spec_lib() is Some && final(guideline).spec_identifier() == Some(id)
                    && final(guideline).spec_line() == old(guideline).spec_line()
                    && final(guideline).spec_name() == old(guideline).spec_name()
                    && final(guideline).spec_color() == old(guideline).spec_color()
                    && dict_keys(*final(object_libs)) == dict_keys(*old(object_libs)).remove(id@)
                &&& dict_keys(*old(object_libs)).contains(id@) && !dict_dictionary_keys(*old(object_libs)).contains(id@)
                    ==> (res matches Err(GlifLoadError::ObjectLibMustBeDictionary(k)) && k@ == id@)
            },
        },
{
    let key = match guideline.identifier() {
        Some(id) => crate::text::to_string(id.as_str()),
        None => {
            return Ok(());
        },
    };
    if !crate::plist_ops::dict_contains_key(object_libs, key.as_str()) {
        return Ok(());
    }
    match dict_remove_dictionary(object_libs, key.as_str()) {
        Some(Some(lib)) => {
            guideline.replace_lib(lib);
            Ok(())
        },
        Some(None) => Err(GlifLoadError::ObjectLibMustBeDictionary(key)),
        None => Ok(()),
    }
}

/// Moves the libs that the glyph's lib files under `public.objectLibs` into the
/// objects with those identifiers: anchors, guidelines, contours and their points, and
/// components. The key leaves the glyph's lib.
pub fn load_object_libs(glyph: &mut Glyph) -> (res: Result<(), GlifLoadError>)
    ensures
        final(glyph).format == old(glyph).format,
        final(glyph).name == old(glyph).name,
        final(glyph).width == old(glyph).width,
        final(glyph).height == old(glyph).height,
        final(glyph).codepoints == old(glyph).codepoints,
        res is Ok ==> !dict_keys(final(glyph).lib).contains(PUBLIC_OBJECT_LIBS_KEY@),
        res is Err ==> (res matches Err(e) && (e is PublicObjectLibsMustBeDictionary || e is ObjectLibMustBeDictionary)),
        !dict_keys(old(glyph).lib).contains(PUBLIC_OBJECT_LIBS_KEY@) ==> res is Ok && *final(glyph) == (Glyph {
            lib: final(glyph).lib,
            ..*old(glyph)
        }) && dict_keys(final(glyph).lib) == dict_keys(old(glyph).lib),
{
    let mut object_libs = match dict_remove_dictionary(&mut glyph.lib, PUBLIC_OBJECT_LIBS_KEY) {
        Some(Some(d)) => d,
        Some(None) => {
            return Err(GlifLoadError::PublicObjectLibsMustBeDictionary);
        },
        None => {
            assert(dict_keys(glyph.lib) =~= dict_keys(old(glyph).lib));
            return Ok(());
        },
    };
    let ghost lib_keys = dict_keys(glyph.lib);
    let mut anchors = Vec::new();
    std::mem::swap(&mut anchors, &mut glyph.anchors);
    let mut done_anchors: Vec<Anchor> = Vec::new();
    while anchors.len() > 0
        invariant
            dict_keys(glyph.lib) == lib_keys,
            glyph.format == old(glyph).format,
            glyph.name == old(glyph).name,
            glyph.width == old(glyph).width,
            glyph.height == old(glyph).height,
            glyph.codepoints == old(glyph).codepoints,
            dict_keys(old(glyph).lib).contains(PUBLIC_OBJECT_LIBS_KEY@),
        decreases anchors@.len(),
    {
        let mut anchor = anchors.remove(0);
        match transfer_lib(&mut anchor.object_lib, &mut object_libs) {
            Ok(()) => {},
            Err(e) => {
                return Err(e);
            },
        }
        done_anchors.push(anchor);
    }
    glyph.anchors = done_anchors;
    let mut guidelines = Vec::new();
    std::mem::swap(&mut guidelines, &mut glyph.guidelines);
    let mut done_guidelines: Vec<Guideline> = Vec::new();
    while guidelines.len() > 0
        invariant
            dict_keys(glyph.lib) == lib_keys,
            glyph.format == old(glyph).format,
            glyph.name == old(glyph).name,
            glyph.width == old(glyph).width,
            glyph.height == old(glyph).height,
            glyph.codepoints == old(glyph).codepoints,
            dict_keys(old(glyph).lib).contains(PUBLIC_OBJECT_LIBS_KEY@),
        decreases guidelines@.len(),
    {
        let mut guideline = guidelines.remove(0);
        match transfer_guideline_lib(&mut guideline, &mut object_libs) {
            Ok(()) => {},
            Err(e) => {
                return Err(e);
            },
        }
        done_guidelines.push(guideline);
    }
    glyph.guidelines = done_guidelines;
    let mut contours = Vec::new();
    std::mem::swap(&mut contours, &mut glyph.contours);
    let mut done_contours: Vec<Contour> = Vec::new();
    while contours.len() > 0
        invariant
            dict_keys(glyph.lib) == lib_keys,
            glyph.format == old(glyph).format,
            glyph.name == old(glyph).name,
            glyph.width == old(glyph).width,
            glyph.height == old(glyph).height,
            glyph.codepoints == old(glyph).codepoints,
            dict_keys(old(glyph).lib).contains(PUBLIC_OBJECT_LIBS_KEY@),
        decreases contours@.len(),
    {
        let mut contour = contours.remove(0);
        match transfer_lib(&mut contour.object_lib, &mut object_libs) {
            Ok(()) => {},
            Err(e) => {
                return Err(e);
            },
        }
        let mut points = Vec::new();
        std::mem::swap(&mut points, &mut contour.points);
        let mut done_points: Vec<ContourPoint> = Vec::new();
        while points.len() > 0
            invariant
                dict_keys(glyph.lib) == lib_keys,
                glyph.format == old(glyph).format,
                glyph.name == old(glyph).name,
                glyph.width == old(glyph).width,
                glyph.height == old(glyph).height,
                glyph.codepoints == old(glyph).codepoints,
                dict_keys(old(glyph).lib).contains(PUBLIC_OBJECT_LIBS_KEY@),
            decreases points@.len(),
        {
            let mut point = points.remove(0);
            match transfer_lib(&mut point.object_lib, &mut object_libs) {
                Ok(()) => {},
                Err(e) => {
                    return Err(e);
                },
            }
            done_points.push(point);
        }
        contour.points = done_points;
        done_contours.push(contour);
    }
    glyph.contours = done_contours;
    let mut components = Vec::new();
    std::mem::swap(&mut components, &mut glyph.components);
    let mut done_components: Vec<Component> = Vec::new();
    while components.len() > 0
        invariant
            dict_keys(glyph.lib) == lib_keys,
            glyph.format == old(glyph).format,
            glyph.name == old(glyph).name,
            glyph.width == old(glyph).width,
            glyph.height == old(glyph).height,
            glyph.codepoints == old(glyph).codepoints,
            dict_keys(old(glyph).lib).contains(PUBLIC_OBJECT_LIBS_KEY@),
        decreases components@.len(),
    {
        let mut component = components.remove(0);
        match transfer_lib(&mut component.object_lib, &mut object_libs) {
            Ok(()) => {},
            Err(e) => {
                return Err(e);
            },
        }
        done_components.push(component);
    }
    glyph.components = done_components;
    Ok(())
}

/// True when `f` gives one answer for each text.
pub open spec fn is_function_of_text<F: Fn(&str) -> Option<u64>>(f: F) -> bool {
    forall|t1: &str, t2: &str, r1: Option<u64>, r2: Option<u64>|
        #![trigger call_ensures(f, (t1,), r1), call_ensures(f, (t2,), r2)]
        t1@ == t2@ && call_ensures(f, (t1,), r1) && call_ensures(f, (t2,), r2) ==> r1 == r2
}

/// True when `g` gives one answer for each text.
pub open spec fn is_function_of_text32<G: Fn(&str) -> Option<u32>>(g: G) -> bool {
    forall|t1: &str, t2: &str, r1: Option<u32>, r2: Option<u32>|
        #![trigger call_ensures(g, (t1,), r1), call_ensures(g, (t2,), r2)]
        t1@ == t2@ && call_ensures(g, (t1,), r1) && call_ensures(g, (t2,), r2) ==> r1 == r2
}

/// True when `f` gives `r` for some text that reads `s`.
pub open spec fn gives64<F: Fn(&str) -> Option<u64>>(f: F, s: Seq<char>, r: Option<u64>) -> bool {
    exists|t: &str| #[trigger] call_ensures(f, (t,), r) && t@ == s
}

/// True when `g` gives `r` for some text that reads `s`.
pub open spec fn gives32<G: Fn(&str) -> Option<u32>>(g: G, s: Seq<char>, r: Option<u32>) -> bool {
    exists|t: &str| #[trigger] call_ensures(g, (t,), r) && t@ == s
}

/// What a reader of numbers gives for each text, where it gives one answer for each.
pub open spec fn meaning64<F: Fn(&str) -> Option<u64>>(f: F) -> spec_fn(Seq<char>) -> Option<u64> {
    |s: Seq<char>| choose|r: Option<u64>| #[trigger] gives64(f, s, r)
}

/// What a reader of numbers gives for each text, where it gives one answer for each.
pub open spec fn meaning32<G: Fn(&str) -> Option<u32>>(g: G) -> spec_fn(Seq<char>) -> Option<u32> {
    |s: Seq<char>| choose|r: Option<u32>| #[trigger] gives32(g, s, r)
}

/// How reading a glif file goes: a reader failure before the root element, an error
/// of the root element, or else the glyph's name that a glyph read from it has, and
/// the failure of its content as [`body_run`] reads it; where that content reads
/// without failure and its lib holds no `public.objectLibs` key, a glyph; and a glyph
/// read has the width, height and code points that its `advance` and `unicode`
/// elements give.
pub open spec fn glif_reported(
    xml: Seq<u8>,
    res: Result<Glyph, GlifLoadError>,
    n64: spec_fn(Seq<char>) -> Option<u64>,
    n32: spec_fn(Seq<char>) -> Option<u32>,
) -> bool {
    match first_element(xml, 0, Seq::empty(), false) {
        None => res matches Err(GlifLoadError::Xml(_)),
        Some((e, p, o, a)) => match root_glyph(e, n64, n32) {
            Ok((name, format)) => (res matches Ok(g) ==> g.name@ == name) && match body_run(
                xml,
                p,
                o,
                a,
                format == GlifVersion::V1,
                Seq::empty(),
                n64,
                n32,
                false,
                false,
                false,
                false,
                false,
                false,
                (0, 0, Seq::empty()),
            ) {
                Err(f) => reports_fail(res, f),
                Ok((object_libs, vals, _, _, _)) => (!object_libs ==> res is Ok) && (res matches Ok(g) ==> g.width.0
                    == vals.0 && g.height.0 == vals.1 && g.codepoints@ == vals.2),
            },
            Err(f) => reports_fail(res, f),
        },
    }
}

/// Reads a glyph from the XML of a glif file. Glyph names are interned in `names`.
/// `read_f64` and `read_f32` read the numbers of the file: each gives the bits of the
/// float that a text spells, or `None` if it spells none, and gives one answer for
/// each text.
pub fn parse_glif<F: Fn(&str) -> Option<u64>, G: Fn(&str) -> Option<u32>>(
    xml: &[u8],
    names: &mut NameList,
    read_f64: &F,
    read_f32: &G,
) -> (res: Result<Glyph, GlifLoadError>)
    requires
        forall|t: &str| #[trigger] call_requires(*read_f64, (t,)),
        forall|t: &str| #[trigger] call_requires(*read_f32, (t,)),
        is_function_of_text(*read_f64),
        is_function_of_text32(*read_f32),
    ensures
        res matches Ok(g) ==> g.format == GlifVersion::V2 && !dict_keys(g.lib).contains(PUBLIC_OBJECT_LIBS_KEY@),
        glif_reported(xml@, res, meaning64(*read_f64), meaning32(*read_f32)),
{
    let ghost n64 = meaning64(*read_f64);
    let ghost n32 = meaning32(*read_f32);
    proof {
        assert forall|t: &str, r: Option<u64>| #[trigger] call_ensures(*read_f64, (t,), r) implies r == n64(t@) by {
            assert(gives64(*read_f64, t@, r));
            let r2 = n64(t@);
            let t2 = choose|t2: &str| #[trigger] call_ensures(*read_f64, (t2,), r2) && t2@ == t@;
        }
        assert forall|t: &str, r: Option<u32>| #[trigger] call_ensures(*read_f32, (t,), r) implies r == n32(t@) by {
            assert(gives32(*read_f32, t@, r));
            let r2 = n32(t@);
            let t2 = choose|t2: &str| #[trigger] call_ensures(*read_f32, (t2,), r2) && t2@ == t@;
        }
    }
    let mut cursor = XmlCursor::new(xml);
    let glyph = match start(&mut cursor, names, read_f64, read_f32, Ghost(n64), Ghost(n32)) {
        Ok(g) => g,
        Err(e) => {
            return Err(e);
        },
    };
    assert(glyph.codepoints@ =~= Seq::<char>::empty());
    let parser = GlifParser { glyph, seen_identifiers: Vec::new() };
    assert(id_texts(parser.seen_identifiers@) =~= Seq::<Seq<char>>::empty());
    parser.parse_body(&mut cursor, names, read_f64, read_f32, Ghost(n64), Ghost(n32))
}

impl Glyph {
    /// Reads a glyph from the XML of a glif file, with the number readers that
    /// [`parse_glif`] takes.
    pub fn parse_raw<F: Fn(&str) -> Option<u64>, G: Fn(&str) -> Option<u32>>(xml: &[u8], read_f64: &F, read_f32: &G) -> (res: Result<Glyph, GlifLoadError>)
        requires
            forall|t: &str| #[trigger] call_requires(*read_f64, (t,)),
            forall|t: &str| #[trigger] call_requires(*read_f32, (t,)),
            is_function_of_text(*read_f64),
            is_function_of_text32(*read_f32),
        ensures
            res matches Ok(g) ==> g.format == GlifVersion::V2 && !dict_keys(g.lib).contains(PUBLIC_OBJECT_LIBS_KEY@),
            glif_reported(xml@, res, meaning64(*read_f64), meaning32(*read_f32)),
    {
        let mut names = NameList::new();
        parse_glif(xml, &mut names, read_f64, read_f32)
    }
}

/// The items of `s` followed by those of `cs` that are new, each inserted in turn.
pub open spec fn insert_all(s: Seq<char>, cs: Seq<char>) -> Seq<char>
    decreases cs.len(),
{
    if cs.len() == 0 {
        s
    } else {
        let r = insert_all(s, cs.drop_last());
        if r.contains(cs.last()) {
            r
        } else {
            r.push(cs.last())
        }
    }
}

/// The line of a guideline with these coordinates and angle, if they describe one.
pub open spec fn spec_guideline_line(x: Option<u64>, y: Option<u64>, angle: Option<u64>) -> Option<Line> {
    match (x, y, angle) {
        (Some(x), None, None) => Some(Line::Vertical(crate::shared_types::FloatBits(x))),
        (None, Some(y), None) => Some(Line::Horizontal(crate::shared_types::FloatBits(y))),
        (Some(x), Some(y), Some(d)) => Some(
            Line::Angle {
                x: crate::shared_types::FloatBits(x),
                y: crate::shared_types::FloatBits(y),
                degrees: crate::shared_types::FloatBits(d),
            },
        ),
        _ => None,
    }
}

} // verus!
