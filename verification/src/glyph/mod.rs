//! Data related to individual glyphs.


pub mod attrs;
pub mod builder;
pub mod codepoints;
pub mod drawing;
pub mod object_lib;
pub mod parse;
pub mod serialize;
pub mod writer;
pub mod xml;

use vstd::prelude::*;

use crate::error::{ErrorKind, StoreError};
use crate::guideline::Guideline;
use crate::identifier::Identifier;
use crate::name::Name;
use crate::path::{spec_has_parent, spec_is_absolute};
use crate::shared_types::{Color, FloatBits, Plist};

pub use codepoints::Codepoints;
pub use object_lib::ObjectLib;

verus! {

/// The glif format versions that can be read.
#[derive(Debug, Clone, Copy, PartialEq, Eq, Structural)]
pub enum GlifVersion {
    /// Format 1.
    V1,
    /// Format 2.
    V2,
}

impl GlifVersion {
    /// The version's number as it stands in a glif file.
    pub open spec fn spec_as_str(self) -> Seq<char> {
        match self {
            GlifVersion::V1 => "1"@,
            GlifVersion::V2 => "2"@,
        }
    }

    /// Returns the version's number as it stands in a glif file.
    pub fn as_str(&self) -> (res: &'static str)
        ensures
            res@ == self.spec_as_str(),
    {
        match self {
            GlifVersion::V1 => "1",
            GlifVersion::V2 => "2",
        }
    }
}

/// Possible types of points that can exist in a [`Contour`].
#[derive(Debug, Clone, Copy, PartialEq, Eq, Structural)]
pub enum PointType {
    /// A point of this type must be the first in a contour. A contour that starts with a
    /// move point is open; any other contour is closed.
    Move,
    /// Draw a straight line from the previous point to this point.
    Line,
    /// This point is part of a curve segment that goes up to the next point that is
    /// either a curve or a qcurve.
    OffCurve,
    /// Draw a cubic bezier curve from the last non-offcurve point to this point, with
    /// zero, one or two off-curve points.
    Curve,
    /// Similar to curve, but uses quadratic curves, using the TrueType “implied on-curve
    /// points” principle.
    QCurve,
}

impl PointType {
    /// The name of the point type in a glif file.
    pub open spec fn spec_as_str(self) -> Seq<char> {
        match self {
            PointType::Move => "move"@,
            PointType::Line => "line"@,
            PointType::OffCurve => "offcurve"@,
            PointType::Curve => "curve"@,
            PointType::QCurve => "qcurve"@,
        }
    }

    /// The point type with the given name, if any.
    pub open spec fn spec_from_str(s: Seq<char>) -> Option<PointType> {
        if s == "move"@ {
            Some(PointType::Move)
        } else if s == "line"@ {
            Some(PointType::Line)
        } else if s == "offcurve"@ {
            Some(PointType::OffCurve)
        } else if s == "curve"@ {
            Some(PointType::Curve)
        } else if s == "qcurve"@ {
            Some(PointType::QCurve)
        } else {
            None
        }
    }

    /// Returns the name of the point type in a glif file.
    pub fn as_str(&self) -> (res: &'static str)
        ensures
            res@ == self.spec_as_str(),
    {
        match self {
            PointType::Move => "move",
            PointType::Line => "line",
            PointType::OffCurve => "offcurve",
            PointType::Curve => "curve",
            PointType::QCurve => "qcurve",
        }
    }

    /// Returns the name of the point type in a glif file, as a new string.
    pub fn to_string(&self) -> (res: String)
        ensures
            res@ == self.spec_as_str(),
    {
        self.as_str().to_owned()
    }

    /// Parses a point type from its name.
    pub fn parse(s: &str) -> (res: Result<PointType, ErrorKind>)
        ensures
            res matches Ok(t) ==> PointType::spec_from_str(s@) == Some(t),
            res matches Err(e) ==> PointType::spec_from_str(s@) is None && e
                == ErrorKind::UnknownPointType,
    {
        if crate::text::str_eq(s, "move") {
            Ok(PointType::Move)
        } else if crate::text::str_eq(s, "line") {
            Ok(PointType::Line)
        } else if crate::text::str_eq(s, "offcurve") {
            Ok(PointType::OffCurve)
        } else if crate::text::str_eq(s, "curve") {
            Ok(PointType::Curve)
        } else if crate::text::str_eq(s, "qcurve") {
            Ok(PointType::QCurve)
        } else {
            Err(ErrorKind::UnknownPointType)
        }
    }
}

impl std::str::FromStr for PointType {
    type Err = ErrorKind;

    fn from_str(s: &str) -> (res: Result<PointType, ErrorKind>)
        ensures
            match PointType::spec_from_str(s@) {
                Some(t) => res == Ok::<PointType, ErrorKind>(t),
                None => res == Err::<PointType, ErrorKind>(ErrorKind::UnknownPointType),
            },
    {
        PointType::parse(s)
    }
}

/// The name of a point type reads back as that point type.
pub proof fn law_point_type_name_round_trip(t: PointType)
    ensures
        PointType::spec_from_str(t.spec_as_str()) == Some(t),
{
    reveal_strlit("move");
    reveal_strlit("line");
    reveal_strlit("offcurve");
    reveal_strlit("curve");
    reveal_strlit("qcurve");
    assert("move"@[0] != "qcurve"@[0] && "line"@[0] != "qcurve"@[0] && "offcurve"@[0] != "qcurve"@[0]);
    assert("curve"@[0] != "qcurve"@[0]);
    assert("move"@[0] != "line"@[0] && "move"@[0] != "offcurve"@[0] && "move"@[0] != "curve"@[0]);
    assert("line"@[0] != "offcurve"@[0] && "line"@[0] != "curve"@[0] && "offcurve"@[0] != "curve"@[0]);
}

/// The bits of the 64-bit floating-point number 1.0.
pub const ONE_BITS: u64 = 0x3ff0_0000_0000_0000;

/// A 2D affine transformation.
#[derive(Debug, Clone, Copy, PartialEq, Eq)]
pub struct AffineTransform {
    /// x-scale value.
    pub x_scale: FloatBits,
    /// xy-scale value.
    pub xy_scale: FloatBits,
    /// yx-scale value.
    pub yx_scale: FloatBits,
    /// y-scale value.
    pub y_scale: FloatBits,
    /// x-offset value.
    pub x_offset: FloatBits,
    /// y-offset value.
    pub y_offset: FloatBits,
}

impl AffineTransform {
    /// `[1 0 0 1 0 0]`, the identity transformation.
    pub open spec fn spec_identity() -> AffineTransform {
        AffineTransform {
            x_scale: FloatBits(ONE_BITS),
            xy_scale: FloatBits(0),
            yx_scale: FloatBits(0),
            y_scale: FloatBits(ONE_BITS),
            x_offset: FloatBits(0),
            y_offset: FloatBits(0),
        }
    }

    /// Returns the identity transformation, `[1 0 0 1 0 0]`.
    pub fn identity() -> (res: AffineTransform)
        ensures
            res == AffineTransform::spec_identity(),
    {
        AffineTransform {
            x_scale: FloatBits(ONE_BITS),
            xy_scale: FloatBits(0),
            yx_scale: FloatBits(0),
            y_scale: FloatBits(ONE_BITS),
            x_offset: FloatBits(0),
            y_offset: FloatBits(0),
        }
    }
}

impl Default for AffineTransform {
    fn default() -> (res: Self)
        ensures
            res == AffineTransform::spec_identity(),
    {
        AffineTransform::identity()
    }
}

/// A single point in a [`Contour`].
#[derive(Debug, Clone)]
pub struct ContourPoint {
    /// x coordinate.
    pub x: FloatBits,
    /// y coordinate.
    pub y: FloatBits,
    /// Point type.
    pub typ: PointType,
    /// Whether a smooth curvature should be maintained at this point. Must not be set
    /// for off-curve points.
    pub smooth: bool,
    /// Optional point name.
    pub name: Option<String>,
    /// Optional identifier and lib.
    pub object_lib: ObjectLib,
}

impl ContourPoint {
    /// Returns a new [`ContourPoint`].
    pub fn new(
        x: FloatBits,
        y: FloatBits,
        typ: PointType,
        smooth: bool,
        name: Option<String>,
        identifier: Option<Identifier>,
        lib: Option<Plist>,
    ) -> (res: Self)
        ensures
            res.x == x && res.y == y && res.typ == typ && res.smooth == smooth && res.name == name,
            res.object_lib.spec_lib() == lib,
            identifier is Some ==> res.object_lib.spec_identifier() == identifier,
            identifier is None ==> (res.object_lib.spec_identifier() is Some <==> lib is Some),
    {
        ContourPoint { x, y, typ, smooth, name, object_lib: ObjectLib::new(identifier, lib) }
    }
}

/// A single open or closed bezier path segment.
#[derive(Debug, Clone)]
pub struct Contour {
    /// The points of the contour.
    pub points: Vec<ContourPoint>,
    /// Optional identifier and lib.
    pub object_lib: ObjectLib,
}

/// True when a sequence of points describes a closed contour: it does not start with a
/// move point.
pub open spec fn spec_is_closed(points: Seq<ContourPoint>) -> bool {
    points.len() == 0 || points[0].typ != PointType::Move
}

impl Contour {
    /// Returns a new [`Contour`].
    pub fn new(points: Vec<ContourPoint>, identifier: Option<Identifier>, lib: Option<Plist>) -> (res: Self)
        ensures
            res.points@ == points@,
            res.object_lib.spec_lib() == lib,
            identifier is Some ==> res.object_lib.spec_identifier() == identifier,
            identifier is None ==> (res.object_lib.spec_identifier() is Some <==> lib is Some),
    {
        Contour { points, object_lib: ObjectLib::new(identifier, lib) }
    }

    /// Whether the contour is closed, that is, does not start with a move point.
    pub fn is_closed(&self) -> (res: bool)
        ensures
            res == spec_is_closed(self.points@),
    {
        if self.points.len() == 0 {
            true
        } else {
            self.points[0].typ != PointType::Move
        }
    }
}

/// A reference to another glyph, to be included in this glyph's outline.
#[derive(Debug, Clone)]
pub struct Component {
    /// The name of the base glyph used in the component.
    pub base: Name,
    /// Component affine transformation.
    pub transform: AffineTransform,
    /// Optional identifier and lib.
    pub object_lib: ObjectLib,
}

impl Component {
    /// Returns a new [`Component`].
    pub fn new(base: Name, transform: AffineTransform, identifier: Option<Identifier>, lib: Option<Plist>) -> (res: Self)
        ensures
            res.base@ == base@,
            res.transform == transform,
            res.object_lib.spec_lib() == lib,
            identifier is Some ==> res.object_lib.spec_identifier() == identifier,
            identifier is None ==> (res.object_lib.spec_identifier() is Some <==> lib is Some),
    {
        Component { base, transform, object_lib: ObjectLib::new(identifier, lib) }
    }
}

/// A reference position in a glyph, such as for attaching accents.
#[derive(Debug, Clone)]
pub struct Anchor {
    /// x coordinate.
    pub x: FloatBits,
    /// y coordinate.
    pub y: FloatBits,
    /// Optional name.
    pub name: Option<String>,
    /// Optional color.
    pub color: Option<Color>,
    /// Optional identifier and lib.
    pub object_lib: ObjectLib,
}

impl Anchor {
    /// Returns a new [`Anchor`].
    pub fn new(
        x: FloatBits,
        y: FloatBits,
        name: Option<String>,
        color: Option<Color>,
        identifier: Option<Identifier>,
        lib: Option<Plist>,
    ) -> (res: Self)
        ensures
            res.x == x && res.y == y && res.name == name && res.color == color,
            res.object_lib.spec_lib() == lib,
            identifier is Some ==> res.object_lib.spec_identifier() == identifier,
            identifier is None ==> (res.object_lib.spec_identifier() is Some <==> lib is Some),
    {
        Anchor { x, y, name, color, object_lib: ObjectLib::new(identifier, lib) }
    }
}

/// An image included in a glyph.
#[derive(Debug, Clone)]
pub struct Image {
    file_name: String,
    /// Optional image color.
    pub color: Option<Color>,
    /// Affine transformation.
    pub transform: AffineTransform,
}

/// The error, if any, that [`Image::new`] reports for a file name.
pub open spec fn spec_image_name_error(file_name: Seq<char>) -> Option<StoreError> {
    if file_name.len() == 0 {
        Some(StoreError::EmptyPath)
    } else if spec_is_absolute(file_name) {
        Some(StoreError::PathIsAbsolute)
    } else if spec_has_parent(file_name) {
        Some(StoreError::Subdir)
    } else {
        None
    }
}

impl Image {
    /// The image's file name.
    pub closed spec fn spec_file_name(&self) -> Seq<char> {
        self.file_name@
    }

    /// The image's color.
    pub closed spec fn spec_color(&self) -> Option<Color> {
        self.color
    }

    /// The image's transformation.
    pub closed spec fn spec_transform(&self) -> AffineTransform {
        self.transform
    }

    /// Create a new image. The file name must be a base file name, with no directory.
    pub fn new(file_name: String, color: Option<Color>, transform: AffineTransform) -> (res: Result<Self, StoreError>)
        ensures
            spec_image_name_error(file_name@) is None <==> res is Ok,
            res matches Ok(img) ==> img.spec_file_name() == file_name@ && img.spec_color() == color
                && img.spec_transform() == transform,
            res matches Err(e) ==> spec_image_name_error(file_name@) == Some(e),
    {
        if file_name.as_str().unicode_len() == 0 {
            return Err(StoreError::EmptyPath);
        }
        if crate::path::is_absolute(file_name.as_str()) {
            return Err(StoreError::PathIsAbsolute);
        }
        if crate::path::has_parent(file_name.as_str()) {
            return Err(StoreError::Subdir);
        }
        Ok(Self { file_name, color, transform })
    }

    /// Returns the image's color.
    pub fn color_ref(&self) -> (res: &Option<Color>)
        ensures
            *res == self.spec_color(),
    {
        &self.color
    }

    /// Returns the image's transformation.
    pub fn transform_ref(&self) -> (res: &AffineTransform)
        ensures
            *res == self.spec_transform(),
    {
        &self.transform
    }

    /// Returns the file name of the image.
    pub fn file_name(&self) -> (res: &str)
        ensures
            res@ == self.spec_file_name(),
    {
        self.file_name.as_str()
    }
}

/// A glyph, as a [`.glif` file][glif] describes it.
///
/// [glif]: http://unifiedfontobject.org/versions/ufo3/glyphs/glif/
#[derive(Debug, Clone)]
pub struct Glyph {
    /// The name of the glyph.
    pub name: Name,
    /// The glif format version the glyph was read from.
    pub format: GlifVersion,
    /// Glyph height.
    pub height: FloatBits,
    /// Glyph width.
    pub width: FloatBits,
    /// The glyph's Unicode code points; the first is the primary one.
    pub codepoints: Codepoints,
    /// Arbitrary glyph note.
    pub note: Option<String>,
    /// Glyph guidelines.
    pub guidelines: Vec<Guideline>,
    /// Glyph anchors.
    pub anchors: Vec<Anchor>,
    /// Glyph components.
    pub components: Vec<Component>,
    /// Glyph contours.
    pub contours: Vec<Contour>,
    /// Glyph image.
    pub image: Option<Image>,
    /// Glyph library data.
    pub lib: Plist,
}

impl Glyph {
    /// Returns a new, empty [`Glyph`] with the given name, in format 2. The name must
    /// be valid: not empty and without control characters.
    pub fn new(name: &str) -> (res: Self)
        requires
            crate::name::spec_is_valid_name(name@),
        ensures
            res.name@ == name@,
            res.format == GlifVersion::V2,
            res.height == FloatBits(0) && res.width == FloatBits(0),
            res.codepoints@.len() == 0,
            res.note is None,
            res.guidelines@.len() == 0 && res.anchors@.len() == 0,
            res.components@.len() == 0 && res.contours@.len() == 0,
            res.image is None,
            crate::plist_ops::dict_keys(res.lib) =~= Set::empty(),
    {
        Glyph::new_impl(Name::new_raw(name), GlifVersion::V2)
    }

    /// Returns a new, empty [`Glyph`] with the given name and format.
    pub fn new_impl(name: Name, format: GlifVersion) -> (res: Self)
        ensures
            res.name@ == name@,
            res.format == format,
            res.height == FloatBits(0) && res.width == FloatBits(0),
            res.codepoints@.len() == 0,
            res.note is None,
            res.guidelines@.len() == 0 && res.anchors@.len() == 0,
            res.components@.len() == 0 && res.contours@.len() == 0,
            res.image is None,
            crate::plist_ops::dict_keys(res.lib) =~= Set::empty(),
    {
        Glyph {
            name,
            format,
            height: FloatBits(0),
            width: FloatBits(0),
            codepoints: Codepoints::empty(),
            note: None,
            guidelines: Vec::new(),
            anchors: Vec::new(),
            components: Vec::new(),
            contours: Vec::new(),
            image: None,
            lib: crate::plist_ops::new_dict(),
        }
    }

    /// Returns the name of the glyph.
    pub fn name(&self) -> (res: &Name)
        ensures
            res@ == self.name@,
    {
        &self.name
    }

    /// Returns true if the glyph contains one or more components.
    pub fn has_component(&self) -> (res: bool)
        ensures
            res == (self.components@.len() > 0),
    {
        self.components.len() != 0
    }

    /// Returns the number of components in the glyph.
    pub fn component_count(&self) -> (res: usize)
        ensures
            res == self.components@.len(),
    {
        self.components.len()
    }

    /// Returns true if the glyph contains one or more components with base glyph
    /// name `basename`.
    pub fn has_component_with_base(&self, basename: &str) -> (res: bool)
        ensures
            res == exists|i: int| 0 <= i < self.components@.len() && #[trigger] self.components@[i].base@ == basename@,
    {
        let mut i: usize = 0;
        while i < self.components.len()
            invariant
                0 <= i <= self.components@.len(),
                forall|k: int| 0 <= k < i ==> #[trigger] self.components@[k].base@ != basename@,
            decreases self.components@.len() - i,
        {
            if crate::text::str_eq(self.components[i].base.as_str(), basename) {
                return true;
            }
            i += 1;
        }
        false
    }

    /// Returns the indices of the components whose base glyph name is `basename`, in order.
    pub fn get_components_with_base(&self, basename: &str) -> (res: Vec<usize>)
        ensures
            forall|k: int| 0 <= k < res@.len() ==> #[trigger] res@[k] < self.components@.len()
                && self.components@[res@[k] as int].base@ == basename@,
            forall|k: int, l: int| 0 <= k < l < res@.len() ==> res@[k] < res@[l],
            forall|i: int| 0 <= i < self.components@.len() && #[trigger] self.components@[i].base@ == basename@
                ==> res@.contains(i as usize),
    {
        let mut out: Vec<usize> = Vec::new();
        let mut i: usize = 0;
        while i < self.components.len()
            invariant
                0 <= i <= self.components@.len(),
                forall|k: int| 0 <= k < out@.len() ==> #[trigger] out@[k] < i
                    && self.components@[out@[k] as int].base@ == basename@,
                forall|k: int, l: int| 0 <= k < l < out@.len() ==> out@[k] < out@[l],
                forall|j: int| 0 <= j < i && #[trigger] self.components@[j].base@ == basename@
                    ==> out@.contains(j as usize),
            decreases self.components@.len() - i,
        {
            if crate::text::str_eq(self.components[i].base.as_str(), basename) {
                let ghost before = out@;
                out.push(i);
                assert(out@[before.len() as int] == i);
                assert forall|j: int| 0 <= j < i + 1 && #[trigger] self.components@[j].base@ == basename@
                    implies out@.contains(j as usize) by {
                    if j < i {
                        assert(before.contains(j as usize));
                        let w = choose|w: int| 0 <= w < before.len() && before[w] == j as usize;
                        assert(out@[w] == j as usize);
                    }
                }
            }
            i += 1;
        }
        out
    }
}

impl Anchor {
    /// Returns a reference to the lib.
    pub fn lib(&self) -> (res: Option<&Plist>)
        ensures
            res == match self.object_lib.spec_lib() {
                Some(l) => Some(&l),
                None => None::<&Plist>,
            },
    {
        self.object_lib.lib()
    }

    /// Returns a mutable reference to the lib.
    pub fn lib_mut(&mut self) -> (res: Option<&mut Plist>)
        ensures
            (res is Some) == (old(self).object_lib.spec_lib() is Some),
            res matches Some(l) ==> old(self).object_lib.spec_lib() == Some(*l) && final(self).object_lib.spec_lib()
                == Some(*final(l)),
            res is None ==> final(self).object_lib.spec_lib() is None,
            final(self).object_lib.spec_identifier() == old(self).object_lib.spec_identifier(),
            final(self).x == old(self).x,
            final(self).y == old(self).y,
            final(self).name == old(self).name,
            final(self).color == old(self).color,
    {
        self.object_lib.lib_mut()
    }

    /// Replaces the lib by the given one, returning the old lib if present. Sets a new
    /// random identifier if none is set already.
    pub fn replace_lib(&mut self, lib: Plist) -> (res: Option<Plist>)
        ensures
            res == old(self).object_lib.spec_lib(),
            final(self).object_lib.spec_lib() == Some(lib),
            old(self).object_lib.spec_identifier() is Some ==> final(self).object_lib.spec_identifier() == old(
                self,
            ).object_lib.spec_identifier(),
            final(self).object_lib.spec_identifier() is Some,
            final(self).x == old(self).x,
            final(self).y == old(self).y,
            final(self).name == old(self).name,
            final(self).color == old(self).color,
    {
        self.object_lib.replace_lib(lib)
    }

    /// Takes the lib out, leaving a None in its place.
    pub fn take_lib(&mut self) -> (res: Option<Plist>)
        ensures
            res == old(self).object_lib.spec_lib(),
            final(self).object_lib.spec_lib() is None,
            final(self).object_lib.spec_identifier() == old(self).object_lib.spec_identifier(),
            final(self).x == old(self).x,
            final(self).y == old(self).y,
            final(self).name == old(self).name,
            final(self).color == old(self).color,
    {
        self.object_lib.take_lib()
    }

    /// Returns a reference to the identifier.
    pub fn identifier(&self) -> (res: Option<&Identifier>)
        ensures
            res == match self.object_lib.spec_identifier() {
                Some(i) => Some(&i),
                None => None::<&Identifier>,
            },
    {
        self.object_lib.identifier()
    }

    /// Replaces the identifier by the given one, returning the old identifier if present.
    pub fn replace_identifier(&mut self, id: Identifier) -> (res: Option<Identifier>)
        ensures
            res == old(self).object_lib.spec_identifier(),
            final(self).object_lib.spec_identifier() == Some(id),
            final(self).object_lib.spec_lib() == old(self).object_lib.spec_lib(),
            final(self).x == old(self).x,
            final(self).y == old(self).y,
            final(self).name == old(self).name,
            final(self).color == old(self).color,
    {
        self.object_lib.replace_identifier(id)
    }
}

impl Contour {
    /// Returns a reference to the lib.
    pub fn lib(&self) -> (res: Option<&Plist>)
        ensures
            res == match self.object_lib.spec_lib() {
                Some(l) => Some(&l),
                None => None::<&Plist>,
            },
    {
        self.object_lib.lib()
    }

    /// Returns a mutable reference to the lib.
    pub fn lib_mut(&mut self) -> (res: Option<&mut Plist>)
        ensures
            (res is Some) == (old(self).object_lib.spec_lib() is Some),
            res matches Some(l) ==> old(self).object_lib.spec_lib() == Some(*l) && final(self).object_lib.spec_lib()
                == Some(*final(l)),
            res is None ==> final(self).object_lib.spec_lib() is None,
            final(self).object_lib.spec_identifier() == old(self).object_lib.spec_identifier(),
            final(self).points == old(self).points,
    {
        self.object_lib.lib_mut()
    }

    /// Replaces the lib by the given one, returning the old lib if present. Sets a new
    /// random identifier if none is set already.
    pub fn replace_lib(&mut self, lib: Plist) -> (res: Option<Plist>)
        ensures
            res == old(self).object_lib.spec_lib(),
            final(self).object_lib.spec_lib() == Some(lib),
            old(self).object_lib.spec_identifier() is Some ==> final(self).object_lib.spec_identifier() == old(
                self,
            ).object_lib.spec_identifier(),
            final(self).object_lib.spec_identifier() is Some,
            final(self).points == old(self).points,
    {
        self.object_lib.replace_lib(lib)
    }

    /// Takes the lib out, leaving a None in its place.
    pub fn take_lib(&mut self) -> (res: Option<Plist>)
        ensures
            res == old(self).object_lib.spec_lib(),
            final(self).object_lib.spec_lib() is None,
            final(self).object_lib.spec_identifier() == old(self).object_lib.spec_identifier(),
            final(self).points == old(self).points,
    {
        self.object_lib.take_lib()
    }

    /// Returns a reference to the identifier.
    pub fn identifier(&self) -> (res: Option<&Identifier>)
        ensures
            res == match self.object_lib.spec_identifier() {
                Some(i) => Some(&i),
                None => None::<&Identifier>,
            },
    {
        self.object_lib.identifier()
    }

    /// Replaces the identifier by the given one, returning the old identifier if present.
    pub fn replace_identifier(&mut self, id: Identifier) -> (res: Option<Identifier>)
        ensures
            res == old(self).object_lib.spec_identifier(),
            final(self).object_lib.spec_identifier() == Some(id),
            final(self).object_lib.spec_lib() == old(self).object_lib.spec_lib(),
            final(self).points == old(self).points,
    {
        self.object_lib.replace_identifier(id)
    }
}

impl ContourPoint {
    /// Returns a reference to the lib.
    pub fn lib(&self) -> (res: Option<&Plist>)
        ensures
            res == match self.object_lib.spec_lib() {
                Some(l) => Some(&l),
                None => None::<&Plist>,
            },
    {
        self.object_lib.lib()
    }

    /// Returns a mutable reference to the lib.
    pub fn lib_mut(&mut self) -> (res: Option<&mut Plist>)
        ensures
            (res is Some) == (old(self).object_lib.spec_lib() is Some),
            res matches Some(l) ==> old(self).object_lib.spec_lib() == Some(*l) && final(self).object_lib.spec_lib()
                == Some(*final(l)),
            res is None ==> final(self).object_lib.spec_lib() is None,
            final(self).object_lib.spec_identifier() == old(self).object_lib.spec_identifier(),
            final(self).x == old(self).x,
            final(self).y == old(self).y,
            final(self).typ == old(self).typ,
            final(self).smooth == old(self).smooth,
            final(self).name == old(self).name,
    {
        self.object_lib.lib_mut()
    }

    /// Replaces the lib by the given one, returning the old lib if present. Sets a new
    /// random identifier if none is set already.
    pub fn replace_lib(&mut self, lib: Plist) -> (res: Option<Plist>)
        ensures
            res == old(self).object_lib.spec_lib(),
            final(self).object_lib.spec_lib() == Some(lib),
            old(self).object_lib.spec_identifier() is Some ==> final(self).object_lib.spec_identifier() == old(
                self,
            ).object_lib.spec_identifier(),
            final(self).object_lib.spec_identifier() is Some,
            final(self).x == old(self).x,
            final(self).y == old(self).y,
            final(self).typ == old(self).typ,
            final(self).smooth == old(self).smooth,
            final(self).name == old(self).name,
    {
        self.object_lib.replace_lib(lib)
    }

    /// Takes the lib out, leaving a None in its place.
    pub fn take_lib(&mut self) -> (res: Option<Plist>)
        ensures
            res == old(self).object_lib.spec_lib(),
            final(self).object_lib.spec_lib() is None,
            final(self).object_lib.spec_identifier() == old(self).object_lib.spec_identifier(),
            final(self).x == old(self).x,
            final(self).y == old(self).y,
            final(self).typ == old(self).typ,
            final(self).smooth == old(self).smooth,
            final(self).name == old(self).name,
    {
        self.object_lib.take_lib()
    }

    /// Returns a reference to the identifier.
    pub fn identifier(&self) -> (res: Option<&Identifier>)
        ensures
            res == match self.object_lib.spec_identifier() {
                Some(i) => Some(&i),
                None => None::<&Identifier>,
            },
    {
        self.object_lib.identifier()
    }

    /// Replaces the identifier by the given one, returning the old identifier if present.
    pub fn replace_identifier(&mut self, id: Identifier) -> (res: Option<Identifier>)
        ensures
            res == old(self).object_lib.spec_identifier(),
            final(self).object_lib.spec_identifier() == Some(id),
            final(self).object_lib.spec_lib() == old(self).object_lib.spec_lib(),
            final(self).x == old(self).x,
            final(self).y == old(self).y,
            final(self).typ == old(self).typ,
            final(self).smooth == old(self).smooth,
            final(self).name == old(self).name,
    {
        self.object_lib.replace_identifier(id)
    }
}

impl Component {
    /// Returns a reference to the lib.
    pub fn lib(&self) -> (res: Option<&Plist>)
        ensures
            res == match self.object_lib.spec_lib() {
                Some(l) => Some(&l),
                None => None::<&Plist>,
            },
    {
        self.object_lib.lib()
    }

    /// Returns a mutable reference to the lib.
    pub fn lib_mut(&mut self) -> (res: Option<&mut Plist>)
        ensures
            (res is Some) == (old(self).object_lib.spec_lib() is Some),
            res matches Some(l) ==> old(self).object_lib.spec_lib() == Some(*l) && final(self).object_lib.spec_lib()
                == Some(*final(l)),
            res is None ==> final(self).object_lib.spec_lib() is None,
            final(self).object_lib.spec_identifier() == old(self).object_lib.spec_identifier(),
            final(self).base == old(self).base,
            final(self).transform == old(self).transform,
    {
        self.object_lib.lib_mut()
    }

    /// Replaces the lib by the given one, returning the old lib if present. Sets a new
    /// random identifier if none is set already.
    pub fn replace_lib(&mut self, lib: Plist) -> (res: Option<Plist>)
        ensures
            res == old(self).object_lib.spec_lib(),
            final(self).object_lib.spec_lib() == Some(lib),
            old(self).object_lib.spec_identifier() is Some ==> final(self).object_lib.spec_identifier() == old(
                self,
            ).object_lib.spec_identifier(),
            final(self).object_lib.spec_identifier() is Some,
            final(self).base == old(self).base,
            final(self).transform == old(self).transform,
    {
        self.object_lib.replace_lib(lib)
    }

    /// Takes the lib out, leaving a None in its place.
    pub fn take_lib(&mut self) -> (res: Option<Plist>)
        ensures
            res == old(self).object_lib.spec_lib(),
            final(self).object_lib.spec_lib() is None,
            final(self).object_lib.spec_identifier() == old(self).object_lib.spec_identifier(),
            final(self).base == old(self).base,
            final(self).transform == old(self).transform,
    {
        self.object_lib.take_lib()
    }

    /// Returns a reference to the identifier.
    pub fn identifier(&self) -> (res: Option<&Identifier>)
        ensures
            res == match self.object_lib.spec_identifier() {
                Some(i) => Some(&i),
                None => None::<&Identifier>,
            },
    {
        self.object_lib.identifier()
    }

    /// Replaces the identifier by the given one, returning the old identifier if present.
    pub fn replace_identifier(&mut self, id: Identifier) -> (res: Option<Identifier>)
        ensures
            res == old(self).object_lib.spec_identifier(),
            final(self).object_lib.spec_identifier() == Some(id),
            final(self).object_lib.spec_lib() == old(self).object_lib.spec_lib(),
            final(self).base == old(self).base,
            final(self).transform == old(self).transform,
    {
        self.object_lib.replace_identifier(id)
    }
}

} // verus!
