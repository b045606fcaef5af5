//! A point-oriented builder for a glyph's outline.
//!
//! An [`OutlineBuilder`] collects contours, point by point, and components. It checks
//! the rules that the glif specification sets for point sequences. It does not keep
//! track of identifier uniqueness; the glif parser does.

use vstd::prelude::*;

use crate::glyph::{AffineTransform, Component, Contour, ContourPoint, PointType, spec_is_closed};
use crate::identifier::Identifier;
use crate::name::Name;
use crate::shared_types::FloatBits;

verus! {

/// An error that occurs while attempting to draw a glyph.
#[derive(Debug, Clone, Copy, PartialEq, Eq, Structural)]
pub enum OutlineBuilderError {
    /// The contour pen path was not started.
    PenPathNotStarted,
    /// Has too many off curve points in sequence.
    TooManyOffCurves,
    /// Has trailing off curve points defined.
    TrailingOffCurves,
    /// Has an unexpected move definition.
    UnexpectedMove,
    /// Has an unexpected point following an off curve point definition.
    UnexpectedPointAfterOffCurve,
    /// Has an unexpected smooth definition.
    UnexpectedSmooth,
    /// Has incomplete drawing data.
    UnfinishedDrawing,
}

enum OutlineBuilderState {
    Idle,
    Drawing { scratch_contour: Contour, number_of_offcurves: u32 },
}

/// The outline of a glyph as it is being drawn.
pub struct OutlineBuilder {
    components: Vec<Component>,
    contours: Vec<Contour>,
    scratch_state: OutlineBuilderState,
}

/// `a + b`, or `u32::MAX` where that is larger.
pub open spec fn sat_add(a: int, b: int) -> u32 {
    if a + b > u32::MAX { u32::MAX } else { (a + b) as u32 }
}

/// The error, if any, that adding a point of type `typ` to a contour with the points
/// `points`, after `n` off-curve points in a row, causes.
pub open spec fn add_point_error(points: Seq<ContourPoint>, n: u32, typ: PointType, smooth: bool) -> Option<OutlineBuilderError> {
    match typ {
        PointType::Move => if points.len() > 0 { Some(OutlineBuilderError::UnexpectedMove) } else { None },
        PointType::Line => if n > 0 { Some(OutlineBuilderError::UnexpectedPointAfterOffCurve) } else { None },
        PointType::OffCurve => if smooth { Some(OutlineBuilderError::UnexpectedSmooth) } else { None },
        PointType::Curve => if n > 2 { Some(OutlineBuilderError::TooManyOffCurves) } else { None },
        PointType::QCurve => None,
    }
}

/// The number of off-curve points in a row after adding a point of type `typ`.
pub open spec fn next_offcurve_count(n: u32, typ: PointType) -> u32 {
    match typ {
        PointType::OffCurve => sat_add(n as int, 1),
        PointType::Curve | PointType::QCurve => 0,
        _ => n,
    }
}

/// The index of the first point that is not an off-curve point, or the length of the
/// sequence where every point is one.
pub open spec fn first_on_curve(points: Seq<ContourPoint>) -> int
    decreases points.len(),
{
    if points.len() == 0 {
        0
    } else if points[0].typ == PointType::OffCurve {
        1 + first_on_curve(points.drop_first())
    } else {
        0
    }
}

/// The error, if any, that ending a contour with the points `points`, after `n`
/// off-curve points in a row, causes. The off-curve points at the end of a closed
/// contour precede its first points: they count towards the first on-curve point.
pub open spec fn end_path_error(points: Seq<ContourPoint>, n: u32) -> Option<OutlineBuilderError> {
    if n == 0 {
        None
    } else if !spec_is_closed(points) {
        Some(OutlineBuilderError::TrailingOffCurves)
    } else {
        let k = first_on_curve(points);
        if k >= points.len() {
            None
        } else {
            match points[k].typ {
                PointType::Line => Some(OutlineBuilderError::UnexpectedPointAfterOffCurve),
                PointType::Curve => if sat_add(n as int, k) > 2 {
                    Some(OutlineBuilderError::TooManyOffCurves)
                } else {
                    None
                },
                _ => None,
            }
        }
    }
}

/// True when `p` is the point that `add_point` makes of its arguments.
pub open spec fn is_new_point(
    p: ContourPoint,
    x: FloatBits,
    y: FloatBits,
    typ: PointType,
    smooth: bool,
    name: Option<String>,
    identifier: Option<Identifier>,
) -> bool {
    &&& p.x == x && p.y == y && p.typ == typ && p.smooth == smooth && p.name == name
    &&& p.object_lib.spec_identifier() == identifier
    &&& p.object_lib.spec_lib() is None
}

proof fn lemma_first_on_curve_bounds(points: Seq<ContourPoint>)
    ensures
        0 <= first_on_curve(points) <= points.len(),
        forall|i: int| 0 <= i < first_on_curve(points) ==> #[trigger] points[i].typ == PointType::OffCurve,
        first_on_curve(points) < points.len() ==> points[first_on_curve(points)].typ != PointType::OffCurve,
    decreases points.len(),
{
    if points.len() > 0 && points[0].typ == PointType::OffCurve {
        let rest = points.drop_first();
        lemma_first_on_curve_bounds(rest);
        assert forall|i: int| 0 <= i < first_on_curve(points) implies #[trigger] points[i].typ
            == PointType::OffCurve by {
            if i > 0 {
                assert(points[i] == rest[i - 1]);
            }
        }
        if first_on_curve(points) < points.len() {
            assert(points[first_on_curve(points)] == rest[first_on_curve(rest)]);
        }
    }
}

/// The error that ending the closed contour `points`, after `n > 0` off-curve points in
/// a row, causes: the off-curve points at its start follow those at its end.
fn closed_contour_error(points: &Vec<ContourPoint>, n: u32) -> (res: Option<OutlineBuilderError>)
    requires
        n > 0,
        spec_is_closed(points@),
        forall|j: int| 1 <= j < points@.len() ==> #[trigger] points@[j].typ != PointType::Move,
    ensures
        res == end_path_error(points@, n),
{
    let ghost pts = points@;
    proof {
        lemma_first_on_curve_bounds(pts);
    }
    let mut count = n;
    let mut i: usize = 0;
    while i < points.len()
        invariant
            pts == points@,
            0 <= i <= first_on_curve(pts),
            count == sat_add(n as int, i as int),
            n > 0,
            spec_is_closed(pts),
            0 <= first_on_curve(pts) <= pts.len(),
            forall|j: int| 0 <= j < first_on_curve(pts) ==> #[trigger] pts[j].typ == PointType::OffCurve,
            first_on_curve(pts) < pts.len() ==> pts[first_on_curve(pts)].typ != PointType::OffCurve,
            forall|j: int| 1 <= j < pts.len() ==> #[trigger] pts[j].typ != PointType::Move,
        decreases points.len() - i,
    {
        match points[i].typ {
            PointType::OffCurve => {
                count = count.saturating_add(1);
            },
            PointType::QCurve => {
                return None;
            },
            PointType::Curve => {
                if count > 2 {
                    return Some(OutlineBuilderError::TooManyOffCurves);
                }
                return None;
            },
            PointType::Line => {
                return Some(OutlineBuilderError::UnexpectedPointAfterOffCurve);
            },
            PointType::Move => {
                return None;
            },
        }
        i += 1;
    }
    None
}

/// The number of off-curve points at the end of `points`.
pub open spec fn trailing_offcurves(points: Seq<ContourPoint>) -> nat
    decreases points.len(),
{
    if points.len() > 0 && points.last().typ == PointType::OffCurve {
        1 + trailing_offcurves(points.drop_last())
    } else {
        0
    }
}

/// The number, or the largest `u32` where it is larger.
pub open spec fn capped_count(k: nat) -> u32 {
    if k <= u32::MAX {
        k as u32
    } else {
        u32::MAX
    }
}

/// The error, if any, that adding a point of type `typ` to a path with the points
/// `points` causes, by the points alone: a move point only on an empty path, no smooth
/// off-curve point, no line point right after an off-curve one, no curve point after
/// more than two.
pub open spec fn point_error_by_points(points: Seq<ContourPoint>, typ: PointType, smooth: bool) -> Option<OutlineBuilderError> {
    let k = trailing_offcurves(points);
    match typ {
        PointType::Move => if points.len() > 0 {
            Some(OutlineBuilderError::UnexpectedMove)
        } else {
            None
        },
        PointType::Line => if k > 0 {
            Some(OutlineBuilderError::UnexpectedPointAfterOffCurve)
        } else {
            None
        },
        PointType::OffCurve => if smooth {
            Some(OutlineBuilderError::UnexpectedSmooth)
        } else {
            None
        },
        PointType::Curve => if k > 2 {
            Some(OutlineBuilderError::TooManyOffCurves)
        } else {
            None
        },
        PointType::QCurve => None,
    }
}

/// Adding a point to a path fails, or not, as the points of the path alone decide,
/// where the builder counts the off-curve points at the path's end, as it always does.
pub proof fn law_add_point_by_points(points: Seq<ContourPoint>, n: u32, typ: PointType, smooth: bool)
    requires
        n == capped_count(trailing_offcurves(points)),
    ensures
        add_point_error(points, n, typ, smooth) == point_error_by_points(points, typ, smooth),
{
}

proof fn lemma_trailing_push(points: Seq<ContourPoint>, p: ContourPoint)
    ensures
        trailing_offcurves(points.push(p)) == if p.typ == PointType::OffCurve {
            trailing_offcurves(points) + 1
        } else {
            0
        },
{
    assert(points.push(p).drop_last() =~= points);
}

impl OutlineBuilder {
    #[verifier::type_invariant]
    closed spec fn inv(self) -> bool {
        self.scratch_state matches OutlineBuilderState::Drawing { scratch_contour, number_of_offcurves } ==> {
            &&& forall|i: int|
                1 <= i < scratch_contour.points@.len() ==> #[trigger] scratch_contour.points@[i].typ != PointType::Move
            &&& number_of_offcurves == capped_count(trailing_offcurves(scratch_contour.points@))
        }
    }

    /// The contours finished so far.
    pub closed spec fn spec_contours(&self) -> Seq<Contour> {
        self.contours@
    }

    /// The components added so far.
    pub closed spec fn spec_components(&self) -> Seq<Component> {
        self.components@
    }

    /// The contour being drawn and the number of off-curve points at its end, if a path
    /// has begun and not ended.
    pub closed spec fn spec_scratch(&self) -> Option<(Contour, u32)> {
        match self.scratch_state {
            OutlineBuilderState::Idle => None,
            OutlineBuilderState::Drawing { scratch_contour, number_of_offcurves } => Some(
                (scratch_contour, number_of_offcurves),
            ),
        }
    }

    /// Returns a builder with no contour, no component and no path begun.
    pub fn new() -> (res: Self)
        ensures
            res.spec_contours().len() == 0,
            res.spec_components().len() == 0,
            res.spec_scratch() is None,
    {
        OutlineBuilder {
            components: Vec::new(),
            contours: Vec::new(),
            scratch_state: OutlineBuilderState::Idle,
        }
    }

    /// Begin a new path. It must be finished with [`Self::end_path`] before the outline
    /// can be finished.
    ///
    /// Errors when a path has been begun already but not ended yet; the builder is then
    /// unchanged.
    pub fn begin_path(&mut self, identifier: Option<Identifier>) -> (res: Result<&mut Self, OutlineBuilderError>)
        ensures
            old(self).spec_scratch() is Some ==> (res matches Err(e) && e == OutlineBuilderError::UnfinishedDrawing
                && *final(self) == *old(self)),
            old(self).spec_scratch() is None ==> (res matches Ok(b) && *final(self) == *final(b)
                && b.spec_contours() == old(self).spec_contours()
                && b.spec_components() == old(self).spec_components()
                && (b.spec_scratch() matches Some((c, n))
                && n == 0 && c.points@.len() == 0 && c.object_lib.spec_identifier() == identifier
                && c.object_lib.spec_lib() is None)),
    {
        match self.scratch_state {
            OutlineBuilderState::Idle => {
                self.scratch_state = OutlineBuilderState::Drawing {
                    scratch_contour: Contour::new(Vec::new(), identifier, None),
                    number_of_offcurves: 0,
                };
                Ok(self)
            },
            OutlineBuilderState::Drawing { .. } => Err(OutlineBuilderError::UnfinishedDrawing),
        }
    }

    /// Adds a point to the path, in place.
    fn add_point_in_place(
        &mut self,
        x: FloatBits,
        y: FloatBits,
        segment_type: PointType,
        smooth: bool,
        name: Option<String>,
        identifier: Option<Identifier>,
    ) -> (res: Result<(), OutlineBuilderError>)
        ensures
            final(self).spec_contours() == old(self).spec_contours(),
            final(self).spec_components() == old(self).spec_components(),
            old(self).spec_scratch() is None ==> res == Err::<(), _>(OutlineBuilderError::PenPathNotStarted)
                && final(self).spec_scratch() is None,
            old(self).spec_scratch() matches Some((c, n)) ==> n == capped_count(trailing_offcurves(c.points@)),
            old(self).spec_scratch() matches Some((c, n)) ==> match add_point_error(c.points@, n, segment_type, smooth) {
                Some(e) => res == Err::<(), _>(e) && final(self).spec_scratch() == old(self).spec_scratch(),
                None => res is Ok && (final(self).spec_scratch() matches Some((c2, n2))
                    && n2 == next_offcurve_count(n, segment_type)
                    && c2.points@.len() == c.points@.len() + 1
                    && c2.points@.subrange(0, c.points@.len() as int) == c.points@
                    && is_new_point(c2.points@.last(), x, y, segment_type, smooth, name, identifier)
                    && c2.object_lib == c.object_lib),
            },
    {
        proof {
            use_type_invariant(&*self);
        }
        let mut taken = OutlineBuilderState::Idle;
        std::mem::swap(&mut taken, &mut self.scratch_state);
        match taken {
            OutlineBuilderState::Idle => Err(OutlineBuilderError::PenPathNotStarted),
            OutlineBuilderState::Drawing { mut scratch_contour, number_of_offcurves } => {
                let mut n = number_of_offcurves;
                let err = match segment_type {
                    PointType::Move => {
                        if scratch_contour.points.len() > 0 {
                            Some(OutlineBuilderError::UnexpectedMove)
                        } else {
                            None
                        }
                    },
                    PointType::Line => {
                        if n > 0 {
                            Some(OutlineBuilderError::UnexpectedPointAfterOffCurve)
                        } else {
                            None
                        }
                    },
                    PointType::OffCurve => {
                        if smooth {
                            Some(OutlineBuilderError::UnexpectedSmooth)
                        } else {
                            n = n.saturating_add(1);
                            None
                        }
                    },
                    PointType::QCurve => {
                        n = 0;
                        None
                    },
                    PointType::Curve => {
                        if n > 2 {
                            Some(OutlineBuilderError::TooManyOffCurves)
                        } else {
                            n = 0;
                            None
                        }
                    },
                };
                match err {
                    Some(e) => {
                        self.scratch_state = OutlineBuilderState::Drawing {
                            scratch_contour,
                            number_of_offcurves,
                        };
                        Err(e)
                    },
                    None => {
                        let ghost before = scratch_contour.points@;
                        scratch_contour.points.push(
                            ContourPoint::new(x, y, segment_type, smooth, name, identifier, None),
                        );
                        assert(scratch_contour.points@.subrange(0, before.len() as int) =~= before);
                        proof {
                            lemma_trailing_push(before, scratch_contour.points@.last());
                            assert(before.push(scratch_contour.points@.last()) =~= scratch_contour.points@);
                        }
                        self.scratch_state = OutlineBuilderState::Drawing {
                            scratch_contour,
                            number_of_offcurves: n,
                        };
                        Ok(())
                    },
                }
            },
        }
    }

    /// Ends the path, in place.
    fn end_path_in_place(&mut self) -> (res: Result<(), OutlineBuilderError>)
        ensures
            final(self).spec_components() == old(self).spec_components(),
            final(self).spec_scratch() is None,
            old(self).spec_scratch() is None ==> res == Err::<(), _>(OutlineBuilderError::PenPathNotStarted)
                && final(self).spec_contours() == old(self).spec_contours(),
            old(self).spec_scratch() matches Some((c, n)) ==> match end_path_error(c.points@, n) {
                Some(e) => res == Err::<(), _>(e) && final(self).spec_contours() == old(self).spec_contours(),
                None => res is Ok && final(self).spec_contours() == if c.points@.len() > 0 {
                    old(self).spec_contours().push(c)
                } else {
                    old(self).spec_contours()
                },
            },
    {
        proof {
            use_type_invariant(&*self);
        }
        let mut taken = OutlineBuilderState::Idle;
        std::mem::swap(&mut taken, &mut self.scratch_state);
        match taken {
            OutlineBuilderState::Idle => Err(OutlineBuilderError::PenPathNotStarted),
            OutlineBuilderState::Drawing { scratch_contour, number_of_offcurves } => {
                if number_of_offcurves > 0 {
                    if scratch_contour.is_closed() {
                        match closed_contour_error(&scratch_contour.points, number_of_offcurves) {
                            Some(e) => {
                                return Err(e);
                            },
                            None => {},
                        }
                    } else {
                        return Err(OutlineBuilderError::TrailingOffCurves);
                    }
                }
                if scratch_contour.points.len() > 0 {
                    let mut contours = Vec::new();
                    std::mem::swap(&mut contours, &mut self.contours);
                    contours.push(scratch_contour);
                    self.contours = contours;
                }
                Ok(())
            },
        }
    }

    /// Adds a component, in place.
    fn add_component_in_place(&mut self, base: Name, transform: AffineTransform, identifier: Option<Identifier>)
        ensures
            final(self).spec_contours() == old(self).spec_contours(),
            final(self).spec_scratch() == old(self).spec_scratch(),
            final(self).spec_components().len() == old(self).spec_components().len() + 1,
            final(self).spec_components().subrange(0, old(self).spec_components().len() as int)
                == old(self).spec_components(),
            final(self).spec_components().last().base@ == base@,
            final(self).spec_components().last().transform == transform,
            final(self).spec_components().last().object_lib.spec_identifier() == identifier,
            final(self).spec_components().last().object_lib.spec_lib() is None,
    {
        proof {
            use_type_invariant(&*self);
        }
        let ghost before = self.components@;
        let mut components = Vec::new();
        std::mem::swap(&mut components, &mut self.components);
        components.push(Component::new(base, transform, identifier, None));
        assert(components@.subrange(0, before.len() as int) =~= before);
        self.components = components;
    }

    /// Add a point to the path begun by [`Self::begin_path`].
    ///
    /// Errors when no path has begun, when the point is an off-curve point with the smooth
    /// attribute set, or when the point sequence is forbidden by the specification. On
    /// error, the builder is unchanged.
    pub fn add_point(
        &mut self,
        x: FloatBits,
        y: FloatBits,
        segment_type: PointType,
        smooth: bool,
        name: Option<String>,
        identifier: Option<Identifier>,
    ) -> (res: Result<&mut Self, OutlineBuilderError>)
        ensures
            old(self).spec_scratch() matches Some((c, n)) ==> n == capped_count(trailing_offcurves(c.points@)),
            match add_point_refusal(*old(self), segment_type, smooth) {
                Some(e) => res matches Err(e2) && e2 == e && same_outline(*final(self), *old(self)),
                None => res matches Ok(b) && *final(self) == *final(b) && adds_point(
                    *old(self),
                    *b,
                    x,
                    y,
                    segment_type,
                    smooth,
                    name,
                    identifier,
                ),
            },
    {
        match self.add_point_in_place(x, y, segment_type, smooth, name, identifier) {
            Ok(()) => Ok(self),
            Err(e) => Err(e),
        }
    }

    /// Ends the path begun by [`Self::begin_path`] and adds the contour to the outline,
    /// unless it is empty.
    ///
    /// Errors when no path has begun, or when the point sequence is forbidden by the
    /// specification. On error, the path is dropped and the contours finished before are
    /// unchanged; a new path can begin.
    pub fn end_path(&mut self) -> (res: Result<&mut Self, OutlineBuilderError>)
        ensures
            match end_path_refusal(*old(self)) {
                Some(e) => res matches Err(e2) && e2 == e && final(self).spec_contours() == old(self).spec_contours()
                    && final(self).spec_components() == old(self).spec_components()
                    && final(self).spec_scratch() is None,
                None => res matches Ok(b) && *final(self) == *final(b) && ends_path(*old(self), *b),
            },
    {
        match self.end_path_in_place() {
            Ok(()) => Ok(self),
            Err(e) => Err(e),
        }
    }

    /// Add a component to the outline.
    pub fn add_component(&mut self, base: Name, transform: AffineTransform, identifier: Option<Identifier>) -> (res: &mut Self)
        ensures
            *final(self) == *final(res),
            adds_component(*old(self), *res, base, transform, identifier),
    {
        self.add_component_in_place(base, transform, identifier);
        self
    }

    /// Consume the builder and return the finished contours and components.
    ///
    /// Errors when a path has been begun but not ended.
    pub fn finish(self) -> (res: Result<(Vec<Contour>, Vec<Component>), OutlineBuilderError>)
        ensures
            self.spec_scratch() is Some ==> (res matches Err(e) && e == OutlineBuilderError::UnfinishedDrawing),
            self.spec_scratch() is None ==> (res matches Ok((contours, components)) && contours@
                == self.spec_contours() && components@ == self.spec_components()),
    {
        match self.scratch_state {
            OutlineBuilderState::Idle => Ok((self.contours, self.components)),
            OutlineBuilderState::Drawing { .. } => Err(OutlineBuilderError::UnfinishedDrawing),
        }
    }
}

/// True when the two builders hold the same contours, components and path.
pub open spec fn same_outline(a: OutlineBuilder, b: OutlineBuilder) -> bool {
    &&& a.spec_contours() == b.spec_contours()
    &&& a.spec_components() == b.spec_components()
    &&& a.spec_scratch() == b.spec_scratch()
}

/// The error, if any, that adding a point of type `typ` to the builder causes.
pub open spec fn add_point_refusal(b: OutlineBuilder, typ: PointType, smooth: bool) -> Option<OutlineBuilderError> {
    match b.spec_scratch() {
        None => Some(OutlineBuilderError::PenPathNotStarted),
        Some((c, n)) => add_point_error(c.points@, n, typ, smooth),
    }
}

/// True when `after` is `before` with the point added at the end of its path.
pub open spec fn adds_point(
    before: OutlineBuilder,
    after: OutlineBuilder,
    x: FloatBits,
    y: FloatBits,
    typ: PointType,
    smooth: bool,
    name: Option<String>,
    identifier: Option<Identifier>,
) -> bool {
    &&& after.spec_contours() == before.spec_contours()
    &&& after.spec_components() == before.spec_components()
    &&& before.spec_scratch() matches Some((c, n))
    &&& after.spec_scratch() matches Some((c2, n2))
    &&& n2 == next_offcurve_count(n, typ)
    &&& c2.points@.len() == c.points@.len() + 1
    &&& c2.points@.subrange(0, c.points@.len() as int) == c.points@
    &&& is_new_point(c2.points@.last(), x, y, typ, smooth, name, identifier)
    &&& c2.object_lib == c.object_lib
}

/// The error, if any, that ending the builder's path causes.
pub open spec fn end_path_refusal(b: OutlineBuilder) -> Option<OutlineBuilderError> {
    match b.spec_scratch() {
        None => Some(OutlineBuilderError::PenPathNotStarted),
        Some((c, n)) => end_path_error(c.points@, n),
    }
}

/// True when `after` is `before` with its path ended: the path's contour, unless it is
/// empty, follows the contours finished before.
pub open spec fn ends_path(before: OutlineBuilder, after: OutlineBuilder) -> bool {
    &&& after.spec_components() == before.spec_components()
    &&& after.spec_scratch() is None
    &&& before.spec_scratch() matches Some((c, n))
    &&& after.spec_contours() == if c.points@.len() > 0 {
        before.spec_contours().push(c)
    } else {
        before.spec_contours()
    }
}

/// True when `after` is `before` with the component added after the others.
pub open spec fn adds_component(
    before: OutlineBuilder,
    after: OutlineBuilder,
    base: Name,
    transform: AffineTransform,
    identifier: Option<Identifier>,
) -> bool {
    &&& after.spec_contours() == before.spec_contours()
    &&& after.spec_scratch() == before.spec_scratch()
    &&& after.spec_components().len() == before.spec_components().len() + 1
    &&& after.spec_components().subrange(0, before.spec_components().len() as int) == before.spec_components()
    &&& after.spec_components().last().base@ == base@
    &&& after.spec_components().last().transform == transform
    &&& after.spec_components().last().object_lib.spec_identifier() == identifier
    &&& after.spec_components().last().object_lib.spec_lib() is None
}

} // verus!
