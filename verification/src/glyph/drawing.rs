//! The drawing of a contour as a path: the moves, lines and curves that its points
//! make, each by the positions of the points it uses.
//!
//! A closed contour is drawn from its last on-curve point around to it again, so that
//! the off-curve points at its end lead into its first on-curve point. Off-curve
//! points before a `curve` point are its control points (one makes a quadratic curve,
//! two a cubic one); those before a `qcurve` point make a run of quadratic curves that
//! meet at the midpoints of consecutive control points.

use vstd::prelude::*;

use crate::error::ErrorKind;
use crate::glyph::{spec_is_closed, Contour, ContourPoint, PointType};

verus! {

/// A step of a path, by the positions of the points of the contour that it uses.
#[derive(Debug, Clone, Copy, PartialEq, Eq, Structural)]
pub enum PathCommand {
    /// Starts a new subpath at the point.
    MoveTo(usize),
    /// A line to the point.
    LineTo(usize),
    /// A quadratic curve with the control point `.0`, to the point `.1`.
    QuadTo(usize, usize),
    /// A quadratic curve with the control point `.0`, to the midpoint of it and the
    /// control point `.1`.
    QuadToMidpoint(usize, usize),
    /// A cubic curve with the control points `.0` and `.1`, to the point `.2`.
    CurveTo(usize, usize, usize),
}

/// The position of the last point that is not an off-curve point among the first `n`,
/// or 0 where there is none.
pub open spec fn last_on_curve(points: Seq<ContourPoint>, n: int) -> int
    decreases n,
{
    if n <= 0 {
        0
    } else if points[n - 1].typ != PointType::OffCurve {
        n - 1
    } else {
        last_on_curve(points, n - 1)
    }
}

/// The positions of the points in the order they are drawn: an open contour from its
/// first point to its last; a closed one from its last on-curve point around to that
/// point again.
pub open spec fn draw_order(points: Seq<ContourPoint>) -> Seq<int> {
    if points.len() == 0 {
        Seq::empty()
    } else if spec_is_closed(points) {
        let start = last_on_curve(points, points.len() as int);
        Seq::new(
            (points.len() + 1) as nat,
            |k: int|
                if start + k < points.len() {
                    start + k
                } else {
                    start + k - points.len()
                },
        )
    } else {
        Seq::new(points.len(), |k: int| k)
    }
}

/// The quadratic curves of a `qcurve` point at `end` after the control points `offs`.
pub open spec fn qcurve_commands(offs: Seq<usize>, end: usize) -> Seq<PathCommand> {
    Seq::new(
        offs.len(),
        |k: int|
            if k + 1 < offs.len() {
                PathCommand::QuadToMidpoint(offs[k], offs[k + 1])
            } else {
                PathCommand::QuadTo(offs[k], end)
            },
    )
}

/// `c` before the commands of `rest`, or the error of `rest`.
pub open spec fn prepend(c: Seq<PathCommand>, rest: Result<Seq<PathCommand>, ErrorKind>) -> Result<Seq<PathCommand>, ErrorKind> {
    match rest {
        Ok(r) => Ok(c + r),
        Err(e) => Err(e),
    }
}

/// The commands of the points drawn from position `i` of `order` on, after the
/// control points `offs` that wait for an on-curve point.
pub open spec fn walk(points: Seq<ContourPoint>, order: Seq<int>, i: int, offs: Seq<usize>) -> Result<Seq<PathCommand>, ErrorKind>
    decreases order.len() - i,
{
    if i < 0 || i >= order.len() {
        Ok(Seq::empty())
    } else {
        let p = order[i];
        match points[p].typ {
            PointType::Move => prepend(seq![PathCommand::MoveTo(p as usize)], walk(points, order, i + 1, offs)),
            PointType::Line => prepend(seq![PathCommand::LineTo(p as usize)], walk(points, order, i + 1, offs)),
            PointType::OffCurve => walk(points, order, i + 1, offs.push(p as usize)),
            PointType::Curve => if offs.len() == 0 {
                prepend(seq![PathCommand::LineTo(p as usize)], walk(points, order, i + 1, offs))
            } else if offs.len() == 1 {
                prepend(seq![PathCommand::QuadTo(offs[0], p as usize)], walk(points, order, i + 1, Seq::empty()))
            } else if offs.len() == 2 {
                prepend(
                    seq![PathCommand::CurveTo(offs[0], offs[1], p as usize)],
                    walk(points, order, i + 1, Seq::empty()),
                )
            } else {
                Err(ErrorKind::TooManyOffCurves)
            },
            PointType::QCurve => prepend(qcurve_commands(offs, p as usize), walk(points, order, i + 1, Seq::empty())),
        }
    }
}

/// The path of a contour, or the error of a `curve` point with more than two control
/// points. A `curve` point with none draws a straight line.
pub open spec fn path_commands(points: Seq<ContourPoint>) -> Result<Seq<PathCommand>, ErrorKind> {
    let order = draw_order(points);
    if order.len() == 0 {
        Ok(Seq::empty())
    } else {
        prepend(seq![PathCommand::MoveTo(order[0] as usize)], walk(points, order, 1, Seq::empty()))
    }
}

/// The position `last_on_curve` gives lies among the first `n` points, where there are
/// any.
proof fn lemma_last_on_curve_bounds(points: Seq<ContourPoint>, n: int)
    ensures
        0 <= last_on_curve(points, n),
        n > 0 ==> last_on_curve(points, n) < n,
    decreases n,
{
    if n > 0 {
        lemma_last_on_curve_bounds(points, n - 1);
    }
}

/// The position of the last point that is not an off-curve point, or 0.
fn find_last_on_curve(points: &Vec<ContourPoint>) -> (res: usize)
    ensures
        res as int == last_on_curve(points@, points@.len() as int),
        points@.len() > 0 ==> res < points@.len(),
{
    let mut n = points.len();
    while n > 0
        invariant
            n <= points@.len(),
            last_on_curve(points@, n as int) == last_on_curve(points@, points@.len() as int),
        decreases n,
    {
        proof {
            lemma_last_on_curve_bounds(points@, points@.len() as int);
        }
        if points[n - 1].typ != PointType::OffCurve {
            return n - 1;
        }
        n -= 1;
    }
    proof {
        lemma_last_on_curve_bounds(points@, points@.len() as int);
    }
    0
}

/// Appends the quadratic curves of a `qcurve` point at `end` after the control points
/// `offs`.
fn push_qcurve(out: &mut Vec<PathCommand>, offs: &Vec<usize>, end: usize)
    ensures
        final(out)@ == old(out)@ + qcurve_commands(offs@, end),
{
    let mut k: usize = 0;
    while k < offs.len()
        invariant
            k <= offs@.len(),
            out@ == old(out)@ + qcurve_commands(offs@, end).take(k as int),
        decreases offs@.len() - k,
    {
        if k + 1 < offs.len() {
            out.push(PathCommand::QuadToMidpoint(offs[k], offs[k + 1]));
        } else {
            out.push(PathCommand::QuadTo(offs[k], end));
        }
        assert(qcurve_commands(offs@, end).take(k + 1) =~= qcurve_commands(offs@, end).take(k as int).push(
            qcurve_commands(offs@, end)[k as int],
        ));
        k += 1;
    }
    assert(qcurve_commands(offs@, end).take(k as int) =~= qcurve_commands(offs@, end));
}

impl Contour {
    /// The path of the contour: its moves, lines and curves, each by the positions of
    /// the points it uses. A `curve` point that no off-curve point precedes draws a
    /// straight line; one with more than two before it is the error
    /// [`ErrorKind::TooManyOffCurves`].
    pub fn path_commands(&self) -> (res: Result<Vec<PathCommand>, ErrorKind>)
        requires
            self.points@.len() < usize::MAX,
        ensures
            match path_commands(self.points@) {
                Ok(cs) => res matches Ok(v) && v@ == cs,
                Err(e) => res == Err::<Vec<PathCommand>, ErrorKind>(e),
            },
    {
        let ghost pts = self.points@;
        let ghost order = draw_order(pts);
        let len = self.points.len();
        let mut out: Vec<PathCommand> = Vec::new();
        if len == 0 {
            return Ok(out);
        }
        let closed = self.is_closed();
        let start = if closed {
            find_last_on_curve(&self.points)
        } else {
            0
        };
        let count = if closed {
            len + 1
        } else {
            len
        };
        assert(order.len() == count);
        assert(order[0] == start as int);
        out.push(PathCommand::MoveTo(start));
        let mut offs: Vec<usize> = Vec::new();
        let mut k: usize = 1;
        while k < count
            invariant
                pts == self.points@,
                order == draw_order(pts),
                len == pts.len(),
                len > 0,
                count == order.len(),
                count <= len + 1,
                len < usize::MAX,
                start < len,
                closed == spec_is_closed(pts),
                closed ==> start as int == last_on_curve(pts, len as int),
                !closed ==> start == 0,
                1 <= k <= count,
                forall|j: int| 0 <= j < offs@.len() ==> #[trigger] offs@[j] < len,
                path_commands(pts) == prepend(out@, walk(pts, order, k as int, offs@)),
            decreases count - k,
        {
            let p = if closed {
                if k < len - start {
                    start + k
                } else {
                    k - (len - start)
                }
            } else {
                k
            };
            assert(order[k as int] == p as int);
            let ghost before = out@;
            let ghost offs_before = offs@;
            match self.points[p].typ {
                PointType::Move => {
                    out.push(PathCommand::MoveTo(p));
                    assert(out@ =~= before + seq![PathCommand::MoveTo(p)]);
                    proof {
                        lemma_prepend_assoc(before, seq![PathCommand::MoveTo(p)], walk(pts, order, k + 1, offs@));
                    }
                },
                PointType::Line => {
                    out.push(PathCommand::LineTo(p));
                    assert(out@ =~= before + seq![PathCommand::LineTo(p)]);
                    proof {
                        lemma_prepend_assoc(before, seq![PathCommand::LineTo(p)], walk(pts, order, k + 1, offs@));
                    }
                },
                PointType::OffCurve => {
                    offs.push(p);
                },
                PointType::Curve => {
                    if offs.len() == 0 {
                        out.push(PathCommand::LineTo(p));
                        assert(out@ =~= before + seq![PathCommand::LineTo(p)]);
                        proof {
                            lemma_prepend_assoc(before, seq![PathCommand::LineTo(p)], walk(pts, order, k + 1, offs@));
                        }
                    } else if offs.len() == 1 {
                        out.push(PathCommand::QuadTo(offs[0], p));
                        assert(out@ =~= before + seq![PathCommand::QuadTo(offs_before[0], p)]);
                        proof {
                            lemma_prepend_assoc(
                                before,
                                seq![PathCommand::QuadTo(offs_before[0], p)],
                                walk(pts, order, k + 1, Seq::empty()),
                            );
                        }
                        offs = Vec::new();
                    } else if offs.len() == 2 {
                        out.push(PathCommand::CurveTo(offs[0], offs[1], p));
                        assert(out@ =~= before + seq![PathCommand::CurveTo(offs_before[0], offs_before[1], p)]);
                        proof {
                            lemma_prepend_assoc(
                                before,
                                seq![PathCommand::CurveTo(offs_before[0], offs_before[1], p)],
                                walk(pts, order, k + 1, Seq::empty()),
                            );
                        }
                        offs = Vec::new();
                    } else {
                        return Err(ErrorKind::TooManyOffCurves);
                    }
                },
                PointType::QCurve => {
                    push_qcurve(&mut out, &offs, p);
                    proof {
                        lemma_prepend_assoc(before, qcurve_commands(offs_before, p), walk(pts, order, k + 1, Seq::empty()));
                    }
                    offs = Vec::new();
                },
            }
            k += 1;
        }
        proof {
            assert(walk(pts, order, k as int, offs@) == Ok::<Seq<PathCommand>, ErrorKind>(Seq::empty()));
            assert(out@ + Seq::<PathCommand>::empty() =~= out@);
        }
        Ok(out)
    }
}

/// Prepending in two steps is prepending their concatenation.
proof fn lemma_prepend_assoc(a: Seq<PathCommand>, b: Seq<PathCommand>, rest: Result<Seq<PathCommand>, ErrorKind>)
    ensures
        prepend(a, prepend(b, rest)) == prepend(a + b, rest),
{
    if let Ok(r) = rest {
        assert(a + (b + r) =~= (a + b) + r);
    }
}

/// Off-curve points waiting for an on-curve point gather in order: walking over the
/// off-curve points from `i` to `j` adds their positions to those waiting.
proof fn lemma_walk_offcurve_run(points: Seq<ContourPoint>, order: Seq<int>, i: int, j: int, offs: Seq<usize>)
    requires
        0 <= i <= j < order.len(),
        forall|k: int| i <= k < j ==> #[trigger] points[order[k]].typ == PointType::OffCurve,
    ensures
        walk(points, order, i, offs) == walk(
            points,
            order,
            j,
            offs + Seq::new((j - i) as nat, |k: int| order[i + k] as usize),
        ),
    decreases j - i,
{
    if i == j {
        assert(offs + Seq::new(0, |k: int| order[i + k] as usize) =~= offs);
    } else {
        lemma_walk_offcurve_run(points, order, i + 1, j, offs.push(order[i] as usize));
        assert(offs.push(order[i] as usize) + Seq::new((j - i - 1) as nat, |k: int| order[i + 1 + k] as usize) =~= offs
            + Seq::new((j - i) as nat, |k: int| order[i + k] as usize));
    }
}

/// A `qcurve` point after a run of off-curve points draws one quadratic curve for each
/// of them, in order, each with that off-curve point as its control point: all but the
/// last end at the midpoint of their control point and the next one, the last at the
/// `qcurve` point. No off-curve point is dropped. Here the contour starts with a move
/// to point 0, points 1 to `n` are off-curve points and point `n + 1` is the `qcurve`
/// point; whatever follows, a path that draws gives these curves after the move, and
/// where nothing follows, they are the whole path.
pub proof fn law_qcurve_draws_each_control_point(points: Seq<ContourPoint>, n: int)
    requires
        1 <= n,
        n + 2 <= points.len() <= usize::MAX,
        points[0].typ == PointType::Move,
        forall|k: int| 1 <= k <= n ==> #[trigger] points[k].typ == PointType::OffCurve,
        points[n + 1].typ == PointType::QCurve,
    ensures
        path_commands(points) matches Ok(cs) ==> cs.len() >= n + 1 && cs.take(n + 1) == seq![PathCommand::MoveTo(0)]
            + Seq::new(
            n as nat,
            |k: int|
                if k + 1 < n {
                    PathCommand::QuadToMidpoint((k + 1) as usize, (k + 2) as usize)
                } else {
                    PathCommand::QuadTo(n as usize, (n + 1) as usize)
                },
        ),
        points.len() == n + 2 ==> path_commands(points) == Ok::<Seq<PathCommand>, ErrorKind>(
            seq![PathCommand::MoveTo(0)] + Seq::new(
                n as nat,
                |k: int|
                    if k + 1 < n {
                        PathCommand::QuadToMidpoint((k + 1) as usize, (k + 2) as usize)
                    } else {
                        PathCommand::QuadTo(n as usize, (n + 1) as usize)
                    },
            ),
        ),
{
    let order = draw_order(points);
    assert(!spec_is_closed(points));
    assert(order =~= Seq::new(points.len(), |k: int| k));
    let curves = Seq::new(
        n as nat,
        |k: int|
            if k + 1 < n {
                PathCommand::QuadToMidpoint((k + 1) as usize, (k + 2) as usize)
            } else {
                PathCommand::QuadTo(n as usize, (n + 1) as usize)
            },
    );
    assert forall|k: int| 1 <= k < n + 1 implies #[trigger] points[order[k]].typ == PointType::OffCurve by {
        assert(order[k] == k);
    }
    lemma_walk_offcurve_run(points, order, 1, n + 1, Seq::empty());
    let offs = Seq::<usize>::empty() + Seq::new(n as nat, |k: int| order[1 + k] as usize);
    assert(order[n + 1] == n + 1);
    assert(qcurve_commands(offs, (n + 1) as usize) =~= curves);
    let rest = walk(points, order, n + 2, Seq::empty());
    assert(walk(points, order, n + 1, offs) == prepend(curves, rest));
    lemma_prepend_assoc(seq![PathCommand::MoveTo(0)], curves, rest);
    assert(path_commands(points) == prepend(seq![PathCommand::MoveTo(0)] + curves, rest));
    if let Ok(r) = rest {
        assert((seq![PathCommand::MoveTo(0)] + curves + r).take(n + 1) =~= seq![PathCommand::MoveTo(0)] + curves);
    }
    if points.len() == n + 2 {
        assert(rest == Ok::<Seq<PathCommand>, ErrorKind>(Seq::empty()));
        assert(seq![PathCommand::MoveTo(0)] + curves + Seq::<PathCommand>::empty() =~= seq![PathCommand::MoveTo(0)] + curves);
    }
}

/// Wherever a `qcurve` point is drawn after the control points `offs`, the path goes on
/// with one quadratic curve per control point, in order: the k-th with control point
/// `offs[k]`, to the midpoint of it and `offs[k + 1]`, the last to the `qcurve` point
/// itself; then the drawing goes on after the `qcurve` point with no control point
/// waiting.
pub proof fn law_qcurve_segments(points: Seq<ContourPoint>, order: Seq<int>, i: int, offs: Seq<usize>)
    requires
        0 <= i < order.len(),
        points[order[i]].typ == PointType::QCurve,
    ensures
        walk(points, order, i, offs) == prepend(
            Seq::new(
                offs.len(),
                |k: int|
                    if k + 1 < offs.len() {
                        PathCommand::QuadToMidpoint(offs[k], offs[k + 1])
                    } else {
                        PathCommand::QuadTo(offs[k], order[i] as usize)
                    },
            ),
            walk(points, order, i + 1, Seq::empty()),
        ),
{
    assert(qcurve_commands(offs, order[i] as usize) =~= Seq::new(
        offs.len(),
        |k: int|
            if k + 1 < offs.len() {
                PathCommand::QuadToMidpoint(offs[k], offs[k + 1])
            } else {
                PathCommand::QuadTo(offs[k], order[i] as usize)
            },
    ));
}

/// What each on-curve point draws, after the control points `offs` that wait for it:
/// a `move` point starts a subpath there, a `line` point draws a line to it, and a
/// `curve` point draws a line to it with no control point, a quadratic curve with its
/// one control point, a cubic curve with its two, in order, and is an error with more;
/// an off-curve point draws nothing yet and joins the control points that wait.
pub proof fn law_point_steps(points: Seq<ContourPoint>, order: Seq<int>, i: int, offs: Seq<usize>)
    requires
        0 <= i < order.len(),
    ensures
        points[order[i]].typ == PointType::Move ==> walk(points, order, i, offs) == prepend(
            seq![PathCommand::MoveTo(order[i] as usize)],
            walk(points, order, i + 1, offs),
        ),
        points[order[i]].typ == PointType::Line ==> walk(points, order, i, offs) == prepend(
            seq![PathCommand::LineTo(order[i] as usize)],
            walk(points, order, i + 1, offs),
        ),
        points[order[i]].typ == PointType::OffCurve ==> walk(points, order, i, offs) == walk(
            points,
            order,
            i + 1,
            offs.push(order[i] as usize),
        ),
        points[order[i]].typ == PointType::Curve && offs.len() == 0 ==> walk(points, order, i, offs) == prepend(
            seq![PathCommand::LineTo(order[i] as usize)],
            walk(points, order, i + 1, offs),
        ),
        points[order[i]].typ == PointType::Curve && offs.len() == 1 ==> walk(points, order, i, offs) == prepend(
            seq![PathCommand::QuadTo(offs[0], order[i] as usize)],
            walk(points, order, i + 1, Seq::empty()),
        ),
        points[order[i]].typ == PointType::Curve && offs.len() == 2 ==> walk(points, order, i, offs) == prepend(
            seq![PathCommand::CurveTo(offs[0], offs[1], order[i] as usize)],
            walk(points, order, i + 1, Seq::empty()),
        ),
        points[order[i]].typ == PointType::Curve && offs.len() > 2 ==> walk(points, order, i, offs) == Err::<
            Seq<PathCommand>,
            ErrorKind,
        >(ErrorKind::TooManyOffCurves),
{
}

/// A path starts with a move to the first point it draws: the first point of an open
/// contour, the last on-curve point of a closed one.
pub proof fn law_path_starts_with_move(points: Seq<ContourPoint>)
    requires
        points.len() > 0,
    ensures
        path_commands(points) matches Ok(cs) ==> cs.len() > 0 && cs[0] == PathCommand::MoveTo(draw_order(points)[0] as usize),
        !spec_is_closed(points) ==> draw_order(points)[0] == 0,
{
    if let Ok(r) = walk(points, draw_order(points), 1, Seq::empty()) {
        assert((seq![PathCommand::MoveTo(draw_order(points)[0] as usize)] + r)[0] == PathCommand::MoveTo(
            draw_order(points)[0] as usize,
        ));
    }
}

} // verus!
