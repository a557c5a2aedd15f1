//! Integer outline geometry: points, rectangles, contours and the point-wise
//! affine transform of the transform stage.
use vstd::prelude::*;

verus! {

/// Saturates an integer to the range of `i32`.
pub open spec fn clamp_i32(v: int) -> int {
    if v < i32::MIN {
        i32::MIN as int
    } else if v > i32::MAX {
        i32::MAX as int
    } else {
        v
    }
}

pub open spec fn min_int(a: int, b: int) -> int {
    if a <= b {
        a
    } else {
        b
    }
}

pub open spec fn max_int(a: int, b: int) -> int {
    if a >= b {
        a
    } else {
        b
    }
}

fn saturate(v: i128) -> (r: i32)
    ensures
        r as int == clamp_i32(v as int),
{
    if v < -2147483648i128 {
        -2147483648i32
    } else if v > 2147483647i128 {
        2147483647i32
    } else {
        v as i32
    }
}

#[derive(Clone, Copy, Debug, PartialEq, Eq)]
pub struct Point {
    pub x: i32,
    pub y: i32,
}

/// An axis-aligned rectangle covering `[min_x, max_x) x [min_y, max_y)`.
#[derive(Clone, Copy, Debug, PartialEq, Eq)]
pub struct Rect {
    pub min_x: i32,
    pub min_y: i32,
    pub max_x: i32,
    pub max_y: i32,
}

impl Rect {
    pub open spec fn is_empty_spec(self) -> bool {
        self.max_x <= self.min_x || self.max_y <= self.min_y
    }

    pub fn new(min_x: i32, min_y: i32, max_x: i32, max_y: i32) -> (r: Rect)
        ensures
            r == (Rect { min_x, min_y, max_x, max_y }),
    {
        Rect { min_x, min_y, max_x, max_y }
    }

    pub fn is_empty(&self) -> (r: bool)
        ensures
            r == self.is_empty_spec(),
    {
        self.max_x <= self.min_x || self.max_y <= self.min_y
    }

    pub open spec fn intersect_spec(self, o: Rect) -> Rect {
        Rect {
            min_x: max_int(self.min_x as int, o.min_x as int) as i32,
            min_y: max_int(self.min_y as int, o.min_y as int) as i32,
            max_x: min_int(self.max_x as int, o.max_x as int) as i32,
            max_y: min_int(self.max_y as int, o.max_y as int) as i32,
        }
    }

    pub fn intersect(&self, o: &Rect) -> (r: Rect)
        ensures
            r == self.intersect_spec(*o),
    {
        Rect {
            min_x: if self.min_x >= o.min_x { self.min_x } else { o.min_x },
            min_y: if self.min_y >= o.min_y { self.min_y } else { o.min_y },
            max_x: if self.max_x <= o.max_x { self.max_x } else { o.max_x },
            max_y: if self.max_y <= o.max_y { self.max_y } else { o.max_y },
        }
    }
}

/// An integer affine map: `x' = m11*x + m12*y + tx`, `y' = m21*x + m22*y + ty`,
/// each coordinate saturated to `i32`.
#[derive(Clone, Copy, Debug, PartialEq, Eq)]
pub struct Transform2D {
    pub m11: i32,
    pub m12: i32,
    pub m21: i32,
    pub m22: i32,
    pub tx: i32,
    pub ty: i32,
}

impl Transform2D {
    pub fn identity() -> (r: Transform2D)
        ensures
            r == (Transform2D { m11: 1, m12: 0, m21: 0, m22: 1, tx: 0, ty: 0 }),
    {
        Transform2D { m11: 1, m12: 0, m21: 0, m22: 1, tx: 0, ty: 0 }
    }

    pub fn translation(tx: i32, ty: i32) -> (r: Transform2D)
        ensures
            r == (Transform2D { m11: 1, m12: 0, m21: 0, m22: 1, tx, ty }),
    {
        Transform2D { m11: 1, m12: 0, m21: 0, m22: 1, tx, ty }
    }
}

fn affine(a: i32, x: i32, b: i32, y: i32, c: i32) -> (r: i32)
    ensures
        r as int == clamp_i32(a * x + b * y + c),
{
    assert(-0x4000_0000_0000_0000 <= a * x <= 0x4000_0000_0000_0000) by (nonlinear_arith)
        requires
            -0x8000_0000 <= a <= 0x7fff_ffff,
            -0x8000_0000 <= x <= 0x7fff_ffff,
    ;
    assert(-0x4000_0000_0000_0000 <= b * y <= 0x4000_0000_0000_0000) by (nonlinear_arith)
        requires
            -0x8000_0000 <= b <= 0x7fff_ffff,
            -0x8000_0000 <= y <= 0x7fff_ffff,
    ;
    let ax = (a as i128) * (x as i128);
    let by = (b as i128) * (y as i128);
    saturate(ax + by + c as i128)
}

/// A point-wise operation of the transform stage.
#[derive(Clone, Copy, Debug, PartialEq, Eq)]
pub enum PointOp {
    /// Apply an affine transform.
    Transform(Transform2D),
}

/// What `op` does to the point `p` of the contour `pts`.
pub open spec fn point_op(op: PointOp, pts: Seq<Point>, p: Point) -> Point {
    match op {
        PointOp::Transform(t) => Point {
            x: clamp_i32(t.m11 * p.x + t.m12 * p.y + t.tx) as i32,
            y: clamp_i32(t.m21 * p.x + t.m22 * p.y + t.ty) as i32,
        },
    }
}

pub open spec fn contour_op(op: PointOp, pts: Seq<Point>) -> Seq<Point> {
    pts.map_values(|p: Point| point_op(op, pts, p))
}

pub open spec fn outline_op(op: PointOp, o: Seq<Seq<Point>>) -> Seq<Seq<Point>> {
    o.map_values(|c: Seq<Point>| contour_op(op, c))
}

#[derive(Clone, Debug, PartialEq, Eq)]
pub struct Contour {
    pub points: Vec<Point>,
}

/// A path: a sequence of closed polygonal contours.
#[derive(Clone, Debug, PartialEq, Eq)]
pub struct Outline {
    pub contours: Vec<Contour>,
}

pub open spec fn outline_view(o: Outline) -> Seq<Seq<Point>> {
    o.contours@.map_values(|c: Contour| c.points@)
}

impl Contour {
    /// Applies `op` to every point of the contour.
    pub fn map_points(&self, op: PointOp) -> (r: Contour)
        ensures
            r.points@ == contour_op(op, self.points@),
    {
        let pts = &self.points;
        let mut out: Vec<Point> = Vec::new();
        let mut i: usize = 0;
        while i < pts.len()
            invariant
                i <= pts@.len(),
                out@.len() == i,
                forall|j: int| 0 <= j < i ==> out@[j] == point_op(op, pts@, pts@[j]),
            decreases pts@.len() - i,
        {
            let p = pts[i];
            let q = match op {
                PointOp::Transform(t) => Point {
                    x: affine(t.m11, p.x, t.m12, p.y, t.tx),
                    y: affine(t.m21, p.x, t.m22, p.y, t.ty),
                },
            };
            out.push(q);
            i = i + 1;
        }
        assert(out@ =~= contour_op(op, pts@));
        Contour { points: out }
    }
}

impl Outline {
    pub fn new() -> (r: Outline)
        ensures
            outline_view(r) == Seq::<Seq<Point>>::empty(),
    {
        let r = Outline { contours: Vec::new() };
        assert(outline_view(r) =~= Seq::<Seq<Point>>::empty());
        r
    }

    /// Applies `op` to every contour of the outline.
    pub fn map_points(&self, op: PointOp) -> (r: Outline)
        ensures
            outline_view(r) == outline_op(op, outline_view(*self)),
    {
        let mut out: Vec<Contour> = Vec::new();
        let mut i: usize = 0;
        while i < self.contours.len()
            invariant
                i <= self.contours@.len(),
                out@.len() == i,
                forall|j: int|
                    0 <= j < i ==> out@[j].points@ == contour_op(op, self.contours@[j].points@),
            decreases self.contours@.len() - i,
        {
            let c = self.contours[i].map_points(op);
            out.push(c);
            i = i + 1;
        }
        let r = Outline { contours: out };
        assert(outline_view(r) =~= outline_op(op, outline_view(*self)));
        r
    }

    /// A copy of the outline, point for point.
    pub fn copy(&self) -> (r: Outline)
        ensures
            outline_view(r) == outline_view(*self),
    {
        let mut out: Vec<Contour> = Vec::new();
        let mut i: usize = 0;
        while i < self.contours.len()
            invariant
                i <= self.contours@.len(),
                out@.len() == i,
                forall|j: int| 0 <= j < i ==> out@[j].points@ == self.contours@[j].points@,
            decreases self.contours@.len() - i,
        {
            let src = &self.contours[i].points;
            let mut pts: Vec<Point> = Vec::new();
            let mut k: usize = 0;
            while k < src.len()
                invariant
                    k <= src@.len(),
                    pts@ == src@.subrange(0, k as int),
                decreases src@.len() - k,
            {
                pts.push(src[k]);
                k = k + 1;
                assert(pts@ =~= src@.subrange(0, k as int));
            }
            assert(pts@ =~= src@);
            out.push(Contour { points: pts });
            i = i + 1;
        }
        let r = Outline { contours: out };
        assert(outline_view(r) =~= outline_view(*self));
        r
    }

    pub fn transform(&self, t: &Transform2D) -> (r: Outline)
        ensures
            outline_view(r) == outline_op(PointOp::Transform(*t), outline_view(*self)),
    {
        self.map_points(PointOp::Transform(*t))
    }
}

} // verus!
