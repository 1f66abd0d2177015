//! Exact planar geometry on an integer centimeter grid: points, line
//! segments, polygons, centroid and area, segment intersection, and the
//! connector-trimming walk that clips an access path to a footprint's
//! boundary.

use vstd::prelude::*;

verus! {

/// Largest coordinate (and lane length) the model admits, in centimeters.
pub const MAX_COORD: i64 = 10000000;

/// Largest number of ring points a polygon may carry.
pub const MAX_POLY_POINTS: usize = 10000;

/// A point on the integer centimeter grid.
#[derive(Clone, Copy, PartialEq, Eq, Structural, Debug)]
pub struct Pt {
    pub x: i64,
    pub y: i64,
}

/// A directed line segment.
#[derive(Clone, Copy, PartialEq, Eq, Structural, Debug)]
pub struct Line {
    pub pt1: Pt,
    pub pt2: Pt,
}

/// A footprint boundary: a closed ring of points (first equals last) plus an
/// interior label point supplied by the geographic source.
pub struct Polygon {
    pub points: Vec<Pt>,
    pub label: Pt,
}

pub open spec fn pt_wf(p: Pt) -> bool {
    &&& 0 <= p.x <= MAX_COORD
    &&& 0 <= p.y <= MAX_COORD
}

pub open spec fn polygon_wf(p: &Polygon) -> bool {
    &&& 4 <= p.points@.len() <= MAX_POLY_POINTS
    &&& p.points@.first() == p.points@.last()
    &&& forall|i: int| 0 <= i < p.points@.len() ==> pt_wf(#[trigger] p.points@[i])
    &&& pt_wf(p.label)
}

impl Polygon {
    /// An independent copy of the polygon.
    pub fn copied(&self) -> (r: Polygon)
        ensures
            r.points@ == self.points@,
            r.label == self.label,
    {
        let pts = self.points.clone();
        proof {
            assert(pts@ =~= self.points@);
        }
        Polygon { points: pts, label: self.label }
    }
}

proof fn lemma_mul_bound(a: int, b: int, m: int)
    requires
        -m <= a <= m,
        -m <= b <= m,
        0 <= m,
    ensures
        -(m * m) <= a * b <= m * m,
{
    assert(-(m * m) <= a * b <= m * m) by (nonlinear_arith)
        requires
            -m <= a <= m,
            -m <= b <= m,
            0 <= m,
    ;
}

proof fn lemma_div_bound(num: int, dd: int, m: int)
    requires
        0 < dd,
        0 <= num,
        num <= dd * m,
    ensures
        0 <= num / dd <= m,
{
    assert(0 <= num / dd <= m) by (nonlinear_arith)
        requires
            0 < dd,
            0 <= num,
            num <= dd * m,
    ;
}

// ----- centroid -----
pub open spec fn sum_x(s: Seq<Pt>) -> int
    decreases s.len(),
{
    if s.len() == 0 {
        0
    } else {
        sum_x(s.drop_last()) + s.last().x
    }
}

pub open spec fn sum_y(s: Seq<Pt>) -> int
    decreases s.len(),
{
    if s.len() == 0 {
        0
    } else {
        sum_y(s.drop_last()) + s.last().y
    }
}

/// The model's polygon centroid: the mean of the ring points, the closing
/// duplicate excluded, each axis rounded down.
pub open spec fn spec_center(p: &Polygon) -> Pt {
    let core = p.points@.drop_last();
    Pt {
        x: (sum_x(core) / (core.len() as int)) as i64,
        y: (sum_y(core) / (core.len() as int)) as i64,
    }
}

proof fn lemma_sum_bounds(s: Seq<Pt>)
    requires
        forall|i: int| 0 <= i < s.len() ==> pt_wf(#[trigger] s[i]),
    ensures
        0 <= sum_x(s) <= s.len() * MAX_COORD,
        0 <= sum_y(s) <= s.len() * MAX_COORD,
    decreases s.len(),
{
    if s.len() > 0 {
        lemma_sum_bounds(s.drop_last());
        assert(pt_wf(s.last()));
        assert(s.len() * MAX_COORD == (s.len() - 1) * MAX_COORD + MAX_COORD) by (nonlinear_arith);
    }
}

impl Polygon {
    /// The centroid of the footprint, exactly as `spec_center` describes.
    pub fn center(&self) -> (c: Pt)
        requires
            polygon_wf(self),
        ensures
            c == spec_center(self),
            pt_wf(c),
    {
        let n = self.points.len();
        let m = n - 1;
        let mut sx: i64 = 0;
        let mut sy: i64 = 0;
        proof {
            assert(self.points@.take(0) =~= Seq::<Pt>::empty());
        }
        for i in 0..m
            invariant
                m + 1 == self.points@.len(),
                polygon_wf(self),
                sx == sum_x(self.points@.take(i as int)),
                sy == sum_y(self.points@.take(i as int)),
                0 <= sx <= i * MAX_COORD,
                0 <= sy <= i * MAX_COORD,
        {
            proof {
                assert(self.points@.take(i + 1).drop_last() =~= self.points@.take(i as int));
                assert(self.points@.take(i + 1).last() == self.points@[i as int]);
                assert(pt_wf(self.points@[i as int]));
                assert((i + 1) * MAX_COORD == i * MAX_COORD + MAX_COORD) by (nonlinear_arith);
            }
            sx = sx + self.points[i].x;
            sy = sy + self.points[i].y;
        }
        proof {
            assert(self.points@.take(m as int) =~= self.points@.drop_last());
            lemma_div_bound(sx as int, m as int, MAX_COORD as int);
            lemma_div_bound(sy as int, m as int, MAX_COORD as int);
        }
        let cx = ((sx as u64) / (m as u64)) as i64;
        let cy = ((sy as u64) / (m as u64)) as i64;
        Pt { x: cx, y: cy }
    }
}

// ----- area -----
/// Twice the signed area contribution of one boundary edge.
pub open spec fn cross_edge(a: Pt, b: Pt) -> int {
    a.x * b.y - b.x * a.y
}

/// The shoelace sum over consecutive ring points: twice the signed area.
pub open spec fn shoelace(s: Seq<Pt>) -> int
    decreases s.len(),
{
    if s.len() < 2 {
        0
    } else {
        shoelace(s.drop_last()) + cross_edge(s[s.len() - 2], s.last())
    }
}

/// The model's polygon area in square centimeters: half the absolute
/// shoelace sum, rounded down.
pub open spec fn spec_area_cm2(p: &Polygon) -> int {
    let tw = shoelace(p.points@);
    (if tw >= 0 {
        tw
    } else {
        -tw
    }) / 2
}

impl Polygon {
    /// The enclosed area in square centimeters, exactly as `spec_area_cm2`
    /// describes.
    pub fn area_cm2(&self) -> (a: i64)
        requires
            polygon_wf(self),
        ensures
            a == spec_area_cm2(self),
            0 <= a,
    {
        let n = self.points.len();
        let mut acc: i64 = 0;
        proof {
            assert(self.points@.take(1).len() < 2);
            assert(shoelace(self.points@.take(1)) == 0);
        }
        for i in 1..n
            invariant
                n == self.points@.len(),
                4 <= n <= MAX_POLY_POINTS,
                polygon_wf(self),
                acc == shoelace(self.points@.take(i as int)),
                -((i - 1) * 2 * MAX_COORD * MAX_COORD) <= acc <= (i - 1) * 2 * MAX_COORD
                    * MAX_COORD,
        {
            let a = self.points[i - 1];
            let b = self.points[i];
            proof {
                assert(pt_wf(self.points@[i - 1]));
                assert(pt_wf(self.points@[i as int]));
                lemma_mul_bound(a.x as int, b.y as int, MAX_COORD as int);
                lemma_mul_bound(b.x as int, a.y as int, MAX_COORD as int);
                assert(i * 2 * MAX_COORD * MAX_COORD == (i - 1) * 2 * MAX_COORD * MAX_COORD + 2
                    * MAX_COORD * MAX_COORD) by (nonlinear_arith);
                let t = self.points@.take(i + 1);
                assert(t.drop_last() =~= self.points@.take(i as int));
                assert(t[t.len() - 2] == self.points@[i - 1]);
                assert(t.last() == self.points@[i as int]);
            }
            let c = a.x * b.y - b.x * a.y;
            acc = acc + c;
        }
        proof {
            assert(self.points@.take(n as int) =~= self.points@);
        }
        let tw: i64 = if acc >= 0 {
            acc
        } else {
            -acc
        };
        ((tw as u64) / 2u64) as i64
    }
}

// ----- segment intersection -----
/// The denominator of the intersection parameters: the cross product of the
/// two segment directions. Zero exactly when the segments are parallel.
pub open spec fn seg_den(a: Pt, b: Pt, c: Pt, d: Pt) -> int {
    (b.x - a.x) * (d.y - c.y) - (b.y - a.y) * (d.x - c.x)
}

/// Numerator of the parameter along `(a, b)` at which the supporting lines
/// meet.
pub open spec fn seg_t_num(a: Pt, b: Pt, c: Pt, d: Pt) -> int {
    (c.x - a.x) * (d.y - c.y) - (c.y - a.y) * (d.x - c.x)
}

/// Numerator of the parameter along `(c, d)` at which the supporting lines
/// meet.
pub open spec fn seg_u_num(a: Pt, b: Pt, c: Pt, d: Pt) -> int {
    (c.x - a.x) * (b.y - a.y) - (c.y - a.y) * (b.x - a.x)
}

/// Whether `num / den` lies in the closed unit interval.
pub open spec fn in_unit(num: int, den: int) -> bool {
    if den > 0 {
        0 <= num <= den
    } else {
        den <= num <= 0
    }
}

/// Whether the two closed segments meet in exactly one point: their
/// supporting lines are not parallel and both intersection parameters lie in
/// the unit interval.
pub open spec fn seg_intersects(a: Pt, b: Pt, c: Pt, d: Pt) -> bool {
    &&& seg_den(a, b, c, d) != 0
    &&& in_unit(seg_t_num(a, b, c, d), seg_den(a, b, c, d))
    &&& in_unit(seg_u_num(a, b, c, d), seg_den(a, b, c, d))
}

/// The meeting point of the two segments, each axis rounded down to the
/// grid. Meaningful only when `seg_intersects` holds.
pub open spec fn seg_hit(a: Pt, b: Pt, c: Pt, d: Pt) -> Pt {
    let den = seg_den(a, b, c, d);
    let tn = seg_t_num(a, b, c, d);
    let nn = if den > 0 {
        tn
    } else {
        -tn
    };
    let dd = if den > 0 {
        den
    } else {
        -den
    };
    Pt {
        x: ((a.x * dd + nn * (b.x - a.x)) / dd) as i64,
        y: ((a.y * dd + nn * (b.y - a.y)) / dd) as i64,
    }
}

/// The exact outcome of intersecting segment `(a, b)` with segment `(c, d)`.
pub open spec fn spec_intersection(a: Pt, b: Pt, c: Pt, d: Pt) -> Option<Pt> {
    if seg_intersects(a, b, c, d) {
        Some(seg_hit(a, b, c, d))
    } else {
        None
    }
}

proof fn lemma_interp_bounds(p: int, q: int, nn: int, dd: int, m: int)
    requires
        0 < dd,
        0 <= nn <= dd,
        0 <= p <= m,
        0 <= q <= m,
    ensures
        0 <= p * dd + nn * (q - p) <= dd * m,
        0 <= (p * dd + nn * (q - p)) / dd <= m,
{
    assert(0 <= p * dd + nn * (q - p) <= dd * m) by (nonlinear_arith)
        requires
            0 < dd,
            0 <= nn <= dd,
            0 <= p <= m,
            0 <= q <= m,
    ;
    lemma_div_bound(p * dd + nn * (q - p), dd, m);
}

/// Intersects segment `(a, b)` with segment `(c, d)`, exactly as
/// `spec_intersection` describes.
pub fn line_intersection(a: Pt, b: Pt, c: Pt, d: Pt) -> (r: Option<Pt>)
    requires
        pt_wf(a),
        pt_wf(b),
        pt_wf(c),
        pt_wf(d),
    ensures
        r == spec_intersection(a, b, c, d),
        r matches Some(h) ==> pt_wf(h),
{
    let ax = a.x as i128;
    let ay = a.y as i128;
    let bx = b.x as i128;
    let by = b.y as i128;
    let cx = c.x as i128;
    let cy = c.y as i128;
    let dx = d.x as i128;
    let dy = d.y as i128;
    let abx = bx - ax;
    let aby = by - ay;
    let cdx = dx - cx;
    let cdy = dy - cy;
    let acx = cx - ax;
    let acy = cy - ay;
    proof {
        lemma_mul_bound(abx as int, cdy as int, MAX_COORD as int);
        lemma_mul_bound(aby as int, cdx as int, MAX_COORD as int);
        lemma_mul_bound(acx as int, cdy as int, MAX_COORD as int);
        lemma_mul_bound(acy as int, cdx as int, MAX_COORD as int);
        lemma_mul_bound(acx as int, aby as int, MAX_COORD as int);
        lemma_mul_bound(acy as int, abx as int, MAX_COORD as int);
    }
    let den = abx * cdy - aby * cdx;
    if den == 0 {
        return None;
    }
    let tn = acx * cdy - acy * cdx;
    let un = acx * aby - acy * abx;
    let inside = if den > 0 {
        0 <= tn && tn <= den && 0 <= un && un <= den
    } else {
        den <= tn && tn <= 0 && den <= un && un <= 0
    };
    if !inside {
        return None;
    }
    let nn = if den > 0 {
        tn
    } else {
        -tn
    };
    let dd = if den > 0 {
        den
    } else {
        -den
    };
    proof {
        lemma_interp_bounds(a.x as int, b.x as int, nn as int, dd as int, MAX_COORD as int);
        lemma_interp_bounds(a.y as int, b.y as int, nn as int, dd as int, MAX_COORD as int);
        lemma_mul_bound(a.x as int, dd as int, 400000000000000);
        lemma_mul_bound(nn as int, abx as int, 400000000000000);
        lemma_mul_bound(a.y as int, dd as int, 400000000000000);
        lemma_mul_bound(nn as int, aby as int, 400000000000000);
    }
    let numx = ax * dd + nn * abx;
    let numy = ay * dd + nn * aby;
    let hx = ((numx as u128) / (dd as u128)) as i64;
    let hy = ((numy as u128) / (dd as u128)) as i64;
    Some(Pt { x: hx, y: hy })
}

// ----- connector trimming -----
/// The connector-trimming walk: scan the boundary edges in order; at the
/// first edge that meets the path in a point distinct from the path's
/// exterior endpoint, clip the path to start there; if no edge qualifies,
/// keep the path unchanged.
pub open spec fn spec_trim_path(pts: Seq<Pt>, path: Line) -> Line
    decreases pts.len(),
{
    if pts.len() < 2 {
        path
    } else {
        match spec_intersection(pts[0], pts[1], path.pt1, path.pt2) {
            Some(h) => if h != path.pt2 {
                Line { pt1: h, pt2: path.pt2 }
            } else {
                spec_trim_path(pts.drop_first(), path)
            },
            None => spec_trim_path(pts.drop_first(), path),
        }
    }
}

/// Clips a candidate connector to start on the footprint's boundary rather
/// than its interior, exactly as `spec_trim_path` describes. A path no
/// boundary edge intersects is returned unchanged, as a silent best-effort
/// fallback.
pub fn trim_path(poly: &Polygon, path: Line) -> (r: Line)
    requires
        polygon_wf(poly),
        pt_wf(path.pt1),
        pt_wf(path.pt2),
        path.pt1 != path.pt2,
    ensures
        r == spec_trim_path(poly.points@, path),
        r.pt2 == path.pt2,
        r.pt1 != r.pt2,
        pt_wf(r.pt1),
        pt_wf(r.pt2),
{
    let n = poly.points.len();
    proof {
        assert(poly.points@.skip(0) =~= poly.points@);
    }
    for i in 0..n - 1
        invariant
            n == poly.points@.len(),
            polygon_wf(poly),
            pt_wf(path.pt1),
            pt_wf(path.pt2),
            path.pt1 != path.pt2,
            spec_trim_path(poly.points@, path) == spec_trim_path(
                poly.points@.skip(i as int),
                path,
            ),
    {
        let a = poly.points[i];
        let b = poly.points[i + 1];
        proof {
            assert(pt_wf(poly.points@[i as int]));
            assert(pt_wf(poly.points@[i + 1]));
            assert(poly.points@.skip(i as int)[0] == poly.points@[i as int]);
            assert(poly.points@.skip(i as int)[1] == poly.points@[i + 1]);
        }
        let hit = line_intersection(a, b, path.pt1, path.pt2);
        if let Some(h) = hit {
            if h != path.pt2 {
                return Line { pt1: h, pt2: path.pt2 };
            }
        }
        proof {
            assert(poly.points@.skip(i as int).drop_first() =~= poly.points@.skip(i + 1));
        }
    }
    proof {
        assert(poly.points@.skip(n - 1).len() < 2);
    }
    path
}

} // verus!
