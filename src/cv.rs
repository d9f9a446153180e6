use crate::mesh::{
    coord_ok, cross2, lemma_positive_area_distinct, pt, touches, tri_area2, tri_ok, Tri,
    TriangleMesh,
};
use vstd::prelude::*;

verus! {

/// One boundary segment of a control volume.
///
/// Points are given in the mesh's lattice coordinates scaled by 6, so that
/// edge midpoints and triangle centroids are integers. `normal` is the
/// segment vector turned a quarter turn clockwise: the outward normal times
/// the segment's length, which is what the flux integral multiplies a stress by.
#[derive(Debug, Clone, Copy)]
pub struct Segment {
    pub start: (i64, i64),
    pub end: (i64, i64),
    pub normal: (i64, i64),
    pub triangle: usize,
}

pub open spec fn seg(s: (int, int), e: (int, int), t: usize) -> Segment {
    Segment {
        start: (s.0 as i64, s.1 as i64),
        end: (e.0 as i64, e.1 as i64),
        normal: ((e.1 - s.1) as i64, (s.0 - e.0) as i64),
        triangle: t,
    }
}

/// The two segments that triangle `t` with counter-clockwise corners
/// `a, b, c` adds to the control volume of `a`: from the midpoint of edge
/// `ab` to the centroid, and from the centroid to the midpoint of edge `ac`.
pub open spec fn sector(a: (int, int), b: (int, int), c: (int, int), t: usize) -> (Segment, Segment) {
    let m1 = (3 * (a.0 + b.0), 3 * (a.1 + b.1));
    let cen = (2 * (a.0 + b.0 + c.0), 2 * (a.1 + b.1 + c.1));
    let m2 = (3 * (a.0 + c.0), 3 * (a.1 + c.1));
    (seg(m1, cen, t), seg(cen, m2, t))
}

/// The sector of triangle number `t` (corners `tri`) that belongs to vertex `v`.
pub open spec fn sector_of(vs: Seq<(i64, i64)>, tri: Tri, t: usize, v: int) -> (Segment, Segment) {
    let p0 = pt(vs[tri.0 as int]);
    let p1 = pt(vs[tri.1 as int]);
    let p2 = pt(vs[tri.2 as int]);
    if v == tri.0 {
        sector(p0, p1, p2, t)
    } else if v == tri.1 {
        sector(p1, p2, p0, t)
    } else {
        sector(p2, p0, p1, t)
    }
}

/// The boundary of `v`'s control volume built from the first `upto` triangles.
pub open spec fn cv_segments(vs: Seq<(i64, i64)>, ts: Seq<Tri>, v: int, upto: int) -> Seq<Segment>
    decreases upto,
{
    if upto <= 0 {
        Seq::empty()
    } else {
        let prev = cv_segments(vs, ts, v, upto - 1);
        if touches(ts[upto - 1], v) {
            let s = sector_of(vs, ts[upto - 1], (upto - 1) as usize, v);
            prev.push(s.0).push(s.1)
        } else {
            prev
        }
    }
}

/// Twice the area of `v`'s control volume built from the first `upto`
/// triangles, in coordinates scaled by 6 (so 36 times the lattice measure).
pub open spec fn cv_area2(vs: Seq<(i64, i64)>, ts: Seq<Tri>, v: int, upto: int) -> int
    decreases upto,
{
    if upto <= 0 {
        0
    } else {
        let prev = cv_area2(vs, ts, v, upto - 1);
        if touches(ts[upto - 1], v) {
            prev + 12 * cross2(pt(vs[ts[upto - 1].0 as int]), pt(vs[ts[upto - 1].1 as int]), pt(vs[ts[upto - 1].2 as int]))
        } else {
            prev
        }
    }
}

/// Shoelace measure (twice the area) of the quadrilateral `a, m1, cen, m2`
/// closed by the two sector segments, all points scaled by 6.
pub open spec fn sector_area2(a: (int, int), s: (Segment, Segment)) -> int {
    let o = (6 * a.0, 6 * a.1);
    let p = (s.0.start.0 - o.0, s.0.start.1 - o.1);
    let q = (s.0.end.0 - o.0, s.0.end.1 - o.1);
    let r = (s.1.end.0 - o.0, s.1.end.1 - o.1);
    (p.0 * q.1 - p.1 * q.0) + (q.0 * r.1 - q.1 * r.0)
}

/// Shoelace measure of a control volume around the point `o` (scaled by 6)
/// whose boundary is `s`, taken two segments (one sector) at a time.
pub open spec fn segments_area2(o: (int, int), s: Seq<Segment>) -> int
    decreases s.len(),
{
    if s.len() < 2 {
        0
    } else {
        segments_area2(o, s.drop_last().drop_last()) + sector_area2(o, (s[s.len() - 2], s[s.len() - 1]))
    }
}

/// The median-centroid control volumes of a mesh: for each vertex its
/// boundary segments (grouped by triangle, in increasing triangle order) and
/// twice its area in coordinates scaled by 6.
#[derive(Debug, Clone)]
pub struct MedianCentroidControlVolume {
    pub segments: Vec<Vec<Segment>>,
    pub areas: Vec<i128>,
}

impl MedianCentroidControlVolume {
    pub open spec fn wf_for(self, mesh: TriangleMesh) -> bool {
        let vs = mesh.vertices@;
        let ts = mesh.triangles@;
        &&& self.segments@.len() == vs.len()
        &&& self.areas@.len() == vs.len()
        &&& forall|v: int|
            0 <= v < vs.len() ==> (#[trigger] self.segments@[v])@ == cv_segments(vs, ts, v, ts.len() as int)
        &&& forall|v: int| 0 <= v < vs.len() ==> #[trigger] self.areas@[v] == cv_area2(vs, ts, v, ts.len() as int)
        &&& forall|v: int|
            0 <= v < vs.len() ==> #[trigger] self.areas@[v] == segments_area2(pt(vs[v]), self.segments@[v]@)
    }
}

/// The shoelace measure of a sector is a third of its triangle's, in the
/// coordinates scaled by 6: `36 * cross2 / 3`.
pub proof fn lemma_sector_area(a: (int, int), b: (int, int), c: (int, int), t: usize)
    requires
        coord_ok((a.0 as i64, a.1 as i64)) && a == pt((a.0 as i64, a.1 as i64)),
        coord_ok((b.0 as i64, b.1 as i64)) && b == pt((b.0 as i64, b.1 as i64)),
        coord_ok((c.0 as i64, c.1 as i64)) && c == pt((c.0 as i64, c.1 as i64)),
    ensures
        sector_area2(a, sector(a, b, c, t)) == 12 * cross2(a, b, c),
        cross2(b, c, a) == cross2(a, b, c),
        cross2(c, a, b) == cross2(a, b, c),
{
    assert(sector_area2(a, sector(a, b, c, t)) == 12 * cross2(a, b, c)) by (nonlinear_arith)
        requires
            -1048576 <= a.0 <= 1048576 && -1048576 <= a.1 <= 1048576,
            -1048576 <= b.0 <= 1048576 && -1048576 <= b.1 <= 1048576,
            -1048576 <= c.0 <= 1048576 && -1048576 <= c.1 <= 1048576,
    ;
    assert(cross2(b, c, a) == cross2(a, b, c)) by (nonlinear_arith);
    assert(cross2(c, a, b) == cross2(a, b, c)) by (nonlinear_arith);
}

/// `p.0 * q.1 - p.1 * q.0` on vectors no longer than `2^24` per component.
fn cross_exec(p: (i64, i64), q: (i64, i64)) -> (r: i64)
    requires
        -16777216 <= p.0 <= 16777216 && -16777216 <= p.1 <= 16777216,
        -16777216 <= q.0 <= 16777216 && -16777216 <= q.1 <= 16777216,
    ensures
        r == p.0 * q.1 - p.1 * q.0,
        -562949953421312 <= r <= 562949953421312,
{
    assert(-281474976710656 <= p.0 * q.1 <= 281474976710656) by (nonlinear_arith)
        requires
            -16777216 <= p.0 <= 16777216 && -16777216 <= q.1 <= 16777216,
    ;
    assert(-281474976710656 <= p.1 * q.0 <= 281474976710656) by (nonlinear_arith)
        requires
            -16777216 <= p.1 <= 16777216 && -16777216 <= q.0 <= 16777216,
    ;
    p.0 * q.1 - p.1 * q.0
}

/// The sector of triangle `t` (corners `a, b, c`, counter-clockwise) that
/// belongs to `a`, with its shoelace measure.
fn make_sector(a: (i64, i64), b: (i64, i64), c: (i64, i64), t: usize) -> (r: (Segment, Segment, i64))
    requires
        coord_ok(a),
        coord_ok(b),
        coord_ok(c),
    ensures
        (r.0, r.1) == sector(pt(a), pt(b), pt(c), t),
        r.2 == sector_area2(pt(a), (r.0, r.1)),
        r.2 == 12 * cross2(pt(a), pt(b), pt(c)),
        -1125899906842624 <= r.2 <= 1125899906842624,
{
    let m1 = (3 * (a.0 + b.0), 3 * (a.1 + b.1));
    let cen = (2 * (a.0 + b.0 + c.0), 2 * (a.1 + b.1 + c.1));
    let m2 = (3 * (a.0 + c.0), 3 * (a.1 + c.1));
    let s1 = Segment { start: m1, end: cen, normal: (cen.1 - m1.1, m1.0 - cen.0), triangle: t };
    let s2 = Segment { start: cen, end: m2, normal: (m2.1 - cen.1, cen.0 - m2.0), triangle: t };
    let o = (6 * a.0, 6 * a.1);
    let p = (m1.0 - o.0, m1.1 - o.1);
    let q = (cen.0 - o.0, cen.1 - o.1);
    let r = (m2.0 - o.0, m2.1 - o.1);
    let area = cross_exec(p, q) + cross_exec(q, r);
    proof {
        lemma_sector_area(pt(a), pt(b), pt(c), t);
    }
    (s1, s2, area)
}

impl MedianCentroidControlVolume {
    /// The control volume of every vertex of `mesh`.
    pub fn new(mesh: &TriangleMesh) -> (r: MedianCentroidControlVolume)
        requires
            mesh.wf(),
        ensures
            r.wf_for(*mesh),
    {
        let ghost vs = mesh.vertices@;
        let ghost ts = mesh.triangles@;
        let n = mesh.vertices.len();
        let mut segments: Vec<Vec<Segment>> = Vec::new();
        let mut areas: Vec<i128> = Vec::new();
        let mut v: usize = 0;
        while v < n
            invariant
                n == vs.len(),
                v <= n,
                segments@.len() == v,
                areas@.len() == v,
                forall|w: int| 0 <= w < v ==> (#[trigger] segments@[w])@ == Seq::<Segment>::empty(),
                forall|w: int| 0 <= w < v ==> #[trigger] areas@[w] == 0,
            decreases n - v,
        {
            segments.push(Vec::new());
            areas.push(0);
            v += 1;
        }
        let mut e: usize = 0;
        while e < mesh.triangles.len()
            invariant
                mesh.wf(),
                vs == mesh.vertices@,
                ts == mesh.triangles@,
                n == vs.len(),
                e <= ts.len(),
                segments@.len() == n,
                areas@.len() == n,
                forall|w: int| 0 <= w < n ==> (#[trigger] segments@[w])@ == cv_segments(vs, ts, w, e as int),
                forall|w: int| 0 <= w < n ==> #[trigger] areas@[w] == cv_area2(vs, ts, w, e as int),
                forall|w: int| 0 <= w < n ==> #[trigger] areas@[w] == segments_area2(pt(vs[w]), segments@[w]@),
                forall|w: int| 0 <= w < n ==> -e * 1125899906842624 <= #[trigger] areas@[w] <= e * 1125899906842624,
            decreases ts.len() - e,
        {
            let tri = mesh.triangles[e];
            proof {
                assert(tri_ok(n as int, ts[e as int]));
                assert(tri_area2(vs, ts[e as int]) > 0);
                lemma_positive_area_distinct(vs, tri);
                assert(coord_ok(vs[tri.0 as int]));
                assert(coord_ok(vs[tri.1 as int]));
                assert(coord_ok(vs[tri.2 as int]));
                lemma_sector_area(pt(vs[tri.0 as int]), pt(vs[tri.1 as int]), pt(vs[tri.2 as int]), e);
            }
            let p0 = mesh.vertices[tri.0];
            let p1 = mesh.vertices[tri.1];
            let p2 = mesh.vertices[tri.2];
            let ghost before_s = segments@;
            let ghost before_a = areas@;
            let s0 = make_sector(p0, p1, p2, e);
            let s1 = make_sector(p1, p2, p0, e);
            let s2 = make_sector(p2, p0, p1, e);
            assert(e * 1125899906842624 + 1125899906842624 == (e + 1) * 1125899906842624);
            segments[tri.0].push(s0.0);
            segments[tri.0].push(s0.1);
            segments[tri.1].push(s1.0);
            segments[tri.1].push(s1.1);
            segments[tri.2].push(s2.0);
            segments[tri.2].push(s2.1);
            areas[tri.0] = areas[tri.0] + s0.2 as i128;
            areas[tri.1] = areas[tri.1] + s1.2 as i128;
            areas[tri.2] = areas[tri.2] + s2.2 as i128;
            assert forall|w: int| 0 <= w < n implies (#[trigger] segments@[w])@ == cv_segments(vs, ts, w, e + 1)
                && areas@[w] == cv_area2(vs, ts, w, e + 1) && areas@[w] == segments_area2(pt(vs[w]), segments@[w]@) by {
                if w == tri.0 || w == tri.1 || w == tri.2 {
                    let s = segments@[w]@;
                    assert(s.drop_last().drop_last() =~= before_s[w]@);
                } else {
                    assert(segments@[w] == before_s[w]);
                }
            }
            e += 1;
        }
        MedianCentroidControlVolume { segments, areas }
    }
}

/// Sum of a sequence of control-volume measures.
pub open spec fn total_i128(s: Seq<i128>) -> int
    decreases s.len(),
{
    if s.len() == 0 {
        0
    } else {
        total_i128(s.drop_last()) + s.last()
    }
}

/// Sum of a sequence of triangle measures.
pub open spec fn total_i64(s: Seq<i64>) -> int
    decreases s.len(),
{
    if s.len() == 0 {
        0
    } else {
        total_i64(s.drop_last()) + s.last()
    }
}

/// Sum of the control-volume measures of the vertices below `n`, built from
/// the first `upto` triangles.
pub open spec fn cv_total(vs: Seq<(i64, i64)>, ts: Seq<Tri>, n: int, upto: int) -> int
    decreases n,
{
    if n <= 0 {
        0
    } else {
        cv_total(vs, ts, n - 1, upto) + cv_area2(vs, ts, n - 1, upto)
    }
}

/// Sum of the twice-areas of the first `upto` triangles.
pub open spec fn area_total(vs: Seq<(i64, i64)>, ts: Seq<Tri>, upto: int) -> int
    decreases upto,
{
    if upto <= 0 {
        0
    } else {
        area_total(vs, ts, upto - 1) + tri_area2(vs, ts[upto - 1])
    }
}

/// `k` for each vertex below `n` that is a corner of `t`.
pub open spec fn corner_total(t: Tri, k: int, n: int) -> int
    decreases n,
{
    if n <= 0 {
        0
    } else {
        corner_total(t, k, n - 1) + if touches(t, n - 1) { k } else { 0 }
    }
}

proof fn lemma_corner_total(t: Tri, k: int, n: int)
    requires
        t.0 != t.1 && t.0 != t.2 && t.1 != t.2,
        0 <= n,
    ensures
        corner_total(t, k, n) == (if t.0 < n { k } else { 0 }) + (if t.1 < n { k } else { 0 }) + (if t.2 < n {
            k
        } else {
            0
        }),
    decreases n,
{
    if n > 0 {
        lemma_corner_total(t, k, n - 1);
    }
}

/// Adding triangle `upto - 1` adds its sector to each of its corners.
proof fn lemma_cv_total_step(vs: Seq<(i64, i64)>, ts: Seq<Tri>, n: int, upto: int)
    requires
        0 < upto,
        0 <= n,
    ensures
        cv_total(vs, ts, n, upto) == cv_total(vs, ts, n, upto - 1) + corner_total(
            ts[upto - 1],
            12 * tri_area2(vs, ts[upto - 1]),
            n,
        ),
    decreases n,
{
    if n > 0 {
        lemma_cv_total_step(vs, ts, n - 1, upto);
    }
}

proof fn lemma_cv_total(vs: Seq<(i64, i64)>, ts: Seq<Tri>, n: int, upto: int)
    requires
        0 <= upto <= ts.len(),
        0 <= n,
        forall|t: int| 0 <= t < ts.len() ==> tri_ok(n, #[trigger] ts[t]),
        forall|t: int| 0 <= t < ts.len() ==> tri_area2(vs, #[trigger] ts[t]) > 0,
    ensures
        cv_total(vs, ts, n, upto) == 36 * area_total(vs, ts, upto),
    decreases upto,
{
    if upto > 0 {
        lemma_cv_total(vs, ts, n, upto - 1);
        lemma_cv_total_step(vs, ts, n, upto);
        let t = ts[upto - 1];
        assert(tri_ok(n, t));
        lemma_positive_area_distinct(vs, t);
        lemma_corner_total(t, 12 * tri_area2(vs, t), n);
    } else {
        lemma_cv_total_zero(vs, ts, n);
    }
}

proof fn lemma_cv_total_zero(vs: Seq<(i64, i64)>, ts: Seq<Tri>, n: int)
    requires
        0 <= n,
    ensures
        cv_total(vs, ts, n, 0) == 0,
    decreases n,
{
    if n > 0 {
        lemma_cv_total_zero(vs, ts, n - 1);
    }
}

proof fn lemma_total_cv_areas(vs: Seq<(i64, i64)>, ts: Seq<Tri>, s: Seq<i128>, n: int)
    requires
        0 <= n <= s.len(),
        forall|v: int| 0 <= v < s.len() ==> #[trigger] s[v] == cv_area2(vs, ts, v, ts.len() as int),
    ensures
        total_i128(s.take(n)) == cv_total(vs, ts, n, ts.len() as int),
    decreases n,
{
    if n > 0 {
        lemma_total_cv_areas(vs, ts, s, n - 1);
        assert(s.take(n).drop_last() =~= s.take(n - 1));
    }
}

proof fn lemma_total_tri_areas(vs: Seq<(i64, i64)>, ts: Seq<Tri>, s: Seq<i64>, u: int)
    requires
        0 <= u <= s.len() == ts.len(),
        forall|t: int| 0 <= t < s.len() ==> #[trigger] s[t] == tri_area2(vs, ts[t]),
    ensures
        total_i64(s.take(u)) == area_total(vs, ts, u),
    decreases u,
{
    if u > 0 {
        lemma_total_tri_areas(vs, ts, s, u - 1);
        assert(s.take(u).drop_last() =~= s.take(u - 1));
    }
}

/// Partition law: the control volumes of all vertices together cover the
/// mesh exactly once. Control-volume measures are twice the area in
/// coordinates scaled by 6, triangle measures twice the area in lattice
/// coordinates, so the first total is 36 times the second.
pub proof fn lemma_control_volume_partition(mesh: TriangleMesh, cv: MedianCentroidControlVolume)
    requires
        mesh.wf(),
        cv.wf_for(mesh),
    ensures
        total_i128(cv.areas@) == 36 * total_i64(mesh.areas@),
{
    let vs = mesh.vertices@;
    let ts = mesh.triangles@;
    let n = vs.len() as int;
    assert forall|t: int| 0 <= t < ts.len() implies tri_ok(n, #[trigger] ts[t]) by {
        assert(tri_ok(n, ts[t]));
    }
    lemma_cv_total(vs, ts, n, ts.len() as int);
    lemma_total_cv_areas(vs, ts, cv.areas@, n);
    lemma_total_tri_areas(vs, ts, mesh.areas@, ts.len() as int);
    assert(cv.areas@.take(n) =~= cv.areas@);
    assert(mesh.areas@.take(ts.len() as int) =~= mesh.areas@);
}

} // verus!
