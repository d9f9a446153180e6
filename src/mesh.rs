use vstd::arithmetic::div_mod::{lemma_fundamental_div_mod, lemma_fundamental_div_mod_converse};
use vstd::arithmetic::mul::lemma_mul_is_commutative;
use vstd::prelude::*;

verus! {

/// Largest absolute lattice coordinate that a mesh may hold; it keeps every
/// cross product and control-volume sum far from overflow.
pub const COORD_LIMIT: i64 = 1048576;

/// Corner indices of one triangle, counter-clockwise in the rest state.
pub type Tri = (usize, usize, usize);

/// Reasons a mesh cannot be built.
#[derive(Debug, Clone, Copy, PartialEq, Eq, Structural)]
pub enum MeshError {
    /// A vertex coordinate lies beyond `COORD_LIMIT`.
    CoordinateOutOfRange,
    /// A triangle names a vertex that does not exist.
    VertexOutOfRange,
    /// A triangle whose signed area is not positive.
    NonPositiveArea,
    /// A vertex belongs to no triangle, so it cannot own a control volume.
    DisconnectedVertex,
}

/// Twice the signed area of the triangle `(a, b, c)`; positive exactly when
/// the corners run counter-clockwise.
pub open spec fn cross2(a: (int, int), b: (int, int), c: (int, int)) -> int {
    (c.0 - b.0) * (a.1 - b.1) - (a.0 - b.0) * (c.1 - b.1)
}

pub open spec fn pt(p: (i64, i64)) -> (int, int) {
    (p.0 as int, p.1 as int)
}

pub open spec fn touches(t: Tri, v: int) -> bool {
    t.0 == v || t.1 == v || t.2 == v
}

pub open spec fn coord_ok(p: (i64, i64)) -> bool {
    -COORD_LIMIT <= p.0 <= COORD_LIMIT && -COORD_LIMIT <= p.1 <= COORD_LIMIT
}

pub open spec fn coords_ok(vs: Seq<(i64, i64)>) -> bool {
    forall|v: int| 0 <= v < vs.len() ==> coord_ok(#[trigger] vs[v])
}

pub open spec fn tri_ok(n: int, t: Tri) -> bool {
    t.0 < n && t.1 < n && t.2 < n
}

pub open spec fn indices_ok(n: int, ts: Seq<Tri>) -> bool {
    forall|t: int| 0 <= t < ts.len() ==> tri_ok(n, #[trigger] ts[t])
}

/// Twice the signed rest area of triangle `t` of the lattice `vs`.
pub open spec fn tri_area2(vs: Seq<(i64, i64)>, t: Tri) -> int {
    cross2(pt(vs[t.0 as int]), pt(vs[t.1 as int]), pt(vs[t.2 as int]))
}

pub open spec fn areas_ok(vs: Seq<(i64, i64)>, ts: Seq<Tri>) -> bool {
    forall|t: int| 0 <= t < ts.len() ==> tri_area2(vs, #[trigger] ts[t]) > 0
}

/// Vertex `v` is a corner of some triangle of `ts`.
pub open spec fn has_triangle(ts: Seq<Tri>, v: int) -> bool {
    exists|t: int| 0 <= t < ts.len() && touches(#[trigger] ts[t], v)
}

/// Every vertex below `n` is a corner of some triangle.
pub open spec fn connected(n: int, ts: Seq<Tri>) -> bool {
    forall|v: int| 0 <= v < n ==> #[trigger] has_triangle(ts, v)
}

/// The indices, in increasing order, of the triangles among the first `upto`
/// that have `v` as a corner.
pub open spec fn adj_seq(ts: Seq<Tri>, v: int, upto: int) -> Seq<usize>
    decreases upto,
{
    if upto <= 0 {
        Seq::empty()
    } else {
        let prev = adj_seq(ts, v, upto - 1);
        if touches(ts[upto - 1], v) {
            prev.push((upto - 1) as usize)
        } else {
            prev
        }
    }
}

/// A rest-state triangulation with its derived per-triangle and per-vertex data.
///
/// Vertex `k` stands at lattice point `vertices[k]`; `areas[t]` is twice the
/// signed area of triangle `t` in lattice units, and `vertex_neighbor_tris[k]`
/// lists, in increasing order, the triangles that have `k` as a corner.
#[derive(Debug, Clone)]
pub struct TriangleMesh {
    pub vertices: Vec<(i64, i64)>,
    pub triangles: Vec<Tri>,
    pub areas: Vec<i64>,
    pub vertex_neighbor_tris: Vec<Vec<usize>>,
}

impl TriangleMesh {
    pub open spec fn wf(self) -> bool {
        let vs = self.vertices@;
        let ts = self.triangles@;
        &&& coords_ok(vs)
        &&& indices_ok(vs.len() as int, ts)
        &&& areas_ok(vs, ts)
        &&& connected(vs.len() as int, ts)
        &&& self.areas@.len() == ts.len()
        &&& forall|t: int| 0 <= t < ts.len() ==> #[trigger] self.areas@[t] == tri_area2(vs, ts[t])
        &&& self.vertex_neighbor_tris@.len() == vs.len()
        &&& forall|v: int|
            0 <= v < vs.len() ==> (#[trigger] self.vertex_neighbor_tris@[v])@ == adj_seq(ts, v, ts.len() as int)
    }
}

/// What `adj_seq` holds: exactly the triangles below `upto` that touch `v`.
pub proof fn lemma_adj_seq(ts: Seq<Tri>, v: int, upto: int)
    requires
        0 <= upto <= ts.len() <= usize::MAX,
    ensures
        forall|k: int|
            0 <= k < adj_seq(ts, v, upto).len() ==> {
                let t = #[trigger] adj_seq(ts, v, upto)[k];
                t < upto && touches(ts[t as int], v)
            },
        forall|t: int|
            0 <= t < upto && touches(#[trigger] ts[t], v) ==> adj_seq(ts, v, upto).contains(t as usize),
        adj_seq(ts, v, upto).len() <= upto,
    decreases upto,
{
    if upto > 0 {
        lemma_adj_seq(ts, v, upto - 1);
        let prev = adj_seq(ts, v, upto - 1);
        let cur = adj_seq(ts, v, upto);
        assert forall|k: int| 0 <= k < cur.len() implies {
            let t = #[trigger] cur[k];
            t < upto && touches(ts[t as int], v)
        } by {
            if k < prev.len() {
                assert(cur[k] == prev[k]);
            } else {
                assert(cur[k] as int == upto - 1);
            }
        }
        assert forall|t: int| 0 <= t < upto && touches(#[trigger] ts[t], v) implies adj_seq(ts, v, upto).contains(t as usize) by {
            if t < upto - 1 {
                let k = choose|k: int| 0 <= k < prev.len() && prev[k] == t as usize;
                if touches(ts[upto - 1], v) {
                    assert(adj_seq(ts, v, upto)[k] == t as usize);
                }
            } else {
                assert(adj_seq(ts, v, upto)[prev.len() as int] == t as usize);
            }
        }
    }
}

/// Twice the signed area of `(a, b, c)`, on bounded coordinates.
fn cross2_exec(a: (i64, i64), b: (i64, i64), c: (i64, i64)) -> (r: i64)
    requires
        coord_ok(a),
        coord_ok(b),
        coord_ok(c),
    ensures
        r == cross2(pt(a), pt(b), pt(c)),
{
    let dx1 = c.0 - b.0;
    let dy1 = a.1 - b.1;
    let dx2 = a.0 - b.0;
    let dy2 = c.1 - b.1;
    assert(-4398046511104 <= dx1 * dy1 <= 4398046511104) by (nonlinear_arith)
        requires
            -2097152 <= dx1 <= 2097152,
            -2097152 <= dy1 <= 2097152,
    ;
    assert(-4398046511104 <= dx2 * dy2 <= 4398046511104) by (nonlinear_arith)
        requires
            -2097152 <= dx2 <= 2097152,
            -2097152 <= dy2 <= 2097152,
    ;
    dx1 * dy1 - dx2 * dy2
}

/// A positive area leaves no room for a repeated corner.
pub proof fn lemma_positive_area_distinct(vs: Seq<(i64, i64)>, t: Tri)
    requires
        tri_area2(vs, t) > 0,
    ensures
        t.0 != t.1 && t.0 != t.2 && t.1 != t.2,
{
    let a = pt(vs[t.0 as int]);
    let b = pt(vs[t.1 as int]);
    let c = pt(vs[t.2 as int]);
    assert(cross2(a, a, c) == 0) by (nonlinear_arith);
    assert(cross2(a, b, a) == 0) by (nonlinear_arith);
    assert(cross2(a, b, b) == 0) by (nonlinear_arith);
}

impl TriangleMesh {
    /// Twice the signed rest area of each triangle.
    fn compute_triangle_areas(vertices: &Vec<(i64, i64)>, triangles: &Vec<Tri>) -> (r: Vec<i64>)
        requires
            coords_ok(vertices@),
            indices_ok(vertices@.len() as int, triangles@),
        ensures
            r@.len() == triangles@.len(),
            forall|t: int| 0 <= t < r@.len() ==> #[trigger] r@[t] == tri_area2(vertices@, triangles@[t]),
    {
        let mut areas: Vec<i64> = Vec::new();
        let mut e: usize = 0;
        while e < triangles.len()
            invariant
                coords_ok(vertices@),
                indices_ok(vertices@.len() as int, triangles@),
                e <= triangles@.len(),
                areas@.len() == e,
                forall|t: int| 0 <= t < e ==> #[trigger] areas@[t] == tri_area2(vertices@, triangles@[t]),
            decreases triangles@.len() - e,
        {
            let tri = triangles[e];
            assert(tri_ok(vertices@.len() as int, triangles@[e as int]));
            let a = vertices[tri.0];
            let b = vertices[tri.1];
            let c = vertices[tri.2];
            areas.push(cross2_exec(a, b, c));
            e += 1;
        }
        areas
    }

    /// For each of the `n` vertices, the triangles that have it as a corner,
    /// in increasing order.
    fn compute_vertex_triangle_adjacency(n: usize, triangles: &Vec<Tri>) -> (r: Vec<Vec<usize>>)
        requires
            indices_ok(n as int, triangles@),
            forall|t: int|
                0 <= t < triangles@.len() ==> {
                    let tri = #[trigger] triangles@[t];
                    tri.0 != tri.1 && tri.0 != tri.2 && tri.1 != tri.2
                },
        ensures
            r@.len() == n,
            forall|v: int| 0 <= v < n ==> (#[trigger] r@[v])@ == adj_seq(triangles@, v, triangles@.len() as int),
    {
        let mut adj: Vec<Vec<usize>> = Vec::new();
        let mut v: usize = 0;
        while v < n
            invariant
                v <= n,
                adj@.len() == v,
                forall|w: int| 0 <= w < v ==> (#[trigger] adj@[w])@ == Seq::<usize>::empty(),
            decreases n - v,
        {
            adj.push(Vec::new());
            v += 1;
        }
        let mut e: usize = 0;
        while e < triangles.len()
            invariant
                indices_ok(n as int, triangles@),
                forall|t: int|
                    0 <= t < triangles@.len() ==> {
                        let tri = #[trigger] triangles@[t];
                        tri.0 != tri.1 && tri.0 != tri.2 && tri.1 != tri.2
                    },
                e <= triangles@.len(),
                adj@.len() == n,
                forall|w: int| 0 <= w < n ==> (#[trigger] adj@[w])@ == adj_seq(triangles@, w, e as int),
            decreases triangles@.len() - e,
        {
            let tri = triangles[e];
            assert(tri_ok(n as int, triangles@[e as int]));
            let ghost before = adj@;
            adj[tri.0].push(e);
            adj[tri.1].push(e);
            adj[tri.2].push(e);
            assert forall|w: int| 0 <= w < n implies (#[trigger] adj@[w])@ == adj_seq(triangles@, w, e + 1) by {
                if w == tri.0 || w == tri.1 || w == tri.2 {
                    assert(adj@[w]@ == before[w]@.push(e));
                } else {
                    assert(adj@[w] == before[w]);
                }
            }
            e += 1;
        }
        adj
    }

    /// Builds a mesh from lattice vertices and counter-clockwise triangles,
    /// deriving areas and adjacency.
    ///
    /// The checks run in this order and the first that fails names the error:
    /// coordinates within `COORD_LIMIT`, corner indices in range, positive
    /// areas, every vertex a corner of some triangle.
    pub fn from_parts(vertices: Vec<(i64, i64)>, triangles: Vec<Tri>) -> (r: Result<TriangleMesh, MeshError>)
        ensures
            r == Err::<TriangleMesh, MeshError>(MeshError::CoordinateOutOfRange) <==> !coords_ok(vertices@),
            r == Err::<TriangleMesh, MeshError>(MeshError::VertexOutOfRange) <==> coords_ok(vertices@)
                && !indices_ok(vertices@.len() as int, triangles@),
            r == Err::<TriangleMesh, MeshError>(MeshError::NonPositiveArea) <==> coords_ok(vertices@)
                && indices_ok(vertices@.len() as int, triangles@) && !areas_ok(vertices@, triangles@),
            r == Err::<TriangleMesh, MeshError>(MeshError::DisconnectedVertex) <==> coords_ok(vertices@)
                && indices_ok(vertices@.len() as int, triangles@) && areas_ok(vertices@, triangles@)
                && !connected(vertices@.len() as int, triangles@),
            r is Ok ==> {
                let m = r->Ok_0;
                &&& m.wf()
                &&& m.vertices@ == vertices@
                &&& m.triangles@ == triangles@
            },
    {
        let n = vertices.len();
        let mut v: usize = 0;
        while v < n
            invariant
                n == vertices@.len(),
                v <= n,
                forall|w: int| 0 <= w < v ==> coord_ok(#[trigger] vertices@[w]),
            decreases n - v,
        {
            if !(-COORD_LIMIT <= vertices[v].0 && vertices[v].0 <= COORD_LIMIT && -COORD_LIMIT <= vertices[v].1
                && vertices[v].1 <= COORD_LIMIT) {
                return Err(MeshError::CoordinateOutOfRange);
            }
            v += 1;
        }
        assert(coords_ok(vertices@));
        let mut e: usize = 0;
        while e < triangles.len()
            invariant
                coords_ok(vertices@),
                n == vertices@.len(),
                e <= triangles@.len(),
                forall|t: int| 0 <= t < e ==> tri_ok(n as int, #[trigger] triangles@[t]),
            decreases triangles@.len() - e,
        {
            let tri = triangles[e];
            if !(tri.0 < n && tri.1 < n && tri.2 < n) {
                assert(!tri_ok(n as int, triangles@[e as int]));
                return Err(MeshError::VertexOutOfRange);
            }
            e += 1;
        }
        assert(indices_ok(n as int, triangles@));
        let areas = Self::compute_triangle_areas(&vertices, &triangles);
        let mut e: usize = 0;
        while e < areas.len()
            invariant
                coords_ok(vertices@),
                indices_ok(n as int, triangles@),
                n == vertices@.len(),
                areas@.len() == triangles@.len(),
                forall|t: int| 0 <= t < areas@.len() ==> #[trigger] areas@[t] == tri_area2(vertices@, triangles@[t]),
                e <= areas@.len(),
                forall|t: int| 0 <= t < e ==> tri_area2(vertices@, #[trigger] triangles@[t]) > 0,
            decreases areas@.len() - e,
        {
            if areas[e] <= 0 {
                assert(areas@[e as int] == tri_area2(vertices@, triangles@[e as int]));
                return Err(MeshError::NonPositiveArea);
            }
            assert(areas@[e as int] == tri_area2(vertices@, triangles@[e as int]));
            e += 1;
        }
        assert(areas_ok(vertices@, triangles@));
        assert forall|t: int| 0 <= t < triangles@.len() implies {
            let tri = #[trigger] triangles@[t];
            tri.0 != tri.1 && tri.0 != tri.2 && tri.1 != tri.2
        } by {
            lemma_positive_area_distinct(vertices@, triangles@[t]);
        }
        let adj = Self::compute_vertex_triangle_adjacency(n, &triangles);
        let mut v: usize = 0;
        while v < n
            invariant
                coords_ok(vertices@),
                indices_ok(n as int, triangles@),
                areas_ok(vertices@, triangles@),
                areas@.len() == triangles@.len(),
                forall|t: int| 0 <= t < areas@.len() ==> #[trigger] areas@[t] == tri_area2(vertices@, triangles@[t]),
                n == vertices@.len(),
                adj@.len() == n,
                triangles@.len() <= usize::MAX,
                forall|w: int| 0 <= w < n ==> (#[trigger] adj@[w])@ == adj_seq(triangles@, w, triangles@.len() as int),
                v <= n,
                forall|w: int| 0 <= w < v ==> #[trigger] has_triangle(triangles@, w),
            decreases n - v,
        {
            proof {
                lemma_adj_seq(triangles@, v as int, triangles@.len() as int);
            }
            if adj[v].len() == 0 {
                assert(!has_triangle(triangles@, v as int)) by {
                    if has_triangle(triangles@, v as int) {
                        let t = choose|t: int| 0 <= t < triangles@.len() && touches(#[trigger] triangles@[t], v as int);
                        assert(adj@[v as int]@.contains(t as usize));
                    }
                }
                return Err(MeshError::DisconnectedVertex);
            }
            let ghost t0 = adj@[v as int]@[0] as int;
            assert(touches(triangles@[t0], v as int));
            v += 1;
        }
        Ok(TriangleMesh { vertices, triangles, areas, vertex_neighbor_tris: adj })
    }
}

/// Lattice point of vertex `k` of a beam with `w` by `h` cells: column
/// `k % (w + 1)`, row `k / (w + 1)`, each cell two units wide and high and
/// the whole grid centred at the origin.
pub open spec fn beam_vertex(w: int, h: int, k: int) -> (i64, i64) {
    ((2 * (k % (w + 1)) - w) as i64, (2 * (k / (w + 1)) - h) as i64)
}

/// The two triangles of cell `c` (column `c % w`, row `c / w`); the diagonal
/// alternates between neighbouring cells like the squares of a checkerboard.
pub open spec fn beam_cell(w: int, c: int) -> (Tri, Tri) {
    let i = c % w;
    let j = c / w;
    let k00 = (i + j * (w + 1)) as usize;
    let k01 = (i + 1 + j * (w + 1)) as usize;
    let k10 = (i + (j + 1) * (w + 1)) as usize;
    let k11 = (i + 1 + (j + 1) * (w + 1)) as usize;
    if (i + j) % 2 == 0 {
        ((k00, k01, k11), (k00, k11, k10))
    } else {
        ((k10, k00, k01), (k10, k01, k11))
    }
}

pub open spec fn beam_triangle(w: int, e: int) -> Tri {
    if e % 2 == 0 {
        beam_cell(w, e / 2).0
    } else {
        beam_cell(w, e / 2).1
    }
}

pub open spec fn beam_vertices(w: int, h: int) -> Seq<(i64, i64)> {
    Seq::new(((w + 1) * (h + 1)) as nat, |k: int| beam_vertex(w, h, k))
}

pub open spec fn beam_triangles(w: int, h: int) -> Seq<Tri> {
    Seq::new((2 * w * h) as nat, |e: int| beam_triangle(w, e))
}

/// Column and row of cell `c` of a grid `w` cells wide and `h` high.
proof fn lemma_cell_pos(w: int, h: int, c: int)
    requires
        0 < w,
        0 <= c < w * h,
    ensures
        0 <= c % w < w,
        0 <= c / w < h,
        c == c % w + (c / w) * w,
{
    lemma_fundamental_div_mod(c, w);
    let j = c / w;
    let i = c % w;
    lemma_mul_is_commutative(w, j);
    assert(j < h) by (nonlinear_arith)
        requires
            c == w * j + i,
            0 <= i < w,
            c < w * h,
            0 < w,
    ;
    assert(0 <= j) by (nonlinear_arith)
        requires
            c == w * j + i,
            i < w,
            0 <= c,
            0 < w,
    ;
}

/// The lattice point of the vertex in column `i` and row `j`.
proof fn lemma_beam_vertex_at(w: int, h: int, i: int, j: int)
    requires
        0 <= w <= COORD_LIMIT,
        0 <= h <= COORD_LIMIT,
        0 <= i <= w,
        0 <= j <= h,
    ensures
        pt(beam_vertex(w, h, i + j * (w + 1))) == (2 * i - w, 2 * j - h),
        0 <= i + j * (w + 1) < (w + 1) * (h + 1),
{
    lemma_fundamental_div_mod_converse(i + j * (w + 1), w + 1, j, i);
    assert(0 <= i + j * (w + 1) < (w + 1) * (h + 1)) by (nonlinear_arith)
        requires
            0 <= i <= w,
            0 <= j <= h,
    ;
}

/// Every triangle of the beam has corners in range and twice-area 4.
proof fn lemma_beam_triangle(w: int, h: int, e: int)
    requires
        0 < w <= COORD_LIMIT,
        0 < h <= COORD_LIMIT,
        0 <= e < 2 * w * h,
        (w + 1) * (h + 1) <= usize::MAX,
    ensures
        tri_ok((w + 1) * (h + 1), beam_triangle(w, e)),
        tri_area2(beam_vertices(w, h), beam_triangle(w, e)) == 4,
{
    let c = e / 2;
    assert(c < w * h) by (nonlinear_arith)
        requires
            c == e / 2,
            e < 2 * w * h,
            0 <= e,
    ;
    lemma_cell_pos(w, h, c);
    let i = c % w;
    let j = c / w;
    lemma_beam_vertex_at(w, h, i, j);
    lemma_beam_vertex_at(w, h, i + 1, j);
    lemma_beam_vertex_at(w, h, i, j + 1);
    lemma_beam_vertex_at(w, h, i + 1, j + 1);
    let vs = beam_vertices(w, h);
    let k00 = i + j * (w + 1);
    let k01 = i + 1 + j * (w + 1);
    let k10 = i + (j + 1) * (w + 1);
    let k11 = i + 1 + (j + 1) * (w + 1);
    let p00 = pt(vs[k00]);
    let p01 = pt(vs[k01]);
    let p10 = pt(vs[k10]);
    let p11 = pt(vs[k11]);
    assert(p00 == (2 * i - w, 2 * j - h));
    assert(p01 == (2 * i + 2 - w, 2 * j - h));
    assert(p10 == (2 * i - w, 2 * j + 2 - h));
    assert(p11 == (2 * i + 2 - w, 2 * j + 2 - h));
    lemma_unit_cell_areas(2 * i - w, 2 * j - h);
}

/// The four half-cells of a 2 by 2 lattice cell each have twice-area 4.
proof fn lemma_unit_cell_areas(x: int, y: int)
    ensures
        cross2((x, y), (x + 2, y), (x + 2, y + 2)) == 4,
        cross2((x, y), (x + 2, y + 2), (x, y + 2)) == 4,
        cross2((x, y + 2), (x, y), (x + 2, y)) == 4,
        cross2((x, y + 2), (x + 2, y), (x + 2, y + 2)) == 4,
{
    assert(((x + 2) - (x + 2)) * (y - y) - (x - (x + 2)) * ((y + 2) - y) == 4) by (nonlinear_arith);
    assert((x - (x + 2)) * (y - (y + 2)) - (x - (x + 2)) * ((y + 2) - (y + 2)) == 4) by (nonlinear_arith);
    assert(((x + 2) - x) * ((y + 2) - y) - (x - x) * (y - y) == 4) by (nonlinear_arith);
    assert(((x + 2) - (x + 2)) * ((y + 2) - y) - (x - (x + 2)) * ((y + 2) - y) == 4) by (nonlinear_arith);
}

/// A beam of `shape` cells stays within `COORD_LIMIT` and its vertex and
/// triangle counts fit in `usize`.
pub open spec fn beam_fits(shape: (usize, usize)) -> bool {
    &&& shape.0 <= COORD_LIMIT
    &&& shape.1 <= COORD_LIMIT
    &&& (shape.0 + 1) * (shape.1 + 1) <= usize::MAX
    &&& 2 * shape.0 * shape.1 <= usize::MAX
}

/// Each vertex of a beam with at least one cell is a corner of a triangle.
proof fn lemma_beam_connected(w: int, h: int)
    requires
        0 < w <= COORD_LIMIT,
        0 < h <= COORD_LIMIT,
        (w + 1) * (h + 1) <= usize::MAX,
    ensures
        connected((w + 1) * (h + 1), beam_triangles(w, h)),
{
    let ts = beam_triangles(w, h);
    assert forall|v: int| 0 <= v < (w + 1) * (h + 1) implies #[trigger] has_triangle(ts, v) by {
        lemma_fundamental_div_mod(v, w + 1);
        let i = v % (w + 1);
        let j = v / (w + 1);
        assert(0 <= j <= h) by (nonlinear_arith)
            requires
                v == (w + 1) * j + i,
                0 <= i < w + 1,
                0 <= v < (w + 1) * (h + 1),
        ;
        let ci = if i == w { w - 1 } else { i };
        let cj = if j == h { h - 1 } else { j };
        let c = ci + cj * w;
        assert(0 <= c < w * h) by (nonlinear_arith)
            requires
                0 <= ci < w,
                0 <= cj < h,
                c == ci + cj * w,
        ;
        lemma_fundamental_div_mod_converse(c, w, cj, ci);
        assert(v == i + j * (w + 1)) by (nonlinear_arith)
            requires
                v == (w + 1) * j + i,
        ;
        assert((ci + 1) + cj * (w + 1) == ci + cj * (w + 1) + 1);
        assert(ci + (cj + 1) * (w + 1) == ci + cj * (w + 1) + w + 1) by (nonlinear_arith);
        assert((ci + 1) + (cj + 1) * (w + 1) == ci + cj * (w + 1) + w + 2) by (nonlinear_arith);
        assert((2 * c) % 2 == 0 && (2 * c) / 2 == c);
        assert((2 * c + 1) % 2 == 1 && (2 * c + 1) / 2 == c);
        assert(2 * c + 1 < 2 * w * h) by (nonlinear_arith)
            requires
                c < w * h,
        ;
        lemma_beam_vertex_at(w, h, ci, cj);
        lemma_beam_vertex_at(w, h, ci + 1, cj + 1);
        if touches(ts[2 * c], v) {
        } else {
            assert(touches(ts[2 * c + 1], v));
        }
    }
}

impl TriangleMesh {
    /// Lattice vertices and triangles of a beam with `w` by `h` cells.
    fn make_beam_mesh(w: usize, h: usize) -> (r: (Vec<(i64, i64)>, Vec<Tri>))
        requires
            w <= COORD_LIMIT,
            h <= COORD_LIMIT,
            (w + 1) * (h + 1) <= usize::MAX,
            2 * w * h <= usize::MAX,
        ensures
            r.0@ == beam_vertices(w as int, h as int),
            r.1@ == beam_triangles(w as int, h as int),
    {
        let n = (w + 1) * (h + 1);
        let mut v: Vec<(i64, i64)> = Vec::new();
        let mut k: usize = 0;
        while k < n
            invariant
                w <= COORD_LIMIT,
                h <= COORD_LIMIT,
                n == (w + 1) * (h + 1),
                k <= n,
                v@.len() == k,
                forall|k2: int| 0 <= k2 < k ==> #[trigger] v@[k2] == beam_vertex(w as int, h as int, k2),
            decreases n - k,
        {
            let i = k % (w + 1);
            let j = k / (w + 1);
            proof {
                let ki = k as int;
                let wi = w as int;
                lemma_fundamental_div_mod(ki, wi + 1);
                let q = ki / (wi + 1);
                let r = ki % (wi + 1);
                assert(q <= h) by (nonlinear_arith)
                    requires
                        ki == (wi + 1) * q + r,
                        0 <= r,
                        ki < (wi + 1) * (h + 1),
                        wi >= 0,
                ;
            }
            v.push((2 * (i as i64) - (w as i64), 2 * (j as i64) - (h as i64)));
            k += 1;
        }
        assert(v@ == beam_vertices(w as int, h as int));
        assert(w * h <= usize::MAX && (w == 0 ==> w * h == 0)) by (nonlinear_arith)
            requires
                2 * w * h <= usize::MAX,
        ;
        let cells = w * h;
        let mut t: Vec<Tri> = Vec::new();
        let mut c: usize = 0;
        while c < cells
            invariant
                0 < w <= COORD_LIMIT || cells == 0,
                h <= COORD_LIMIT,
                (w + 1) * (h + 1) <= usize::MAX,
                cells == w * h,
                c <= cells,
                t@.len() == 2 * c,
                forall|e: int| 0 <= e < 2 * c ==> #[trigger] t@[e] == beam_triangle(w as int, e),
            decreases cells - c,
        {
            proof {
                lemma_cell_pos(w as int, h as int, c as int);
            }
            let i = c % w;
            let j = c / w;
            assert(i + 1 + (j + 1) * (w + 1) <= (w + 1) * (h + 1) && j * (w + 1) + w + 1 == (j + 1) * (w + 1))
                by (nonlinear_arith)
                requires
                    i < w,
                    j < h,
            ;
            let k00 = i + j * (w + 1);
            let k01 = i + 1 + j * (w + 1);
            let k10 = i + (j + 1) * (w + 1);
            let k11 = i + 1 + (j + 1) * (w + 1);
            if (i + j) % 2 == 0 {
                t.push((k00, k01, k11));
                t.push((k00, k11, k10));
            } else {
                t.push((k10, k00, k01));
                t.push((k10, k01, k11));
            }
            assert((2 * c as int) % 2 == 0 && (2 * c as int) / 2 == c);
            assert((2 * c as int + 1) % 2 == 1 && (2 * c as int + 1) / 2 == c);
            c += 1;
        }
        assert(2 * cells == 2 * w * h) by (nonlinear_arith)
            requires
                cells == w * h,
        ;
        assert(t@ =~= beam_triangles(w as int, h as int));
        (v, t)
    }

    /// A beam of `shape.0` by `shape.1` grid cells, vertex `i + j * (shape.0 + 1)`
    /// at lattice point `(2 * i - shape.0, 2 * j - shape.1)`, two
    /// counter-clockwise triangles per cell (triangles `2 * c` and `2 * c + 1`
    /// for cell `c`), diagonals alternating like a checkerboard.
    ///
    /// A beam of width `W` and height `H` has vertex `k` at physical position
    /// `(x * W / (2 * shape.0), y * H / (2 * shape.1))` for lattice point
    /// `(x, y)`; each triangle's rest area is `W * H / (2 * shape.0 * shape.1)`.
    ///
    /// Lattice coordinates are bounded by `COORD_LIMIT`, so a beam has at most
    /// `COORD_LIMIT` (1048576) cells along each side; a larger shape, or one whose
    /// vertex or triangle count does not fit in `usize`, gives
    /// `CoordinateOutOfRange`. An empty shape leaves vertices without triangles
    /// and gives `DisconnectedVertex`.
    pub fn new(shape: (usize, usize)) -> (r: Result<TriangleMesh, MeshError>)
        ensures
            r == Err::<TriangleMesh, MeshError>(MeshError::CoordinateOutOfRange) <==> !beam_fits(shape),
            r == Err::<TriangleMesh, MeshError>(MeshError::DisconnectedVertex) <==> beam_fits(shape) && (shape.0 == 0
                || shape.1 == 0),
            r is Ok <==> beam_fits(shape) && 0 < shape.0 && 0 < shape.1,
            r is Ok ==> {
                let m = r->Ok_0;
                &&& m.wf()
                &&& m.vertices@ == beam_vertices(shape.0 as int, shape.1 as int)
                &&& m.triangles@ == beam_triangles(shape.0 as int, shape.1 as int)
                &&& forall|t: int| 0 <= t < m.areas@.len() ==> #[trigger] m.areas@[t] == 4
            },
    {
        let (w, h) = shape;
        if w > COORD_LIMIT as usize || h > COORD_LIMIT as usize {
            return Err(MeshError::CoordinateOutOfRange);
        }
        match (w + 1).checked_mul(h + 1) {
            None => {
                return Err(MeshError::CoordinateOutOfRange);
            },
            Some(_) => {},
        }
        match w.checked_mul(h) {
            None => {
                assert(2 * w * h > usize::MAX) by (nonlinear_arith)
                    requires
                        w * h > usize::MAX,
                ;
                return Err(MeshError::CoordinateOutOfRange);
            },
            Some(c) => match c.checked_mul(2) {
                None => {
                    assert(2 * w * h == c * 2) by (nonlinear_arith)
                        requires
                            c == w * h,
                    ;
                    return Err(MeshError::CoordinateOutOfRange);
                },
                Some(_) => {
                    assert(2 * w * h == c * 2) by (nonlinear_arith)
                        requires
                            c == w * h,
                    ;
                },
            },
        }
        let (vertices, triangles) = Self::make_beam_mesh(w, h);
        proof {
            let vs = vertices@;
            let ts = triangles@;
            let wi = w as int;
            let hi = h as int;
            assert forall|k: int| 0 <= k < vs.len() implies coord_ok(#[trigger] vs[k]) by {
                lemma_fundamental_div_mod(k, wi + 1);
                assert(0 <= k / (wi + 1) <= hi) by (nonlinear_arith)
                    requires
                        k == (wi + 1) * (k / (wi + 1)) + k % (wi + 1),
                        0 <= k % (wi + 1) < wi + 1,
                        0 <= k < (wi + 1) * (hi + 1),
                ;
            }
            if w > 0 && h > 0 {
                assert forall|e: int| 0 <= e < ts.len() implies tri_ok(vs.len() as int, #[trigger] ts[e])
                    && tri_area2(vs, ts[e]) == 4 by {
                    lemma_beam_triangle(wi, hi, e);
                }
                assert(indices_ok(vs.len() as int, ts));
                assert(areas_ok(vs, ts));
                lemma_beam_connected(wi, hi);
                assert(coords_ok(vs));
                assert(connected(vs.len() as int, ts));
            } else {
                assert(ts.len() == 0) by (nonlinear_arith)
                    requires
                        ts.len() == 2 * wi * hi,
                        wi == 0 || hi == 0,
                ;
                assert(vs.len() >= 1) by (nonlinear_arith)
                    requires
                        vs.len() == (wi + 1) * (hi + 1),
                        wi >= 0,
                        hi >= 0,
                ;
                assert(!has_triangle(ts, 0));
            }
        }
        let r = Self::from_parts(vertices, triangles);
        proof {
            if r is Err {
                assert(r == Err::<TriangleMesh, MeshError>(r->Err_0));
            }
        }
        r
    }
}

} // verus!
