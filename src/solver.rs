use crate::boundary::{is_region_set, region_named, BoundaryConditions, SimError};
use crate::cv::MedianCentroidControlVolume;
use crate::material::{rubber, rubber_name, Material};
use crate::mesh::{adj_seq, lemma_adj_seq, touches, tri_ok, Tri, TriangleMesh};
use vstd::prelude::*;
use vstd::string::StringSliceAdditionalSpecFns;

verus! {

/// The arithmetic the solver's kernel is written in. Callers supply it for
/// the number type they simulate with. Each operation's result is a function
/// of its operands alone, named by its `spec_` counterpart, so the solver's
/// contracts can state exactly which expression every stored value is.
/// An implementation defines each `spec_` method as the operation itself
/// and has the executable method call it, so the two always agree.
pub trait Real: Copy + Sized {
    spec fn spec_from_i128(n: i128) -> Self;

    spec fn spec_plus(self, o: Self) -> Self;

    spec fn spec_minus(self, o: Self) -> Self;

    spec fn spec_times(self, o: Self) -> Self;

    spec fn spec_over(self, o: Self) -> Self;

    fn from_i128(n: i128) -> (r: Self)
        ensures
            r == Self::spec_from_i128(n),
    ;

    fn plus(self, o: Self) -> (r: Self)
        ensures
            r == self.spec_plus(o),
    ;

    fn minus(self, o: Self) -> (r: Self)
        ensures
            r == self.spec_minus(o),
    ;

    fn times(self, o: Self) -> (r: Self)
        ensures
            r == self.spec_times(o),
    ;

    fn over(self, o: Self) -> (r: Self)
        ensures
            r == self.spec_over(o),
    ;
}

/// Symmetric 2-D Cauchy stress `(xx, xy, yy)`.
pub type Stress<T> = (T, T, T);

pub open spec fn zero<T: Real>() -> T {
    T::spec_from_i128(0)
}

/// Every index in `s` names one of `n` vertices, each at most once.
pub open spec fn vertex_set_ok(s: Seq<usize>, n: int) -> bool {
    &&& forall|i: int| 0 <= i < s.len() ==> #[trigger] s[i] < n
    &&& forall|i: int, j: int| 0 <= i < j < s.len() ==> s[i] != s[j]
}

/// Cauchy stress of a triangle with rest corners `r` and current corners `x`,
/// for shear modulus `mu` and bulk modulus `kappa`:
/// `sigma = mu/J (F F^T - I) + kappa (J - 1) I`, where `F` maps the rest edge
/// vectors `r1 - r0`, `r2 - r0` onto the current ones and `J = det F`.
pub open spec fn tri_stress<T: Real>(
    mu: T,
    kappa: T,
    r: ((T, T), (T, T), (T, T)),
    x: ((T, T), (T, T), (T, T)),
) -> Stress<T> {
    let one = T::spec_from_i128(1);
    let e1 = (r.1.0.spec_minus(r.0.0), r.1.1.spec_minus(r.0.1));
    let e2 = (r.2.0.spec_minus(r.0.0), r.2.1.spec_minus(r.0.1));
    let d1 = (x.1.0.spec_minus(x.0.0), x.1.1.spec_minus(x.0.1));
    let d2 = (x.2.0.spec_minus(x.0.0), x.2.1.spec_minus(x.0.1));
    let det = e1.0.spec_times(e2.1).spec_minus(e2.0.spec_times(e1.1));
    let f11 = d1.0.spec_times(e2.1).spec_minus(d2.0.spec_times(e1.1)).spec_over(det);
    let f12 = d2.0.spec_times(e1.0).spec_minus(d1.0.spec_times(e2.0)).spec_over(det);
    let f21 = d1.1.spec_times(e2.1).spec_minus(d2.1.spec_times(e1.1)).spec_over(det);
    let f22 = d2.1.spec_times(e1.0).spec_minus(d1.1.spec_times(e2.0)).spec_over(det);
    let j = f11.spec_times(f22).spec_minus(f12.spec_times(f21));
    let b11 = f11.spec_times(f11).spec_plus(f12.spec_times(f12));
    let b12 = f11.spec_times(f21).spec_plus(f12.spec_times(f22));
    let b22 = f21.spec_times(f21).spec_plus(f22.spec_times(f22));
    let shear = mu.spec_over(j);
    let volume = kappa.spec_times(j.spec_minus(one));
    (
        shear.spec_times(b11.spec_minus(one)).spec_plus(volume),
        shear.spec_times(b12),
        shear.spec_times(b22.spec_minus(one)).spec_plus(volume),
    )
}

/// The two corners of `tri` after `v`, counter-clockwise.
pub open spec fn others(tri: Tri, v: int) -> (usize, usize) {
    if tri.0 == v {
        (tri.1, tri.2)
    } else if tri.1 == v {
        (tri.2, tri.0)
    } else {
        (tri.0, tri.1)
    }
}

/// `f` plus the flux of stress `s` through the normal `(xc - xb) / 2` turned a
/// quarter turn clockwise.
pub open spec fn flux_add<T: Real>(f: (T, T), s: Stress<T>, xb: (T, T), xc: (T, T)) -> (T, T) {
    let two = T::spec_from_i128(2);
    let nx = xc.1.spec_minus(xb.1).spec_over(two);
    let ny = xb.0.spec_minus(xc.0).spec_over(two);
    (f.0.spec_plus(s.0.spec_times(nx)).spec_plus(s.1.spec_times(ny)), f.1.spec_plus(s.1.spec_times(nx)).spec_plus(
        s.2.spec_times(ny),
    ))
}

/// Determinism: two solvers in the same state are in the same state again
/// after each takes one step.
pub proof fn lemma_step_deterministic<T: Real>(a: CauchyFVM<T>, b: CauchyFVM<T>, a2: CauchyFVM<T>, b2: CauchyFVM<T>)
    requires
        a.wf(),
        a.same_state(b),
        a.stepped(a2),
        b.stepped(b2),
    ensures
        a2.same_state(b2),
{
    let n = a.vertices@.len();
    assert forall|v: int| 0 <= v < n implies a.next_velocity(v) == b.next_velocity(v) && a.next_vertex(v)
        == b.next_vertex(v) by {
        lemma_internal_force_same(a, b, v, a.mesh.vertex_neighbor_tris@[v]@.len() as int);
    }
    assert(a2.velocities@ =~= b2.velocities@);
    assert(a2.vertices@ =~= b2.vertices@);
}

proof fn lemma_internal_force_same<T: Real>(a: CauchyFVM<T>, b: CauchyFVM<T>, v: int, k: int)
    requires
        a.same_state(b),
    ensures
        a.internal_force(v, k) == b.internal_force(v, k),
    decreases k,
{
    if k > 0 {
        lemma_internal_force_same(a, b, v, k - 1);
        let e = a.mesh.vertex_neighbor_tris@[v]@[k - 1] as int;
        assert(a.stress_at(e) == b.stress_at(e));
    }
}

/// Explicit finite-volume solver for the Cauchy momentum equation on a
/// triangle mesh.
///
/// Vertex `k` rests at `(x * scale.0, y * scale.1)` for lattice point `(x, y)`
/// of the mesh. Stress follows the compressible neo-Hookean law with
/// strain energy `mu/2 (tr(F^T F) - 2) - mu ln J + kappa/2 (J - 1)^2`, whose
/// Cauchy stress is `sigma = mu/J (F F^T - I) + kappa (J - 1) I`. The traction
/// force is added, as a total nodal force, to every vertex of the traction set.
/// A vertex's lumped mass is its control-volume rest area times the density.
pub struct CauchyFVM<T> {
    pub mesh: TriangleMesh,
    pub cv: MedianCentroidControlVolume,
    pub material: Material,
    pub boundary: BoundaryConditions,
    pub scale: (T, T),
    pub rest: Vec<(T, T)>,
    pub vertices: Vec<(T, T)>,
    pub velocities: Vec<(T, T)>,
    pub masses: Vec<T>,
    pub traction_force: (T, T),
    pub dt: T,
    pub t: T,
    pub steps: u64,
}

impl<T: Real> CauchyFVM<T> {
    pub open spec fn wf(self) -> bool {
        let n = self.mesh.vertices@.len();
        &&& self.mesh.wf()
        &&& self.cv.wf_for(self.mesh)
        &&& self.rest@.len() == n
        &&& self.vertices@.len() == n
        &&& self.velocities@.len() == n
        &&& self.masses@.len() == n
        &&& vertex_set_ok(self.boundary.immovable@, n as int)
        &&& vertex_set_ok(self.boundary.traction@, n as int)
    }

    /// Rest position of a vertex at lattice point `p`.
    pub open spec fn rest_point(self, p: (i64, i64)) -> (T, T) {
        (T::spec_from_i128(p.0 as i128).spec_times(self.scale.0), T::spec_from_i128(p.1 as i128).spec_times(self.scale.1))
    }

    /// Density times the physical area of one unit of control-volume measure
    /// (twice the area in lattice coordinates scaled by 6).
    pub open spec fn mass_per_unit(self) -> T {
        T::spec_from_i128(self.material.density as i128).spec_times(self.scale.0).spec_times(self.scale.1).spec_over(
            T::spec_from_i128(72),
        )
    }

    /// Stress of triangle `e` in the current configuration.
    pub open spec fn stress_at(self, e: int) -> Stress<T> {
        let tri = self.mesh.triangles@[e];
        tri_stress(
            T::spec_from_i128(self.material.shear_modulus as i128),
            T::spec_from_i128(self.material.bulk_modulus as i128),
            (self.rest@[tri.0 as int], self.rest@[tri.1 as int], self.rest@[tri.2 as int]),
            (self.vertices@[tri.0 as int], self.vertices@[tri.1 as int], self.vertices@[tri.2 as int]),
        )
    }

    /// Stress flux into `v` from the first `k` of its triangles.
    pub open spec fn internal_force(self, v: int, k: int) -> (T, T)
        decreases k,
    {
        if k <= 0 {
            (zero(), zero())
        } else {
            let e = self.mesh.vertex_neighbor_tris@[v]@[k - 1] as int;
            let bc = others(self.mesh.triangles@[e], v);
            flux_add(
                self.internal_force(v, k - 1),
                self.stress_at(e),
                self.vertices@[bc.0 as int],
                self.vertices@[bc.1 as int],
            )
        }
    }

    /// Net force on `v`: the stress flux through its control volume's
    /// boundary, plus the traction force if `v` is in the traction set.
    pub open spec fn force(self, v: int) -> (T, T) {
        let f = self.internal_force(v, self.mesh.vertex_neighbor_tris@[v]@.len() as int);
        if self.boundary.traction@.contains(v as usize) {
            (f.0.spec_plus(self.traction_force.0), f.1.spec_plus(self.traction_force.1))
        } else {
            f
        }
    }

    /// Velocity of `v` after one step: zero on the immovable set, else the
    /// old velocity plus `force / mass * dt`.
    pub open spec fn next_velocity(self, v: int) -> (T, T) {
        if self.boundary.immovable@.contains(v as usize) {
            (zero(), zero())
        } else {
            let f = self.force(v);
            let m = self.masses@[v];
            let u = self.velocities@[v];
            (u.0.spec_plus(f.0.spec_over(m).spec_times(self.dt)), u.1.spec_plus(f.1.spec_over(m).spec_times(self.dt)))
        }
    }

    /// Position of `v` after one step: unchanged on the immovable set, else
    /// moved by the new velocity times `dt` (symplectic Euler).
    pub open spec fn next_vertex(self, v: int) -> (T, T) {
        if self.boundary.immovable@.contains(v as usize) {
            self.vertices@[v]
        } else {
            let u = self.next_velocity(v);
            let x = self.vertices@[v];
            (x.0.spec_plus(u.0.spec_times(self.dt)), x.1.spec_plus(u.1.spec_times(self.dt)))
        }
    }

    /// `next` is `self` advanced by one step: time by `dt`, every velocity and
    /// position as `next_velocity` and `next_vertex` say, all else unchanged.
    pub open spec fn stepped(self, next: Self) -> bool {
        &&& next.steps == self.steps + 1
        &&& next.t == self.t.spec_plus(self.dt)
        &&& next.dt == self.dt
        &&& next.mesh == self.mesh
        &&& next.cv == self.cv
        &&& next.material == self.material
        &&& next.scale == self.scale
        &&& next.boundary.immovable@ == self.boundary.immovable@
        &&& next.boundary.traction@ == self.boundary.traction@
        &&& next.traction_force == self.traction_force
        &&& next.rest@ == self.rest@
        &&& next.masses@ == self.masses@
        &&& next.velocities@.len() == self.velocities@.len()
        &&& next.vertices@.len() == self.vertices@.len()
        &&& forall|v: int| 0 <= v < self.vertices@.len() ==> #[trigger] next.velocities@[v] == self.next_velocity(v)
        &&& forall|v: int| 0 <= v < self.vertices@.len() ==> #[trigger] next.vertices@[v] == self.next_vertex(v)
    }

    /// `self` and `o` hold the same simulation state.
    pub open spec fn same_state(self, o: Self) -> bool {
        &&& self.same_but_boundary(o)
        &&& self.boundary.immovable@ == o.boundary.immovable@
        &&& self.boundary.traction@ == o.boundary.traction@
        &&& self.traction_force == o.traction_force
    }

    /// `self` and `o` agree in everything but the boundary sets and the traction force.
    pub open spec fn same_but_boundary(self, o: Self) -> bool {
        &&& self.mesh == o.mesh
        &&& self.cv == o.cv
        &&& self.material == o.material
        &&& self.scale == o.scale
        &&& self.rest@ == o.rest@
        &&& self.vertices@ == o.vertices@
        &&& self.velocities@ == o.velocities@
        &&& self.masses@ == o.masses@
        &&& self.dt == o.dt
        &&& self.t == o.t
        &&& self.steps == o.steps
    }

    /// A solver at rest on `mesh`, made of the material called `material_name`,
    /// stepping by `dt`: positions at the rest state, velocities zero, time zero,
    /// no boundary condition set and zero traction force.
    pub fn new(mesh: TriangleMesh, material_name: &str, scale: (T, T), dt: T) -> (r: Result<CauchyFVM<T>, SimError>)
        requires
            mesh.wf(),
        ensures
            material_name.spec_bytes() != rubber_name() ==> r == Err::<CauchyFVM<T>, SimError>(
                SimError::UnknownMaterial,
            ),
            material_name.spec_bytes() == rubber_name() ==> r is Ok,
            r is Ok ==> {
                let s = r->Ok_0;
                let n = mesh.vertices@.len();
                &&& s.wf()
                &&& s.mesh == mesh
                &&& s.material == rubber()
                &&& s.scale == scale
                &&& s.dt == dt
                &&& s.t == zero::<T>()
                &&& s.steps == 0
                &&& s.traction_force == (zero::<T>(), zero::<T>())
                &&& s.boundary.immovable@.len() == 0
                &&& s.boundary.traction@.len() == 0
                &&& s.vertices@ == s.rest@
                &&& forall|v: int| 0 <= v < n ==> #[trigger] s.rest@[v] == s.rest_point(mesh.vertices@[v])
                &&& forall|v: int| 0 <= v < n ==> #[trigger] s.velocities@[v] == (zero::<T>(), zero::<T>())
                &&& forall|v: int|
                    0 <= v < n ==> #[trigger] s.masses@[v] == T::spec_from_i128(s.cv.areas@[v]).spec_times(
                        s.mass_per_unit(),
                    )
            },
    {
        let material = match Material::from_name(material_name) {
            Ok(m) => m,
            Err(e) => {
                return Err(e);
            },
        };
        let cv = MedianCentroidControlVolume::new(&mesh);
        let n = mesh.vertices.len();
        let z = T::from_i128(0);
        let per_unit = T::from_i128(material.density as i128).times(scale.0).times(scale.1).over(T::from_i128(72));
        let mut rest: Vec<(T, T)> = Vec::new();
        let mut vertices: Vec<(T, T)> = Vec::new();
        let mut velocities: Vec<(T, T)> = Vec::new();
        let mut masses: Vec<T> = Vec::new();
        let mut v: usize = 0;
        while v < n
            invariant
                n == mesh.vertices@.len(),
                cv.wf_for(mesh),
                z == zero::<T>(),
                per_unit == T::spec_from_i128(material.density as i128).spec_times(scale.0).spec_times(
                    scale.1,
                ).spec_over(T::spec_from_i128(72)),
                v <= n,
                rest@.len() == v,
                vertices@ == rest@,
                velocities@.len() == v,
                masses@.len() == v,
                forall|w: int|
                    0 <= w < v ==> #[trigger] rest@[w] == (T::spec_from_i128(mesh.vertices@[w].0 as i128).spec_times(
                        scale.0,
                    ), T::spec_from_i128(mesh.vertices@[w].1 as i128).spec_times(scale.1)),
                forall|w: int| 0 <= w < v ==> #[trigger] velocities@[w] == (z, z),
                forall|w: int|
                    0 <= w < v ==> #[trigger] masses@[w] == T::spec_from_i128(cv.areas@[w]).spec_times(per_unit),
            decreases n - v,
        {
            let p = mesh.vertices[v];
            let x = (T::from_i128(p.0 as i128).times(scale.0), T::from_i128(p.1 as i128).times(scale.1));
            rest.push(x);
            vertices.push(x);
            velocities.push((z, z));
            masses.push(T::from_i128(cv.areas[v]).times(per_unit));
            v += 1;
        }
        Ok(CauchyFVM {
            mesh,
            cv,
            material,
            boundary: BoundaryConditions::new(),
            scale,
            rest,
            vertices,
            velocities,
            masses,
            traction_force: (z, z),
            dt,
            t: z,
            steps: 0,
        })
    }

    /// Cauchy stress of every triangle in the current configuration.
    fn stresses(&self) -> (r: Vec<Stress<T>>)
        requires
            self.wf(),
        ensures
            r@.len() == self.mesh.triangles@.len(),
            forall|e: int| 0 <= e < r@.len() ==> #[trigger] r@[e] == self.stress_at(e),
    {
        let m = self.mesh.triangles.len();
        let n = self.mesh.vertices.len();
        let mu = T::from_i128(self.material.shear_modulus as i128);
        let kappa = T::from_i128(self.material.bulk_modulus as i128);
        let one = T::from_i128(1);
        let mut out: Vec<Stress<T>> = Vec::new();
        let mut e: usize = 0;
        while e < m
            invariant
                self.wf(),
                m == self.mesh.triangles@.len(),
                n == self.mesh.vertices@.len(),
                mu == T::spec_from_i128(self.material.shear_modulus as i128),
                kappa == T::spec_from_i128(self.material.bulk_modulus as i128),
                one == T::spec_from_i128(1),
                e <= m,
                out@.len() == e,
                forall|k: int| 0 <= k < e ==> #[trigger] out@[k] == self.stress_at(k),
            decreases m - e,
        {
            let tri = self.mesh.triangles[e];
            assert(tri_ok(n as int, self.mesh.triangles@[e as int]));
            let r0 = self.rest[tri.0];
            let r1 = self.rest[tri.1];
            let r2 = self.rest[tri.2];
            let x0 = self.vertices[tri.0];
            let x1 = self.vertices[tri.1];
            let x2 = self.vertices[tri.2];
            // rest edge vectors e1, e2 and current edge vectors d1, d2
            let e1 = (r1.0.minus(r0.0), r1.1.minus(r0.1));
            let e2 = (r2.0.minus(r0.0), r2.1.minus(r0.1));
            let d1 = (x1.0.minus(x0.0), x1.1.minus(x0.1));
            let d2 = (x2.0.minus(x0.0), x2.1.minus(x0.1));
            let det = e1.0.times(e2.1).minus(e2.0.times(e1.1));
            // F = [d1 d2] [e1 e2]^-1
            let f11 = d1.0.times(e2.1).minus(d2.0.times(e1.1)).over(det);
            let f12 = d2.0.times(e1.0).minus(d1.0.times(e2.0)).over(det);
            let f21 = d1.1.times(e2.1).minus(d2.1.times(e1.1)).over(det);
            let f22 = d2.1.times(e1.0).minus(d1.1.times(e2.0)).over(det);
            let j = f11.times(f22).minus(f12.times(f21));
            let b11 = f11.times(f11).plus(f12.times(f12));
            let b12 = f11.times(f21).plus(f12.times(f22));
            let b22 = f21.times(f21).plus(f22.times(f22));
            let shear = mu.over(j);
            let volume = kappa.times(j.minus(one));
            out.push((
                shear.times(b11.minus(one)).plus(volume),
                shear.times(b12),
                shear.times(b22.minus(one)).plus(volume),
            ));
            e += 1;
        }
        out
    }

    /// Net force on every vertex (see `force`).
    ///
    /// The two control-volume segments that triangle `(v, b, c)` contributes
    /// to `v` run from the midpoint of `vb` through the centroid to the midpoint
    /// of `vc`; their normals times lengths add up to `(c - b) / 2` turned a
    /// quarter turn clockwise, which is what is multiplied by the stress here.
    fn forces(&self, stress: &Vec<Stress<T>>) -> (r: Vec<(T, T)>)
        requires
            self.wf(),
            stress@.len() == self.mesh.triangles@.len(),
            forall|e: int| 0 <= e < stress@.len() ==> #[trigger] stress@[e] == self.stress_at(e),
        ensures
            r@.len() == self.mesh.vertices@.len(),
            forall|v: int| 0 <= v < r@.len() ==> #[trigger] r@[v] == self.force(v),
    {
        let m = self.mesh.triangles.len();
        let n = self.mesh.vertices.len();
        let two = T::from_i128(2);
        let z = T::from_i128(0);
        let mut out: Vec<(T, T)> = Vec::new();
        let mut v: usize = 0;
        while v < n
            invariant
                self.wf(),
                stress@.len() == m,
                forall|e: int| 0 <= e < stress@.len() ==> #[trigger] stress@[e] == self.stress_at(e),
                m == self.mesh.triangles@.len(),
                n == self.mesh.vertices@.len(),
                two == T::spec_from_i128(2),
                z == zero::<T>(),
                v <= n,
                out@.len() == v,
                forall|w: int|
                    0 <= w < v ==> #[trigger] out@[w] == self.internal_force(
                        w,
                        self.mesh.vertex_neighbor_tris@[w]@.len() as int,
                    ),
            decreases n - v,
        {
            proof {
                lemma_adj_seq(self.mesh.triangles@, v as int, m as int);
            }
            let adj = &self.mesh.vertex_neighbor_tris[v];
            let mut f = (z, z);
            let mut k: usize = 0;
            while k < adj.len()
                invariant
                    self.wf(),
                    stress@.len() == m,
                    forall|e: int| 0 <= e < stress@.len() ==> #[trigger] stress@[e] == self.stress_at(e),
                    m == self.mesh.triangles@.len(),
                    v < n == self.mesh.vertices@.len(),
                    two == T::spec_from_i128(2),
                    adj@ == self.mesh.vertex_neighbor_tris@[v as int]@,
                    adj@ == adj_seq(self.mesh.triangles@, v as int, m as int),
                    forall|i: int|
                        0 <= i < adj@.len() ==> #[trigger] adj@[i] < m && touches(
                            self.mesh.triangles@[adj@[i] as int],
                            v as int,
                        ),
                    k <= adj@.len(),
                    f == self.internal_force(v as int, k as int),
                decreases adj@.len() - k,
            {
                let e = adj[k];
                let tri = self.mesh.triangles[e];
                assert(tri_ok(n as int, self.mesh.triangles@[e as int]));
                let (b, c) = if tri.0 == v {
                    (tri.1, tri.2)
                } else if tri.1 == v {
                    (tri.2, tri.0)
                } else {
                    (tri.0, tri.1)
                };
                let xb = self.vertices[b];
                let xc = self.vertices[c];
                let nx = xc.1.minus(xb.1).over(two);
                let ny = xb.0.minus(xc.0).over(two);
                let s = stress[e];
                f = (f.0.plus(s.0.times(nx)).plus(s.1.times(ny)), f.1.plus(s.1.times(nx)).plus(s.2.times(ny)));
                k += 1;
            }
            out.push(f);
            v += 1;
        }
        let traction = &self.boundary.traction;
        let mut i: usize = 0;
        while i < traction.len()
            invariant
                self.wf(),
                traction@ == self.boundary.traction@,
                n == self.mesh.vertices@.len(),
                out@.len() == n,
                i <= traction@.len(),
                forall|w: int|
                    0 <= w < n ==> #[trigger] out@[w] == {
                        let f = self.internal_force(w, self.mesh.vertex_neighbor_tris@[w]@.len() as int);
                        if traction@.subrange(0, i as int).contains(w as usize) {
                            (f.0.spec_plus(self.traction_force.0), f.1.spec_plus(self.traction_force.1))
                        } else {
                            f
                        }
                    },
            decreases traction@.len() - i,
        {
            let w = traction[i];
            assert(w < n);
            let ghost before = out@;
            let f = out[w];
            out[w] = (f.0.plus(self.traction_force.0), f.1.plus(self.traction_force.1));
            assert forall|u: int| 0 <= u < n implies #[trigger] out@[u] == {
                let f = self.internal_force(u, self.mesh.vertex_neighbor_tris@[u]@.len() as int);
                if traction@.subrange(0, i + 1).contains(u as usize) {
                    (f.0.spec_plus(self.traction_force.0), f.1.spec_plus(self.traction_force.1))
                } else {
                    f
                }
            } by {
                let lo = traction@.subrange(0, i as int);
                let hi = traction@.subrange(0, i + 1);
                assert(hi =~= lo.push(w));
                if u == w {
                    assert(!lo.contains(w)) by {
                        if lo.contains(w) {
                            let j = choose|j: int| 0 <= j < lo.len() && lo[j] == w;
                            assert(traction@[j] == traction@[i as int]);
                        }
                    }
                    assert(hi[i as int] == w);
                    assert(hi.contains(w));
                    assert(before[u] == self.internal_force(u, self.mesh.vertex_neighbor_tris@[u]@.len() as int));
                } else {
                    assert(out@[u] == before[u]);
                    assert(hi.contains(u as usize) ==> lo.contains(u as usize)) by {
                        if hi.contains(u as usize) {
                            let j = choose|j: int| 0 <= j < hi.len() && hi[j] == u as usize;
                            assert(j < i);
                            assert(lo[j] == u as usize);
                        }
                    }
                    assert(lo.contains(u as usize) ==> hi.contains(u as usize)) by {
                        if lo.contains(u as usize) {
                            let j = choose|j: int| 0 <= j < lo.len() && lo[j] == u as usize;
                            assert(hi[j] == u as usize);
                        }
                    }
                }
            }
            i += 1;
        }
        assert(traction@.subrange(0, traction@.len() as int) =~= traction@);
        out
    }

    /// One explicit step: stress, nodal forces, then symplectic Euler on every
    /// vertex outside the immovable set; immovable vertices keep their
    /// position and get zero velocity. Time advances by `dt`.
    pub fn update(&mut self)
        requires
            old(self).wf(),
            old(self).steps < u64::MAX,
        ensures
            final(self).wf(),
            old(self).stepped(*final(self)),
    {
        let n = self.mesh.vertices.len();
        let stress = self.stresses();
        let force = self.forces(&stress);
        let mut fixed: Vec<bool> = Vec::new();
        let mut v: usize = 0;
        while v < n
            invariant
                v <= n,
                fixed@.len() == v,
                forall|w: int| 0 <= w < v ==> !#[trigger] fixed@[w],
            decreases n - v,
        {
            fixed.push(false);
            v += 1;
        }
        let immovable = &self.boundary.immovable;
        let mut i: usize = 0;
        while i < immovable.len()
            invariant
                self.wf(),
                immovable@ == self.boundary.immovable@,
                n == self.mesh.vertices@.len(),
                fixed@.len() == n,
                i <= immovable@.len(),
                forall|w: int| 0 <= w < n ==> #[trigger] fixed@[w] == immovable@.subrange(0, i as int).contains(w as usize),
            decreases immovable@.len() - i,
        {
            let w = immovable[i];
            assert(w < n);
            fixed[w] = true;
            proof {
                let lo = immovable@.subrange(0, i as int);
                let hi = immovable@.subrange(0, i + 1);
                assert(hi =~= lo.push(w));
                assert forall|u: int| 0 <= u < n implies #[trigger] fixed@[u] == hi.contains(u as usize) by {
                    if u != w {
                        assert(hi.contains(u as usize) ==> lo.contains(u as usize)) by {
                            if hi.contains(u as usize) {
                                let j = choose|j: int| 0 <= j < hi.len() && hi[j] == u as usize;
                                assert(j < i);
                                assert(lo[j] == u as usize);
                            }
                        }
                        assert(lo.contains(u as usize) ==> hi.contains(u as usize)) by {
                            if lo.contains(u as usize) {
                                let j = choose|j: int| 0 <= j < lo.len() && lo[j] == u as usize;
                                assert(hi[j] == u as usize);
                            }
                        }
                    } else {
                        assert(hi[i as int] == w);
                    }
                }
            }
            i += 1;
        }
        assert(immovable@.subrange(0, immovable@.len() as int) =~= immovable@);
        let dt = self.dt;
        let z = T::from_i128(0);
        let mut v: usize = 0;
        while v < n
            invariant
                self.wf(),
                n == self.mesh.vertices@.len(),
                fixed@.len() == n,
                force@.len() == n,
                forall|w: int| 0 <= w < n ==> #[trigger] force@[w] == old(self).force(w),
                forall|w: int| 0 <= w < n ==> #[trigger] fixed@[w] == old(self).boundary.immovable@.contains(w as usize),
                v <= n,
                z == zero::<T>(),
                forall|w: int| 0 <= w < v ==> #[trigger] self.velocities@[w] == old(self).next_velocity(w),
                forall|w: int| 0 <= w < v ==> #[trigger] self.vertices@[w] == old(self).next_vertex(w),
                forall|w: int| v <= w < n ==> #[trigger] self.velocities@[w] == old(self).velocities@[w],
                forall|w: int| v <= w < n ==> #[trigger] self.vertices@[w] == old(self).vertices@[w],
                self.steps == old(self).steps,
                self.t == old(self).t,
                self.mesh == old(self).mesh,
                self.cv == old(self).cv,
                self.material == old(self).material,
                self.scale == old(self).scale,
                self.boundary.immovable@ == old(self).boundary.immovable@,
                self.boundary.traction@ == old(self).boundary.traction@,
                self.traction_force == old(self).traction_force,
                self.rest@ == old(self).rest@,
                self.masses@ == old(self).masses@,
                self.dt == old(self).dt,
                dt == self.dt,
            decreases n - v,
        {
            if fixed[v] {
                self.velocities[v] = (z, z);
            } else {
                let f = force[v];
                let mass = self.masses[v];
                let u = self.velocities[v];
                let u = (u.0.plus(f.0.over(mass).times(dt)), u.1.plus(f.1.over(mass).times(dt)));
                self.velocities[v] = u;
                let x = self.vertices[v];
                self.vertices[v] = (x.0.plus(u.0.times(dt)), x.1.plus(u.1.times(dt)));
            }
            v += 1;
        }
        self.t = self.t.plus(dt);
        self.steps = self.steps + 1;
    }

    /// Replaces the immovable (Dirichlet) set by the vertices of the region
    /// called `name`, taken at their rest positions. An unknown name changes
    /// nothing. Nothing else changes either way.
    pub fn set_immovable_boundary(&mut self, name: &str) -> (r: Result<(), SimError>)
        requires
            old(self).wf(),
        ensures
            final(self).wf(),
            final(self).same_but_boundary(*old(self)),
            final(self).traction_force == old(self).traction_force,
            final(self).boundary.traction@ == old(self).boundary.traction@,
            match region_named(name.spec_bytes()) {
                Some(reg) => r is Ok && is_region_set(final(self).boundary.immovable@, old(self).mesh.vertices@, reg),
                None => r == Err::<(), SimError>(SimError::UnknownRegion) && final(self).boundary.immovable@ == old(
                    self,
                ).boundary.immovable@,
            },
    {
        let r = self.boundary.set_immovable_boundary(&self.mesh.vertices, name);
        proof {
            let n = self.mesh.vertices@.len() as int;
            let s = self.boundary.immovable@;
            if r is Ok {
                let reg = region_named(name.spec_bytes())->Some_0;
                assert(is_region_set(s, self.mesh.vertices@, reg));
                assert(vertex_set_ok(s, n));
            }
        }
        r
    }

    /// Replaces the traction (Neumann) set by the vertices of the region
    /// called `name`, taken at their rest positions. An unknown name changes
    /// nothing. Nothing else changes either way.
    pub fn set_traction_boundary(&mut self, name: &str) -> (r: Result<(), SimError>)
        requires
            old(self).wf(),
        ensures
            final(self).wf(),
            final(self).same_but_boundary(*old(self)),
            final(self).traction_force == old(self).traction_force,
            final(self).boundary.immovable@ == old(self).boundary.immovable@,
            match region_named(name.spec_bytes()) {
                Some(reg) => r is Ok && is_region_set(final(self).boundary.traction@, old(self).mesh.vertices@, reg),
                None => r == Err::<(), SimError>(SimError::UnknownRegion) && final(self).boundary.traction@ == old(
                    self,
                ).boundary.traction@,
            },
    {
        let r = self.boundary.set_traction_boundary(&self.mesh.vertices, name);
        proof {
            let n = self.mesh.vertices@.len() as int;
            let s = self.boundary.traction@;
            if r is Ok {
                let reg = region_named(name.spec_bytes())->Some_0;
                assert(is_region_set(s, self.mesh.vertices@, reg));
                assert(vertex_set_ok(s, n));
            }
        }
        r
    }

    /// Sets the force applied, at every step, to each vertex of the traction
    /// set. Nothing else changes.
    pub fn set_traction_force(&mut self, force: (T, T))
        requires
            old(self).wf(),
        ensures
            final(self).wf(),
            final(self).traction_force == force,
            final(self).same_but_boundary(*old(self)),
            final(self).boundary.immovable@ == old(self).boundary.immovable@,
            final(self).boundary.traction@ == old(self).boundary.traction@,
    {
        self.traction_force = force;
    }
}

} // verus!
