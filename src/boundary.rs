use vstd::prelude::*;
use vstd::string::StringSliceAdditionalSpecFns;

verus! {

/// Failures of the solver's configuration calls.
#[derive(Debug, Clone, Copy, PartialEq, Eq, Structural)]
pub enum SimError {
    /// A boundary region name that names no region.
    UnknownRegion,
    /// A material name with no entry in the material table.
    UnknownMaterial,
}

/// A named part of the mesh's rest-state perimeter.
#[derive(Debug, Clone, Copy, PartialEq, Eq, Structural)]
pub enum Region {
    /// Vertices of least rest x.
    Left,
    /// Vertices of greatest rest x.
    Right,
    /// The union of `Left` and `Right`.
    LeftRight,
    /// Vertices of least rest y.
    Up,
    /// Vertices of greatest rest y.
    Down,
}

/// The bytes of each region's name: "left", "right", "leftright", "up", "down".
pub open spec fn region_name(r: Region) -> Seq<u8> {
    match r {
        Region::Left => seq![108u8, 101, 102, 116],
        Region::Right => seq![114u8, 105, 103, 104, 116],
        Region::LeftRight => seq![108u8, 101, 102, 116, 114, 105, 103, 104, 116],
        Region::Up => seq![117u8, 112],
        Region::Down => seq![100u8, 111, 119, 110],
    }
}

/// The region whose name is `b`, if any.
pub open spec fn region_named(b: Seq<u8>) -> Option<Region> {
    if b == region_name(Region::Left) {
        Some(Region::Left)
    } else if b == region_name(Region::Right) {
        Some(Region::Right)
    } else if b == region_name(Region::LeftRight) {
        Some(Region::LeftRight)
    } else if b == region_name(Region::Up) {
        Some(Region::Up)
    } else if b == region_name(Region::Down) {
        Some(Region::Down)
    } else {
        None
    }
}

pub open spec fn x_min(vs: Seq<(i64, i64)>, v: int) -> bool {
    forall|u: int| 0 <= u < vs.len() ==> vs[v].0 <= #[trigger] vs[u].0
}

pub open spec fn x_max(vs: Seq<(i64, i64)>, v: int) -> bool {
    forall|u: int| 0 <= u < vs.len() ==> vs[v].0 >= #[trigger] vs[u].0
}

pub open spec fn y_min(vs: Seq<(i64, i64)>, v: int) -> bool {
    forall|u: int| 0 <= u < vs.len() ==> vs[v].1 <= #[trigger] vs[u].1
}

pub open spec fn y_max(vs: Seq<(i64, i64)>, v: int) -> bool {
    forall|u: int| 0 <= u < vs.len() ==> vs[v].1 >= #[trigger] vs[u].1
}

/// Vertex `v` of the rest lattice `vs` lies in region `r`.
pub open spec fn in_region(vs: Seq<(i64, i64)>, r: Region, v: int) -> bool {
    match r {
        Region::Left => x_min(vs, v),
        Region::Right => x_max(vs, v),
        Region::LeftRight => x_min(vs, v) || x_max(vs, v),
        Region::Up => y_min(vs, v),
        Region::Down => y_max(vs, v),
    }
}

/// `s` lists, in strictly increasing order, exactly the vertices of `vs` in region `r`.
pub open spec fn is_region_set(s: Seq<usize>, vs: Seq<(i64, i64)>, r: Region) -> bool {
    &&& forall|i: int, j: int| 0 <= i < j < s.len() ==> s[i] < s[j]
    &&& forall|i: int| 0 <= i < s.len() ==> #[trigger] s[i] < vs.len() && in_region(vs, r, s[i] as int)
    &&& forall|v: int| 0 <= v < vs.len() && #[trigger] in_region(vs, r, v) ==> s.contains(v as usize)
}

fn bytes_equal(a: &[u8], b: &[u8]) -> (r: bool)
    ensures
        r == (a@ == b@),
{
    if a.len() != b.len() {
        return false;
    }
    let mut i: usize = 0;
    while i < a.len()
        invariant
            a@.len() == b@.len(),
            i <= a@.len(),
            forall|k: int| 0 <= k < i ==> a@[k] == b@[k],
        decreases a@.len() - i,
    {
        if a[i] != b[i] {
            return false;
        }
        i += 1;
    }
    assert(a@ =~= b@);
    true
}

impl Region {
    /// The region called `name`.
    pub fn from_name(name: &str) -> (r: Result<Region, SimError>)
        ensures
            r == match region_named(name.spec_bytes()) {
                Some(x) => Ok::<Region, SimError>(x),
                None => Err(SimError::UnknownRegion),
            },
    {
        let b = name.as_bytes();
        let left: [u8; 4] = [108, 101, 102, 116];
        let right: [u8; 5] = [114, 105, 103, 104, 116];
        let leftright: [u8; 9] = [108, 101, 102, 116, 114, 105, 103, 104, 116];
        let up: [u8; 2] = [117, 112];
        let down: [u8; 4] = [100, 111, 119, 110];
        assert(left@ =~= region_name(Region::Left));
        assert(right@ =~= region_name(Region::Right));
        assert(leftright@ =~= region_name(Region::LeftRight));
        assert(up@ =~= region_name(Region::Up));
        assert(down@ =~= region_name(Region::Down));
        if bytes_equal(b, left.as_slice()) {
            Ok(Region::Left)
        } else if bytes_equal(b, right.as_slice()) {
            Ok(Region::Right)
        } else if bytes_equal(b, leftright.as_slice()) {
            Ok(Region::LeftRight)
        } else if bytes_equal(b, up.as_slice()) {
            Ok(Region::Up)
        } else if bytes_equal(b, down.as_slice()) {
            Ok(Region::Down)
        } else {
            Err(SimError::UnknownRegion)
        }
    }
}

/// Least and greatest rest x and y: `(x_lo, x_hi, y_lo, y_hi)`, each attained.
fn extremes(vs: &Vec<(i64, i64)>) -> (r: (i64, i64, i64, i64))
    requires
        vs@.len() > 0,
    ensures
        forall|u: int|
            0 <= u < vs@.len() ==> r.0 <= (#[trigger] vs@[u]).0 <= r.1 && r.2 <= vs@[u].1 <= r.3,
        exists|k: int| 0 <= k < vs@.len() && vs@[k].0 == r.0,
        exists|k: int| 0 <= k < vs@.len() && vs@[k].0 == r.1,
        exists|k: int| 0 <= k < vs@.len() && vs@[k].1 == r.2,
        exists|k: int| 0 <= k < vs@.len() && vs@[k].1 == r.3,
{
    let mut r = (vs[0].0, vs[0].0, vs[0].1, vs[0].1);
    let mut i: usize = 1;
    while i < vs.len()
        invariant
            1 <= i <= vs@.len(),
            forall|u: int| 0 <= u < i ==> r.0 <= (#[trigger] vs@[u]).0 <= r.1 && r.2 <= vs@[u].1 <= r.3,
            exists|k: int| 0 <= k < i && vs@[k].0 == r.0,
            exists|k: int| 0 <= k < i && vs@[k].0 == r.1,
            exists|k: int| 0 <= k < i && vs@[k].1 == r.2,
            exists|k: int| 0 <= k < i && vs@[k].1 == r.3,
        decreases vs@.len() - i,
    {
        let p = vs[i];
        if p.0 < r.0 {
            r.0 = p.0;
        }
        if p.0 > r.1 {
            r.1 = p.0;
        }
        if p.1 < r.2 {
            r.2 = p.1;
        }
        if p.1 > r.3 {
            r.3 = p.1;
        }
        i += 1;
    }
    r
}

impl Region {
    /// The vertices of the rest lattice `vertices` that lie in this region, in
    /// increasing order.
    pub fn vertices(self, vertices: &Vec<(i64, i64)>) -> (r: Vec<usize>)
        ensures
            is_region_set(r@, vertices@, self),
    {
        let mut out: Vec<usize> = Vec::new();
        if vertices.len() == 0 {
            return out;
        }
        let e = extremes(vertices);
        let ghost vs = vertices@;
        let mut v: usize = 0;
        while v < vertices.len()
            invariant
                vs == vertices@,
                v <= vs.len(),
                forall|u: int| 0 <= u < vs.len() ==> e.0 <= (#[trigger] vs[u]).0 <= e.1 && e.2 <= vs[u].1 <= e.3,
                exists|k: int| 0 <= k < vs.len() && vs[k].0 == e.0,
                exists|k: int| 0 <= k < vs.len() && vs[k].0 == e.1,
                exists|k: int| 0 <= k < vs.len() && vs[k].1 == e.2,
                exists|k: int| 0 <= k < vs.len() && vs[k].1 == e.3,
                forall|i: int, j: int| 0 <= i < j < out@.len() ==> out@[i] < out@[j],
                forall|i: int| 0 <= i < out@.len() ==> #[trigger] out@[i] < v && in_region(vs, self, out@[i] as int),
                forall|w: int| 0 <= w < v && #[trigger] in_region(vs, self, w) ==> out@.contains(w as usize),
            decreases vs.len() - v,
        {
            let p = vertices[v];
            let inside = match self {
                Region::Left => p.0 == e.0,
                Region::Right => p.0 == e.1,
                Region::LeftRight => p.0 == e.0 || p.0 == e.1,
                Region::Up => p.1 == e.2,
                Region::Down => p.1 == e.3,
            };
            proof {
                let k0 = choose|k: int| 0 <= k < vs.len() && vs[k].0 == e.0;
                let k1 = choose|k: int| 0 <= k < vs.len() && vs[k].0 == e.1;
                let k2 = choose|k: int| 0 <= k < vs.len() && vs[k].1 == e.2;
                let k3 = choose|k: int| 0 <= k < vs.len() && vs[k].1 == e.3;
                assert(x_min(vs, v as int) <==> p.0 == e.0) by {
                    if x_min(vs, v as int) {
                        assert(vs[v as int].0 <= vs[k0].0);
                    }
                }
                assert(x_max(vs, v as int) <==> p.0 == e.1) by {
                    if x_max(vs, v as int) {
                        assert(vs[v as int].0 >= vs[k1].0);
                    }
                }
                assert(y_min(vs, v as int) <==> p.1 == e.2) by {
                    if y_min(vs, v as int) {
                        assert(vs[v as int].1 <= vs[k2].1);
                    }
                }
                assert(y_max(vs, v as int) <==> p.1 == e.3) by {
                    if y_max(vs, v as int) {
                        assert(vs[v as int].1 >= vs[k3].1);
                    }
                }
                assert(inside == in_region(vs, self, v as int));
            }
            let ghost before = out@;
            if inside {
                out.push(v);
                assert(out@[before.len() as int] == v);
            }
            assert forall|w: int| 0 <= w < v + 1 && #[trigger] in_region(vs, self, w) implies out@.contains(
                w as usize,
            ) by {
                if w < v {
                    let k = choose|k: int| 0 <= k < before.len() && before[k] == w as usize;
                    assert(out@[k] == w as usize);
                } else {
                    assert(out@[before.len() as int] == v);
                }
            }
            v += 1;
        }
        out
    }
}

/// Setting a region replaces the set rather than adding to it: once the
/// set holds the `Left` region, a vertex of greatest rest x that is not also
/// of least rest x is not in it, whatever the set held before.
pub proof fn lemma_region_set_replaces(s: Seq<usize>, vs: Seq<(i64, i64)>, v: usize)
    requires
        is_region_set(s, vs, Region::Left),
        v < vs.len(),
        x_max(vs, v as int),
        !x_min(vs, v as int),
    ensures
        !s.contains(v),
{
    if s.contains(v) {
        let i = choose|i: int| 0 <= i < s.len() && s[i] == v;
        assert(in_region(vs, Region::Left, s[i] as int));
    }
}

/// The Dirichlet ("immovable") and Neumann ("traction") vertex sets of a solver.
#[derive(Debug, Clone)]
pub struct BoundaryConditions {
    pub immovable: Vec<usize>,
    pub traction: Vec<usize>,
}

impl BoundaryConditions {
    /// No vertex fixed and none under traction.
    pub fn new() -> (r: BoundaryConditions)
        ensures
            r.immovable@.len() == 0,
            r.traction@.len() == 0,
    {
        BoundaryConditions { immovable: Vec::new(), traction: Vec::new() }
    }

    /// Replaces the Dirichlet set by the vertices of the region called `name`
    /// (evaluated on the rest lattice `vertices`); on an unknown name nothing changes.
    pub fn set_immovable_boundary(&mut self, vertices: &Vec<(i64, i64)>, name: &str) -> (r: Result<(), SimError>)
        ensures
            match region_named(name.spec_bytes()) {
                Some(reg) => {
                    &&& r is Ok
                    &&& is_region_set(final(self).immovable@, vertices@, reg)
                    &&& final(self).traction@ == old(self).traction@
                },
                None => {
                    &&& r == Err::<(), SimError>(SimError::UnknownRegion)
                    &&& final(self).immovable@ == old(self).immovable@
                    &&& final(self).traction@ == old(self).traction@
                },
            },
    {
        match Region::from_name(name) {
            Ok(reg) => {
                self.immovable = reg.vertices(vertices);
                Ok(())
            },
            Err(e) => Err(e),
        }
    }

    /// Replaces the Neumann set by the vertices of the region called `name`
    /// (evaluated on the rest lattice `vertices`); on an unknown name nothing changes.
    pub fn set_traction_boundary(&mut self, vertices: &Vec<(i64, i64)>, name: &str) -> (r: Result<(), SimError>)
        ensures
            match region_named(name.spec_bytes()) {
                Some(reg) => {
                    &&& r is Ok
                    &&& is_region_set(final(self).traction@, vertices@, reg)
                    &&& final(self).immovable@ == old(self).immovable@
                },
                None => {
                    &&& r == Err::<(), SimError>(SimError::UnknownRegion)
                    &&& final(self).immovable@ == old(self).immovable@
                    &&& final(self).traction@ == old(self).traction@
                },
            },
    {
        match Region::from_name(name) {
            Ok(reg) => {
                self.traction = reg.vertices(vertices);
                Ok(())
            },
            Err(e) => Err(e),
        }
    }
}

} // verus!
