use fvm_beam::{BoundaryConditions, CauchyFVM, Material, MeshError, Real, Region, SimError, TriangleMesh};

#[derive(Clone, Copy, Debug, PartialEq)]
struct F(f64);

impl Real for F {
    fn spec_from_i128(n: i128) -> Self {
        F(n as f64)
    }
    fn spec_plus(self, o: Self) -> Self {
        F(self.0 + o.0)
    }
    fn spec_minus(self, o: Self) -> Self {
        F(self.0 - o.0)
    }
    fn spec_times(self, o: Self) -> Self {
        F(self.0 * o.0)
    }
    fn spec_over(self, o: Self) -> Self {
        F(self.0 / o.0)
    }
    fn from_i128(n: i128) -> Self {
        Self::spec_from_i128(n)
    }
    fn plus(self, o: Self) -> Self {
        self.spec_plus(o)
    }
    fn minus(self, o: Self) -> Self {
        self.spec_minus(o)
    }
    fn times(self, o: Self) -> Self {
        self.spec_times(o)
    }
    fn over(self, o: Self) -> Self {
        self.spec_over(o)
    }
}

fn solver() -> CauchyFVM<F> {
    let mesh = TriangleMesh::new((12, 4)).unwrap();
    CauchyFVM::new(mesh, "rubber", (F(0.25), F(0.25)), F(6e-4)).unwrap()
}

fn column(i: usize) -> Vec<usize> {
    (0..5).map(|j| i + 13 * j).collect()
}

#[test]
fn region_names() {
    assert_eq!(Region::from_name("left"), Ok(Region::Left));
    assert_eq!(Region::from_name("right"), Ok(Region::Right));
    assert_eq!(Region::from_name("leftright"), Ok(Region::LeftRight));
    assert_eq!(Region::from_name("up"), Ok(Region::Up));
    assert_eq!(Region::from_name("down"), Ok(Region::Down));
    assert_eq!(Region::from_name("middle"), Err(SimError::UnknownRegion));
    assert_eq!(Region::from_name("Left"), Err(SimError::UnknownRegion));
}

#[test]
fn region_vertices_on_beam() {
    let m = TriangleMesh::new((12, 4)).unwrap();
    assert_eq!(Region::Left.vertices(&m.vertices), vec![0, 13, 26, 39, 52]);
    assert_eq!(Region::Right.vertices(&m.vertices), vec![12, 25, 38, 51, 64]);
    assert_eq!(Region::LeftRight.vertices(&m.vertices), vec![0, 12, 13, 25, 26, 38, 39, 51, 52, 64]);
    assert_eq!(Region::Up.vertices(&m.vertices), (0..13).collect::<Vec<usize>>());
    assert_eq!(Region::Down.vertices(&m.vertices), (52..65).collect::<Vec<usize>>());
}

#[test]
fn boundary_sets_replace() {
    let m = TriangleMesh::new((2, 1)).unwrap();
    let mut b = BoundaryConditions::new();
    assert_eq!(b.set_immovable_boundary(&m.vertices, "leftright"), Ok(()));
    assert_eq!(b.immovable, vec![0, 2, 3, 5]);
    assert_eq!(b.set_immovable_boundary(&m.vertices, "left"), Ok(()));
    assert_eq!(b.immovable, vec![0, 3]);
    assert_eq!(b.set_immovable_boundary(&m.vertices, "sideways"), Err(SimError::UnknownRegion));
    assert_eq!(b.immovable, vec![0, 3]);
    assert_eq!(b.set_traction_boundary(&m.vertices, "down"), Ok(()));
    assert_eq!(b.traction, vec![3, 4, 5]);
    assert_eq!(b.immovable, vec![0, 3]);
}

#[test]
fn material_table() {
    let r = Material::from_name("rubber").unwrap();
    assert_eq!(r.shear_modulus, 1000000);
    assert_eq!(r.bulk_modulus, 50000000);
    assert_eq!(r.density, 1100);
    assert_eq!(Material::from_name("steel"), Err(SimError::UnknownMaterial));
}

#[test]
fn unknown_material_is_its_own_error() {
    let mesh = TriangleMesh::new((12, 4)).unwrap();
    let r = CauchyFVM::new(mesh, "unobtainium", (F(0.25), F(0.25)), F(6e-4));
    assert_eq!(r.err(), Some(SimError::UnknownMaterial));
    let geometry: Result<TriangleMesh, MeshError> = TriangleMesh::new((0, 0));
    assert_eq!(geometry.unwrap_err(), MeshError::DisconnectedVertex);
}

#[test]
fn lumped_masses_sum_to_total_mass() {
    let s = solver();
    let total: f64 = s.masses.iter().map(|m| m.0).sum();
    // area 12 times density 1100
    assert!((total - 13200.0).abs() < 1e-6);
    // a corner vertex of the checkerboard beam touches one or two triangles
    assert!((s.masses[0].0 - 1100.0 * 0.125 * 2.0 / 3.0).abs() < 1e-9);
}

#[test]
fn rest_state_is_in_equilibrium() {
    let mut s = solver();
    let before = s.vertices.clone();
    s.update();
    assert_eq!(s.steps, 1);
    for (v, p) in s.vertices.iter().enumerate() {
        assert!((p.0 .0 - before[v].0 .0).abs() < 1e-12);
        assert!((p.1 .0 - before[v].1 .0).abs() < 1e-12);
        assert!(s.velocities[v].0 .0.abs() < 1e-9);
        assert!(s.velocities[v].1 .0.abs() < 1e-9);
    }
    assert!((s.t.0 - 6e-4).abs() < 1e-15);
}

#[test]
fn immovable_vertices_stay_put() {
    let mut s = solver();
    assert_eq!(s.set_immovable_boundary("leftright"), Ok(()));
    assert_eq!(s.set_traction_boundary("down"), Ok(()));
    s.set_traction_force((F(0.0), F(-5e3)));
    let fixed: Vec<usize> = column(0).into_iter().chain(column(12)).collect();
    let before = s.vertices.clone();
    for k in 1..=200u64 {
        let t0 = s.t.0;
        s.update();
        assert_eq!(s.steps, k);
        assert!((s.t.0 - t0 - 6e-4).abs() < 1e-12);
        for &v in &fixed {
            assert_eq!(s.vertices[v], before[v]);
        }
    }
    // the middle of the lower edge has moved down
    assert!(s.vertices[58].1 .0 < before[58].1 .0);
}

#[test]
fn immovable_set_is_replaced_not_extended() {
    let mut s = solver();
    assert_eq!(s.set_immovable_boundary("leftright"), Ok(()));
    assert_eq!(s.set_immovable_boundary("left"), Ok(()));
    assert_eq!(s.boundary.immovable, column(0));
    for v in column(12) {
        assert!(!s.boundary.immovable.contains(&v));
    }
    assert_eq!(s.set_immovable_boundary("nowhere"), Err(SimError::UnknownRegion));
    assert_eq!(s.boundary.immovable, column(0));
}

#[test]
fn identical_solvers_run_identically() {
    let mut a = solver();
    let mut b = solver();
    for s in [&mut a, &mut b] {
        s.set_immovable_boundary("left").unwrap();
        s.set_traction_boundary("right").unwrap();
        s.set_traction_force((F(0.0), F(1e4)));
        for _ in 0..100 {
            s.update();
        }
    }
    assert_eq!(a.vertices, b.vertices);
    assert_eq!(a.velocities, b.velocities);
    assert_eq!(a.t, b.t);
}

#[test]
fn traction_from_rest_moves_only_traction_vertices() {
    let mut s = solver();
    s.set_traction_boundary("up").unwrap();
    s.set_traction_force((F(0.0), F(-100.0)));
    let before = s.vertices.clone();
    s.update();
    for v in 0..65usize {
        let u = s.velocities[v];
        if v < 13 {
            let expected = -100.0 / s.masses[v].0 * 6e-4;
            assert!((u.1 .0 - expected).abs() < 1e-12);
            assert!(u.0 .0.abs() < 1e-12);
        } else {
            assert!(u.0 .0.abs() < 1e-9 && u.1 .0.abs() < 1e-9);
            assert!((s.vertices[v].1 .0 - before[v].1 .0).abs() < 1e-12);
        }
    }
}

#[test]
fn freed_right_side_moves_under_traction() {
    let mut s = solver();
    s.set_immovable_boundary("leftright").unwrap();
    s.set_immovable_boundary("left").unwrap();
    s.set_traction_boundary("right").unwrap();
    s.set_traction_force((F(0.0), F(1e4)));
    let before = s.vertices.clone();
    s.update();
    for v in column(12) {
        assert!(s.velocities[v].1 .0 > 0.0);
        assert!(s.vertices[v].1 .0 > before[v].1 .0);
    }
    for v in column(0) {
        assert_eq!(s.vertices[v], before[v]);
        assert_eq!(s.velocities[v], (F(0.0), F(0.0)));
    }
}
