use fvm_beam::{MedianCentroidControlVolume, MeshError, TriangleMesh};

fn beam() -> TriangleMesh {
    TriangleMesh::new((12, 4)).unwrap()
}

#[test]
fn beam_counts_and_areas() {
    let m = beam();
    assert_eq!(m.vertices.len(), 65);
    assert_eq!(m.triangles.len(), 96);
    // width 6, height 2: a lattice unit is 6 / 24 by 2 / 8
    let (sx, sy) = (6.0 / 24.0, 2.0 / 8.0);
    let mut total = 0.0;
    for &a in &m.areas {
        assert_eq!(a, 4);
        let area = a as f64 / 2.0 * sx * sy;
        assert!((area - 0.125).abs() < 1e-12);
        total += area;
    }
    assert!((total - 12.0).abs() < 1e-9);
}

#[test]
fn beam_vertices_centred_on_grid() {
    let m = beam();
    assert_eq!(m.vertices[0], (-12, -4));
    assert_eq!(m.vertices[12], (12, -4));
    assert_eq!(m.vertices[64], (12, 4));
    assert_eq!(m.vertices[1 + 2 * 13], (-10, 0));
}

#[test]
fn beam_checkerboard_diagonals() {
    let m = beam();
    // cell (0, 0): diagonal from its lower left to its upper right corner
    assert_eq!(m.triangles[0], (0, 1, 14));
    assert_eq!(m.triangles[1], (0, 14, 13));
    // cell (1, 0): the other diagonal
    assert_eq!(m.triangles[2], (14, 1, 2));
    assert_eq!(m.triangles[3], (14, 2, 15));
}

#[test]
fn beam_positive_areas_and_adjacency_for_many_shapes() {
    for i in 1..6usize {
        for j in 1..6usize {
            let m = TriangleMesh::new((i, j)).unwrap();
            assert_eq!(m.vertices.len(), (i + 1) * (j + 1));
            assert_eq!(m.triangles.len(), 2 * i * j);
            assert!(m.areas.iter().all(|&a| a > 0));
            assert!(m.vertex_neighbor_tris.iter().all(|l| !l.is_empty()));
            let total: usize = m.vertex_neighbor_tris.iter().map(|l| l.len()).sum();
            assert_eq!(total, 3 * m.triangles.len());
            for (t, tri) in m.triangles.iter().enumerate() {
                for v in [tri.0, tri.1, tri.2] {
                    assert!(m.vertex_neighbor_tris[v].contains(&t));
                }
            }
        }
    }
}

#[test]
fn beam_with_empty_shape_is_disconnected() {
    assert_eq!(TriangleMesh::new((0, 4)).unwrap_err(), MeshError::DisconnectedVertex);
    assert_eq!(TriangleMesh::new((3, 0)).unwrap_err(), MeshError::DisconnectedVertex);
}

#[test]
fn beam_too_large_is_refused() {
    assert_eq!(TriangleMesh::new((1048577, 1)).unwrap_err(), MeshError::CoordinateOutOfRange);
}

#[test]
fn from_parts_errors() {
    let square = vec![(0, 0), (2, 0), (2, 2), (0, 2)];
    assert_eq!(
        TriangleMesh::from_parts(vec![(0, 0), (2, 0), (0, 2_000_000)], vec![(0, 1, 2)]).unwrap_err(),
        MeshError::CoordinateOutOfRange
    );
    assert_eq!(
        TriangleMesh::from_parts(square.clone(), vec![(0, 1, 4)]).unwrap_err(),
        MeshError::VertexOutOfRange
    );
    assert_eq!(
        TriangleMesh::from_parts(square.clone(), vec![(0, 2, 1), (0, 2, 3)]).unwrap_err(),
        MeshError::NonPositiveArea
    );
    assert_eq!(
        TriangleMesh::from_parts(square.clone(), vec![(0, 1, 2)]).unwrap_err(),
        MeshError::DisconnectedVertex
    );
    let m = TriangleMesh::from_parts(square, vec![(0, 1, 2), (0, 2, 3)]).unwrap();
    assert_eq!(m.areas, vec![4, 4]);
    assert_eq!(m.vertex_neighbor_tris, vec![vec![0, 1], vec![0], vec![0, 1], vec![1]]);
}

#[test]
fn control_volume_partition_on_beam() {
    let m = beam();
    let cv = MedianCentroidControlVolume::new(&m);
    let cv_total: i128 = cv.areas.iter().sum();
    let tri_total: i64 = m.areas.iter().sum();
    assert_eq!(cv_total, 36 * tri_total as i128);
    // relative to physical area: 36 * (2 * area) in lattice units
    let (sx, sy) = (0.25, 0.25);
    let physical = cv_total as f64 / 72.0 * sx * sy;
    assert!((physical - 12.0).abs() / 12.0 < 1e-9);
}

#[test]
fn control_volume_of_one_triangle() {
    let m = TriangleMesh::from_parts(vec![(0, 0), (6, 0), (0, 6)], vec![(0, 1, 2)]).unwrap();
    let cv = MedianCentroidControlVolume::new(&m);
    // each corner holds a third of the triangle: 12 * 36 = 432
    assert_eq!(m.areas[0], 36);
    assert_eq!(cv.areas, vec![432, 432, 432]);
    let s = &cv.segments[0];
    assert_eq!(s.len(), 2);
    // scaled by 6: midpoint of (0,0)-(6,0) is (18, 0), centroid (2, 2) is (12, 12)
    assert_eq!(s[0].start, (18, 0));
    assert_eq!(s[0].end, (12, 12));
    assert_eq!(s[0].normal, (12, 6));
    assert_eq!(s[1].start, (12, 12));
    assert_eq!(s[1].end, (0, 18));
    assert_eq!(s[1].normal, (6, 12));
    assert_eq!(s[0].triangle, 0);
}
