//! Elastic deformation of a 2-D body on a triangle mesh, by an explicit
//! Cauchy-stress finite-volume method.
//!
//! - `mesh`: rest-state triangulations (a checkerboard beam, or any valid
//!   lattice triangulation) with exact twice-areas and vertex adjacency.
//! - `cv`: the median-centroid control volume of every vertex, with exact
//!   areas, and the law that they partition the mesh.
//! - `boundary`: named perimeter regions and the Dirichlet / Neumann sets.
//! - `material`: the material table.
//! - `solver`: the time stepper, generic over the number type it runs in.
//!
//! Rest geometry is held exactly on an integer lattice: a vertex stands at
//! integer coordinates, and its physical position is obtained by scaling each
//! axis (see `TriangleMesh::new`). Every rest area is therefore an exact integer.
mod boundary;
mod cv;
mod material;
mod mesh;
mod solver;

pub use boundary::{BoundaryConditions, Region, SimError};
pub use cv::{MedianCentroidControlVolume, Segment};
pub use material::Material;
pub use mesh::{MeshError, TriangleMesh};
pub use solver::{CauchyFVM, Real};
