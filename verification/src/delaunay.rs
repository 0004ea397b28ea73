use vstd::prelude::*;

use crate::vertex::Vertex;

verus! {

/// The incremental Delaunay triangulation, owned by spade. The library
/// treats it as a collaborator: it only inserts points and enumerates the
/// triangles and edges the structure currently holds; everything derived
/// from those enumerations is computed and verified here.
/// The largest coordinate magnitude the triangulation accepts. spade's
/// geometric predicates widen their arithmetic on demand, but its point
/// location squares plain `i64` coordinate differences; within this bound
/// a squared difference is at most 2^60 and their sum fits `i64`.
pub const COORD_LIMIT: i32 = 536870912;

#[verifier::external_body]
pub struct Triangulation {
    // AdaptiveIntKernel widens its determinant arithmetic on demand, so
    // the insertion predicates cannot overflow (spade's plain integer
    // kernel computes them in the coordinate type). The locate structure
    // still squares i64 coordinate differences: hence COORD_LIMIT.
    inner: spade::delaunay::DelaunayTriangulation<
        [i64; 2],
        spade::kernels::AdaptiveIntKernel,
        spade::delaunay::DelaunayTreeLocate<[i64; 2]>,
    >,
}

/// The set of points inserted into the triangulation so far. Inserting a
/// point twice leaves the set unchanged, as spade overwrites the vertex.
pub uninterp spec fn tri_points(t: Triangulation) -> Set<(i32, i32)>;

/// The triangles the structure currently holds, each as its three
/// vertices, in the structure's own enumeration order.
pub uninterp spec fn tri_faces(t: Triangulation) -> Seq<(Vertex, Vertex, Vertex)>;

/// The undirected edges the structure currently holds, each as its two
/// endpoints, in the structure's own enumeration order.
pub uninterp spec fn tri_edges(t: Triangulation) -> Seq<(Vertex, Vertex)>;

impl Triangulation {
    /// Relies on spade's `DelaunayTriangulation::new`: a fresh
    /// triangulation has no vertices, hence no triangles and no edges.
    #[verifier::external_body]
    pub fn new() -> (t: Triangulation)
        ensures
            tri_points(t) == Set::<(i32, i32)>::empty(),
            tri_faces(t) == Seq::<(Vertex, Vertex, Vertex)>::empty(),
            tri_edges(t) == Seq::<(Vertex, Vertex)>::empty(),
    {
        Triangulation { inner: spade::delaunay::DelaunayTriangulation::with_tree_locate() }
    }

    /// Relies on spade's `DelaunayTriangulation::insert` over the
    /// adaptive integer kernel: the vertex set gains the point; a point
    /// already present is overwritten in place rather than duplicated.
    /// The coordinate bound keeps the distance squares of spade's point
    /// location and r-tree inside `i64`, where they would otherwise
    /// overflow and panic.
    #[verifier::external_body]
    pub fn insert(&mut self, vertex: Vertex)
        requires
            -COORD_LIMIT <= vertex.x <= COORD_LIMIT,
            -COORD_LIMIT <= vertex.y <= COORD_LIMIT,
        ensures
            tri_points(*final(self)) == tri_points(*old(self)).insert((vertex.x, vertex.y)),
    {
        self.inner.insert([vertex.x as i64, vertex.y as i64]);
    }

    /// Relies on spade's `DelaunayTriangulation::triangles`: the current
    /// triangles in the structure's deterministic enumeration order, each
    /// reported through its three vertex handles.
    #[verifier::external_body]
    pub fn triangles(&self) -> (faces: Vec<(Vertex, Vertex, Vertex)>)
        ensures
            faces@ == tri_faces(*self),
    {
        self.inner.triangles().map(|face| {
            let t = face.as_triangle();
            let (a, b, c) = (*t[0], *t[1], *t[2]);
            (Vertex { x: a[0] as i32, y: a[1] as i32 }, Vertex { x: b[0] as i32, y: b[1] as i32 },
            Vertex { x: c[0] as i32, y: c[1] as i32 })
        }).collect()
    }

    /// Relies on spade's `DelaunayTriangulation::edges`: the current
    /// undirected edges in the structure's deterministic enumeration
    /// order, each reported through its two endpoint handles.
    #[verifier::external_body]
    pub fn edges(&self) -> (es: Vec<(Vertex, Vertex)>)
        ensures
            es@ == tri_edges(*self),
    {
        self.inner.edges().map(|edge| {
            let (f, t) = (*edge.from(), *edge.to());
            (Vertex { x: f[0] as i32, y: f[1] as i32 }, Vertex {
                x: t[0] as i32,
                y: t[1] as i32,
            })
        }).collect()
    }
}

} // verus!
