use vstd::prelude::*;

use crate::canvas::Image;
use crate::delaunay::{tri_edges, tri_faces, tri_points, Triangulation};
use crate::polygons::{spec_average, spec_rasterise, Polygon};
use crate::vertex::Vertex;

verus! {

/// Whether `poly` is exactly the mesh face derived from triangle `f` over
/// `img`: its three vertices in enumeration order, and the reduced colour
/// of the pixels the triangle covers.
pub open spec fn face_matches(poly: Polygon, f: (Vertex, Vertex, Vertex), img: Image) -> bool {
    poly.vertices@ == seq![f.0, f.1, f.2] && poly.colour == spec_average(
        spec_rasterise(seq![f.0, f.1, f.2]),
        img,
    )
}

/// Whether `cache` is exactly the face sequence derived from `faces` over
/// `img`: same length, and face for face the derived polygon. No stale,
/// missing or reordered entry can satisfy this.
pub open spec fn cache_matches(
    cache: Seq<Polygon>,
    faces: Seq<(Vertex, Vertex, Vertex)>,
    img: Image,
) -> bool {
    cache.len() == faces.len() && forall|i: int|
        0 <= i < faces.len() ==> face_matches(cache[i], #[trigger] faces[i], img)
}

/// The mosaic session core: the triangulation and the cache of coloured
/// faces derived from it. The cache is rebuilt in full after every
/// insertion, so it is always a pure function of the triangulation state
/// and the source image.
pub struct Mosaic {
    pub delaunay: Triangulation,
    pub polygon_cache: Vec<Polygon>,
}

impl Mosaic {
    pub fn new() -> (m: Mosaic)
        ensures
            tri_points(m.delaunay) == Set::<(i32, i32)>::empty(),
            tri_faces(m.delaunay) == Seq::<(Vertex, Vertex, Vertex)>::empty(),
            m.polygon_cache@ == Seq::<Polygon>::empty(),
            forall|img: Image| cache_matches(m.polygon_cache@, tri_faces(m.delaunay), img),
    {
        Mosaic { delaunay: Triangulation::new(), polygon_cache: Vec::new() }
    }

    /// Rebuilds the whole polygon cache from the current triangulation and
    /// the source image, discarding the previous batch wholesale.
    pub fn set_polygon_cache(&mut self, image: &Image)
        requires
            image.wf(),
        ensures
            final(self).delaunay == old(self).delaunay,
            cache_matches(final(self).polygon_cache@, tri_faces(final(self).delaunay), *image),
    {
        let faces = self.delaunay.triangles();
        let mut cache: Vec<Polygon> = Vec::new();
        let num: usize = faces.len();
        let mut i: usize = 0;
        while i < num
            invariant
                image.wf(),
                num == faces.len(),
                i <= num,
                cache.len() == i,
                forall|k: int| 0 <= k < i ==> face_matches(cache[k], #[trigger] faces@[k], *image),
            decreases num - i,
        {
            cache.push(Polygon::new(faces[i], image));
            i = i + 1;
        }
        self.polygon_cache = cache;
    }

    /// Inserts one point into the triangulation and synchronously rebuilds
    /// the cache, so no stale face survives the mutation. The coordinate
    /// bound is the triangulation's.
    pub fn insert_point(&mut self, vertex: Vertex, image: &Image)
        requires
            image.wf(),
            -crate::delaunay::COORD_LIMIT <= vertex.x <= crate::delaunay::COORD_LIMIT,
            -crate::delaunay::COORD_LIMIT <= vertex.y <= crate::delaunay::COORD_LIMIT,
        ensures
            tri_points(final(self).delaunay) == tri_points(old(self).delaunay).insert(
                (vertex.x, vertex.y),
            ),
            cache_matches(final(self).polygon_cache@, tri_faces(final(self).delaunay), *image),
    {
        self.delaunay.insert(vertex);
        self.set_polygon_cache(image);
    }

    /// A read-only snapshot of the current face cache, for the renderer
    /// and the exporter.
    pub fn polygons(&self) -> (cache: &Vec<Polygon>)
        ensures
            cache@ == self.polygon_cache@,
    {
        &self.polygon_cache
    }

    /// The triangulation's current edges, for edge rendering.
    pub fn edges(&self) -> (es: Vec<(Vertex, Vertex)>)
        ensures
            es@ == tri_edges(self.delaunay),
    {
        self.delaunay.edges()
    }
}

/// Rebuilding the mesh cache is deterministic, and rebuilding twice
/// without a mutation in between changes nothing: any two caches derived
/// from the same triangulation state over the same image agree face for
/// face, in vertices, colour and order.
pub proof fn lemma_rebuild_deterministic(
    c1: Seq<Polygon>,
    c2: Seq<Polygon>,
    faces: Seq<(Vertex, Vertex, Vertex)>,
    img: Image,
)
    requires
        cache_matches(c1, faces, img),
        cache_matches(c2, faces, img),
    ensures
        c1.len() == c2.len(),
        forall|i: int|
            0 <= i < c1.len() ==> (#[trigger] c1[i]).vertices@ == c2[i].vertices@ && c1[i].colour
                == c2[i].colour,
{
    assert forall|i: int|
        0 <= i < c1.len() implies (#[trigger] c1[i]).vertices@ == c2[i].vertices@ && c1[i].colour
        == c2[i].colour by {
        assert(face_matches(c1[i], faces[i], img));
        assert(face_matches(c2[i], faces[i], img));
    }
}

} // verus!
