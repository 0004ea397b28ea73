use vstd::prelude::*;

use crate::canvas::{Colour, Image};
use crate::vertex::Vertex;

verus! {

use vstd::arithmetic::div_mod::{lemma_div_is_ordered, lemma_div_by_multiple};

/// One face of the mesh: a polygon's vertices paired with the colour
/// derived from the image pixels the polygon covers.
#[derive(Clone, Debug, PartialEq, Eq)]
pub struct Polygon {
    pub vertices: Vec<Vertex>,
    pub colour: Colour,
}

/// Whether the edge from `ip` to `jp` spans the horizontal line at `y`:
/// one endpoint strictly above, the other at or below.
pub open spec fn straddles(ip: Vertex, jp: Vertex, y: int) -> bool {
    (ip.y > y) != (jp.y > y)
}

/// Whether the test point `(x, y)` lies strictly left of the point where
/// the line through `ip` and `jp` crosses height `y`. Stated without
/// division: the rational comparison is cross-multiplied by `jp.y - ip.y`,
/// with the inequality flipped when that factor is negative.
pub open spec fn ray_left(ip: Vertex, jp: Vertex, x: int, y: int) -> bool {
    if jp.y - ip.y > 0 {
        (x - ip.x) * (jp.y - ip.y) < (jp.x - ip.x) * (y - ip.y)
    } else {
        (x - ip.x) * (jp.y - ip.y) > (jp.x - ip.x) * (y - ip.y)
    }
}

/// Whether the edge from `ip` to `jp` flips the crossing-number parity for
/// the test point `(x, y)`.
pub open spec fn edge_toggles(ip: Vertex, jp: Vertex, x: int, y: int) -> bool {
    straddles(ip, jp, y) && ray_left(ip, jp, x, y)
}

/// The index of the edge partner that precedes vertex `i`, wrapping from
/// the first vertex back to the last.
pub open spec fn prev_index(len: int, i: int) -> int {
    if i == 0 {
        len - 1
    } else {
        i - 1
    }
}

/// The crossing-number parity after the first `i` edges of the polygon
/// have been examined.
pub open spec fn inside_upto(vs: Seq<Vertex>, x: int, y: int, i: int) -> bool
    decreases i,
{
    if i <= 0 {
        false
    } else {
        inside_upto(vs, x, y, i - 1) != edge_toggles(
            vs[i - 1],
            vs[prev_index(vs.len() as int, i - 1)],
            x,
            y,
        )
    }
}

/// The crossing-number point-in-polygon test: `(x, y)` is inside when an
/// odd number of polygon edges straddle its height and cross to its right.
pub open spec fn spec_contains(vs: Seq<Vertex>, x: int, y: int) -> bool {
    inside_upto(vs, x, y, vs.len() as int)
}

/// The least value among the first `i` entries of `s`.
pub open spec fn seq_min(s: Seq<int>, i: int) -> int
    decreases i,
{
    if i <= 1 {
        s[0]
    } else {
        let m = seq_min(s, i - 1);
        if s[i - 1] < m {
            s[i - 1]
        } else {
            m
        }
    }
}

/// The greatest value among the first `i` entries of `s`.
pub open spec fn seq_max(s: Seq<int>, i: int) -> int
    decreases i,
{
    if i <= 1 {
        s[0]
    } else {
        let m = seq_max(s, i - 1);
        if s[i - 1] > m {
            s[i - 1]
        } else {
            m
        }
    }
}

pub open spec fn xs(vs: Seq<Vertex>) -> Seq<int> {
    vs.map_values(|v: Vertex| v.x as int)
}

pub open spec fn ys(vs: Seq<Vertex>) -> Seq<int> {
    vs.map_values(|v: Vertex| v.y as int)
}

pub open spec fn min_x(vs: Seq<Vertex>) -> int {
    seq_min(xs(vs), vs.len() as int)
}

pub open spec fn max_x(vs: Seq<Vertex>) -> int {
    seq_max(xs(vs), vs.len() as int)
}

pub open spec fn min_y(vs: Seq<Vertex>) -> int {
    seq_min(ys(vs), vs.len() as int)
}

pub open spec fn max_y(vs: Seq<Vertex>) -> int {
    seq_max(ys(vs), vs.len() as int)
}

/// The pixels of one bounding-box column at abscissa `x`, walking `y`
/// upward from `y` to `y_hi` and keeping the points inside the polygon.
pub open spec fn col_seq(vs: Seq<Vertex>, x: int, y: int, y_hi: int) -> Seq<(i32, i32)>
    decreases y_hi - y,
{
    if y >= y_hi {
        Seq::empty()
    } else {
        let rest = col_seq(vs, x, y + 1, y_hi);
        if spec_contains(vs, x, y) {
            seq![(x as i32, y as i32)] + rest
        } else {
            rest
        }
    }
}

/// The pixels of the bounding-box columns from `x` to `x_hi`, each column
/// walked in full before the next.
pub open spec fn grid_seq(vs: Seq<Vertex>, x: int, x_hi: int, y_lo: int, y_hi: int) -> Seq<
    (i32, i32),
>
    decreases x_hi - x,
{
    if x >= x_hi {
        Seq::empty()
    } else {
        col_seq(vs, x, y_lo, y_hi) + grid_seq(vs, x + 1, x_hi, y_lo, y_hi)
    }
}

/// The full rasterization: every integer point of the axis-aligned
/// bounding box that the crossing-number test places inside the polygon,
/// in column-major order.
pub open spec fn spec_rasterise(vs: Seq<Vertex>) -> Seq<(i32, i32)> {
    grid_seq(vs, min_x(vs), max_x(vs), min_y(vs), max_y(vs))
}

/// How many of the listed pixel coordinates lie on the canvas.
pub open spec fn count_in(ps: Seq<(i32, i32)>, img: Image) -> int
    decreases ps.len(),
{
    if ps.len() == 0 {
        0
    } else {
        count_in(ps.drop_last(), img) + if img.in_bounds(
            ps.last().0 as int,
            ps.last().1 as int,
        ) {
            1int
        } else {
            0int
        }
    }
}

/// The sum of the red channel over the on-canvas pixels of `ps`.
pub open spec fn sum_r(ps: Seq<(i32, i32)>, img: Image) -> int
    decreases ps.len(),
{
    if ps.len() == 0 {
        0
    } else {
        sum_r(ps.drop_last(), img) + if img.in_bounds(ps.last().0 as int, ps.last().1 as int) {
            img.colour_at(ps.last().0 as int, ps.last().1 as int).r as int
        } else {
            0int
        }
    }
}

/// The sum of the green channel over the on-canvas pixels of `ps`.
pub open spec fn sum_g(ps: Seq<(i32, i32)>, img: Image) -> int
    decreases ps.len(),
{
    if ps.len() == 0 {
        0
    } else {
        sum_g(ps.drop_last(), img) + if img.in_bounds(ps.last().0 as int, ps.last().1 as int) {
            img.colour_at(ps.last().0 as int, ps.last().1 as int).g as int
        } else {
            0int
        }
    }
}

/// The sum of the blue channel over the on-canvas pixels of `ps`.
pub open spec fn sum_b(ps: Seq<(i32, i32)>, img: Image) -> int
    decreases ps.len(),
{
    if ps.len() == 0 {
        0
    } else {
        sum_b(ps.drop_last(), img) + if img.in_bounds(ps.last().0 as int, ps.last().1 as int) {
            img.colour_at(ps.last().0 as int, ps.last().1 as int).b as int
        } else {
            0int
        }
    }
}

/// The colour reduction policy: off-canvas coordinates are dropped, each
/// channel is averaged with truncating division over what remains, alpha
/// is forced opaque, and an empty remainder yields opaque black.
pub open spec fn spec_average(ps: Seq<(i32, i32)>, img: Image) -> Colour {
    let k = count_in(ps, img);
    if k == 0 {
        Colour { r: 0, g: 0, b: 0, a: 255 }
    } else {
        Colour {
            r: (sum_r(ps, img) / k) as u8,
            g: (sum_g(ps, img) / k) as u8,
            b: (sum_b(ps, img) / k) as u8,
            a: 255,
        }
    }
}

impl Polygon {
    /// The crossing-number point-in-polygon test over the closed polygon
    /// `vertices` (the edge list wraps last-to-first).
    pub fn contains(vertices: &Vec<Vertex>, x: i32, y: i32) -> (r: bool)
        requires
            vertices.len() >= 1,
        ensures
            r == spec_contains(vertices@, x as int, y as int),
    {
        let mut inside = false;
        let num_vertices: usize = vertices.len();
        let mut j: usize = num_vertices - 1;
        let mut i: usize = 0;
        while i < num_vertices
            invariant
                num_vertices == vertices.len(),
                1 <= num_vertices,
                i <= num_vertices,
                j == prev_index(num_vertices as int, i as int),
                j < num_vertices,
                inside == inside_upto(vertices@, x as int, y as int, i as int),
            decreases num_vertices - i,
        {
            let ip = vertices[i];
            let jp = vertices[j];
            if (ip.y > y) != (jp.y > y) {
                let dy: i128 = (jp.y as i128) - (ip.y as i128);
                let dx: i128 = (x as i128) - (ip.x as i128);
                let ex: i128 = (jp.x as i128) - (ip.x as i128);
                let ey: i128 = (y as i128) - (ip.y as i128);
                proof {
                    assert(dx * dy < 0x4_0000_0000_0000_0000i128 && dx * dy
                        > -0x4_0000_0000_0000_0000i128 && ex * ey < 0x4_0000_0000_0000_0000i128
                        && ex * ey > -0x4_0000_0000_0000_0000i128) by (nonlinear_arith)
                        requires
                            -0x1_0000_0000i128 <= dx <= 0x1_0000_0000i128,
                            -0x1_0000_0000i128 <= dy <= 0x1_0000_0000i128,
                            -0x1_0000_0000i128 <= ex <= 0x1_0000_0000i128,
                            -0x1_0000_0000i128 <= ey <= 0x1_0000_0000i128,
                    ;
                }
                let lhs: i128 = dx * dy;
                let rhs: i128 = ex * ey;
                let hit = if dy > 0 {
                    lhs < rhs
                } else {
                    lhs > rhs
                };
                if hit {
                    inside = !inside;
                }
            }
            j = i;
            i = i + 1;
        }
        inside
    }

    /// Enumerates the integer points of the polygon's axis-aligned bounding
    /// box and keeps those strictly inside, column by column. Near the
    /// canvas edge the result may leave the canvas: bounds filtering is the
    /// colour reducer's job, not the rasterizer's.
    pub fn rasterise(vertices: &Vec<Vertex>) -> (pix: Vec<(i32, i32)>)
        requires
            vertices.len() >= 1,
        ensures
            pix@ == spec_rasterise(vertices@),
    {
        let num: usize = vertices.len();
        let mut lo_x: i32 = vertices[0].x;
        let mut hi_x: i32 = vertices[0].x;
        let mut lo_y: i32 = vertices[0].y;
        let mut hi_y: i32 = vertices[0].y;
        let mut i: usize = 1;
        proof {
            assert(xs(vertices@)[0] == vertices@[0].x as int);
            assert(ys(vertices@)[0] == vertices@[0].y as int);
        }
        while i < num
            invariant
                num == vertices.len(),
                1 <= i <= num,
                lo_x == seq_min(xs(vertices@), i as int),
                hi_x == seq_max(xs(vertices@), i as int),
                lo_y == seq_min(ys(vertices@), i as int),
                hi_y == seq_max(ys(vertices@), i as int),
            decreases num - i,
        {
            let v = vertices[i];
            proof {
                assert(xs(vertices@)[i as int] == vertices@[i as int].x as int);
                assert(ys(vertices@)[i as int] == vertices@[i as int].y as int);
            }
            if v.x < lo_x {
                lo_x = v.x;
            }
            if v.x > hi_x {
                hi_x = v.x;
            }
            if v.y < lo_y {
                lo_y = v.y;
            }
            if v.y > hi_y {
                hi_y = v.y;
            }
            i = i + 1;
        }
        let mut pix: Vec<(i32, i32)> = Vec::new();
        let mut x: i32 = lo_x;
        while x < hi_x
            invariant
                vertices.len() >= 1,
                lo_x == min_x(vertices@),
                hi_x == max_x(vertices@),
                lo_y == min_y(vertices@),
                hi_y == max_y(vertices@),
                spec_rasterise(vertices@) == pix@ + grid_seq(
                    vertices@,
                    x as int,
                    hi_x as int,
                    lo_y as int,
                    hi_y as int,
                ),
            decreases hi_x - x,
        {
            let mut y: i32 = lo_y;
            proof {
                assert(pix@ + grid_seq(
                    vertices@,
                    x as int,
                    hi_x as int,
                    lo_y as int,
                    hi_y as int,
                ) =~= pix@ + col_seq(vertices@, x as int, lo_y as int, hi_y as int) + grid_seq(
                    vertices@,
                    x as int + 1,
                    hi_x as int,
                    lo_y as int,
                    hi_y as int,
                ));
            }
            while y < hi_y
                invariant
                    vertices.len() >= 1,
                    x < hi_x,
                    hi_x == max_x(vertices@),
                    spec_rasterise(vertices@) == pix@ + col_seq(
                        vertices@,
                        x as int,
                        y as int,
                        hi_y as int,
                    ) + grid_seq(
                        vertices@,
                        x as int + 1,
                        hi_x as int,
                        lo_y as int,
                        hi_y as int,
                    ),
                decreases hi_y - y,
            {
                let ghost old_pix = pix@;
                if Polygon::contains(vertices, x, y) {
                    pix.push((x, y));
                    proof {
                        assert(col_seq(vertices@, x as int, y as int, hi_y as int) == seq![
                            (x, y),
                        ] + col_seq(vertices@, x as int, y as int + 1, hi_y as int));
                        assert(old_pix + col_seq(vertices@, x as int, y as int, hi_y as int) =~= pix@
                            + col_seq(vertices@, x as int, y as int + 1, hi_y as int));
                    }
                } else {
                    proof {
                        assert(col_seq(vertices@, x as int, y as int, hi_y as int) == col_seq(
                            vertices@,
                            x as int,
                            y as int + 1,
                            hi_y as int,
                        ));
                    }
                }
                y = y + 1;
            }
            x = x + 1;
        }
        pix
    }

    /// Reduces a pixel set to one colour: drop off-canvas coordinates,
    /// average each channel over the rest with truncating division, force
    /// alpha opaque. An empty remainder yields opaque black by policy.
    pub fn average_colour(points: &Vec<(i32, i32)>, image: &Image) -> (c: Colour)
        requires
            image.wf(),
        ensures
            c == spec_average(points@, *image),
    {
        let num: usize = points.len();
        let mut rs: u128 = 0;
        let mut gs: u128 = 0;
        let mut bs: u128 = 0;
        let mut cnt: u128 = 0;
        let mut i: usize = 0;
        while i < num
            invariant
                num == points.len(),
                image.wf(),
                i <= num,
                cnt <= i,
                rs == sum_r(points@.take(i as int), *image),
                gs == sum_g(points@.take(i as int), *image),
                bs == sum_b(points@.take(i as int), *image),
                cnt == count_in(points@.take(i as int), *image),
                rs <= 255 * cnt,
                gs <= 255 * cnt,
                bs <= 255 * cnt,
            decreases num - i,
        {
            let ghost pre = points@.take(i as int);
            let ghost post = points@.take(i as int + 1);
            proof {
                assert(post.drop_last() =~= pre);
                assert(post.last() == points@[i as int]);
            }
            let p = points[i];
            if p.0 >= 0 && p.1 >= 0 && (p.0 as u32) < image.width && (p.1 as u32) < image.height {
                let px = image.get_pixel(p.0 as u32, p.1 as u32);
                rs = rs + px.r as u128;
                gs = gs + px.g as u128;
                bs = bs + px.b as u128;
                cnt = cnt + 1;
            }
            i = i + 1;
        }
        proof {
            assert(points@.take(num as int) =~= points@);
        }
        if cnt == 0 {
            Colour { r: 0, g: 0, b: 0, a: 255 }
        } else {
            proof {
                lemma_div_is_ordered(rs as int, 255 * cnt, cnt as int);
                lemma_div_is_ordered(gs as int, 255 * cnt, cnt as int);
                lemma_div_is_ordered(bs as int, 255 * cnt, cnt as int);
                lemma_div_by_multiple(255, cnt as int);
            }
            Colour { r: (rs / cnt) as u8, g: (gs / cnt) as u8, b: (bs / cnt) as u8, a: 255 }
        }
    }

    /// Derives one mesh face: the triangle's vertices paired with the
    /// reduced colour of the pixels it covers.
    pub fn new(face: (Vertex, Vertex, Vertex), image: &Image) -> (poly: Polygon)
        requires
            image.wf(),
        ensures
            poly.vertices@ == seq![face.0, face.1, face.2],
            poly.colour == spec_average(spec_rasterise(seq![face.0, face.1, face.2]), *image),
    {
        let mut vertices: Vec<Vertex> = Vec::new();
        vertices.push(face.0);
        vertices.push(face.1);
        vertices.push(face.2);
        proof {
            assert(vertices@ =~= seq![face.0, face.1, face.2]);
        }
        let colour = Self::average_colour(&Self::rasterise(&vertices), image);
        Polygon { vertices, colour }
    }
}

/// Twice the signed area of the triangle `a b c`; zero exactly when the
/// three vertices are collinear or coincident.
pub open spec fn cross(a: Vertex, b: Vertex, c: Vertex) -> int {
    (b.x - a.x) * (c.y - a.y) - (c.x - a.x) * (b.y - a.y)
}

proof fn lemma_ray_left_sym(a: Vertex, b: Vertex, x: int, y: int)
    requires
        a.y != b.y,
    ensures
        ray_left(a, b, x, y) == ray_left(b, a, x, y),
{
    assert((((x - a.x) * (b.y - a.y) < (b.x - a.x) * (y - a.y)) == ((x - b.x) * (a.y - b.y) > (a.x
        - b.x) * (y - b.y))) && (((x - a.x) * (b.y - a.y) > (b.x - a.x) * (y - a.y)) == ((x - b.x)
        * (a.y - b.y) < (a.x - b.x) * (y - b.y)))) by (nonlinear_arith);
}

proof fn lemma_toggle_collinear(s: Vertex, u: Vertex, w: Vertex, x: int, y: int)
    requires
        cross(s, u, w) == 0,
        u.y != s.y,
        w.y != s.y,
    ensures
        ray_left(s, u, x, y) == ray_left(s, w, x, y),
{
    let du = u.y - s.y;
    let dw = w.y - s.y;
    let au = (u.x - s.x) * (y - s.y) - (x - s.x) * du;
    let aw = (w.x - s.x) * (y - s.y) - (x - s.x) * dw;
    assert(au * dw == du * aw) by (nonlinear_arith)
        requires
            au == (u.x - s.x) * (y - s.y) - (x - s.x) * du,
            aw == (w.x - s.x) * (y - s.y) - (x - s.x) * dw,
            du == u.y - s.y,
            dw == w.y - s.y,
            (u.x - s.x) * (w.y - s.y) - (w.x - s.x) * (u.y - s.y) == 0,
    ;
    if du > 0 && dw > 0 {
        assert((au > 0) == (aw > 0)) by (nonlinear_arith)
            requires
                au * dw == du * aw,
                du > 0,
                dw > 0,
        ;
    } else if du > 0 && dw < 0 {
        assert((au > 0) == (aw < 0)) by (nonlinear_arith)
            requires
                au * dw == du * aw,
                du > 0,
                dw < 0,
        ;
    } else if du < 0 && dw > 0 {
        assert((au < 0) == (aw > 0)) by (nonlinear_arith)
            requires
                au * dw == du * aw,
                du < 0,
                dw > 0,
        ;
    } else {
        assert((au < 0) == (aw < 0)) by (nonlinear_arith)
            requires
                au * dw == du * aw,
                du < 0,
                dw < 0,
        ;
    }
}

/// For a zero-area triangle no test point ever ends up inside: every
/// horizontal line is straddled by an even number of edges, all crossing
/// it at the same abscissa, so the parity always returns to even.
pub proof fn lemma_degenerate_contains(v0: Vertex, v1: Vertex, v2: Vertex, x: int, y: int)
    requires
        cross(v0, v1, v2) == 0,
    ensures
        !spec_contains(seq![v0, v1, v2], x, y),
{
    let vs = seq![v0, v1, v2];
    let t0 = edge_toggles(v0, v2, x, y);
    let t1 = edge_toggles(v1, v0, x, y);
    let t2 = edge_toggles(v2, v1, x, y);
    assert(inside_upto(vs, x, y, 0) == false);
    assert(inside_upto(vs, x, y, 1) == (false != t0));
    assert(inside_upto(vs, x, y, 2) == (inside_upto(vs, x, y, 1) != t1));
    assert(inside_upto(vs, x, y, 3) == (inside_upto(vs, x, y, 2) != t2));
    let b0 = v0.y > y;
    let b1 = v1.y > y;
    let b2 = v2.y > y;
    if b0 == b1 && b1 == b2 {
        assert(!t0 && !t1 && !t2);
    } else if b0 == b1 {
        assert(!t1);
        lemma_ray_left_sym(v0, v2, x, y);
        assert(cross(v2, v0, v1) == cross(v0, v1, v2)) by (nonlinear_arith);
        lemma_toggle_collinear(v2, v0, v1, x, y);
        assert(t0 == t2);
    } else if b1 == b2 {
        assert(!t2);
        lemma_ray_left_sym(v1, v0, x, y);
        lemma_toggle_collinear(v0, v1, v2, x, y);
        assert(t0 == t1);
    } else {
        assert(b0 == b2);
        assert(!t0);
        lemma_ray_left_sym(v2, v1, x, y);
        assert(cross(v1, v0, v2) == -cross(v0, v1, v2)) by (nonlinear_arith);
        lemma_toggle_collinear(v1, v0, v2, x, y);
        assert(t1 == t2);
    }
}

proof fn lemma_col_seq_empty(vs: Seq<Vertex>, x: int, y: int, y_hi: int)
    requires
        forall|yy: int| !spec_contains(vs, x, yy),
    ensures
        col_seq(vs, x, y, y_hi) == Seq::<(i32, i32)>::empty(),
    decreases y_hi - y,
{
    if y < y_hi {
        lemma_col_seq_empty(vs, x, y + 1, y_hi);
    }
}

proof fn lemma_grid_seq_empty(vs: Seq<Vertex>, x: int, x_hi: int, y_lo: int, y_hi: int)
    requires
        forall|xx: int, yy: int| !spec_contains(vs, xx, yy),
    ensures
        grid_seq(vs, x, x_hi, y_lo, y_hi) == Seq::<(i32, i32)>::empty(),
    decreases x_hi - x,
{
    if x < x_hi {
        lemma_col_seq_empty(vs, x, y_lo, y_hi);
        lemma_grid_seq_empty(vs, x + 1, x_hi, y_lo, y_hi);
        assert(col_seq(vs, x, y_lo, y_hi) + grid_seq(vs, x + 1, x_hi, y_lo, y_hi) =~= Seq::<
            (i32, i32),
        >::empty());
    }
}

/// A triangle with zero area (vertices collinear or coincident)
/// rasterizes to the empty pixel set.
pub proof fn lemma_degenerate_rasterise_empty(v0: Vertex, v1: Vertex, v2: Vertex)
    requires
        cross(v0, v1, v2) == 0,
    ensures
        spec_rasterise(seq![v0, v1, v2]) == Seq::<(i32, i32)>::empty(),
{
    let vs = seq![v0, v1, v2];
    assert forall|xx: int, yy: int| !spec_contains(vs, xx, yy) by {
        lemma_degenerate_contains(v0, v1, v2, xx, yy);
    }
    lemma_grid_seq_empty(vs, min_x(vs), max_x(vs), min_y(vs), max_y(vs));
}

proof fn lemma_seq_min_ge(s: Seq<int>, i: int, lo: int)
    requires
        1 <= i <= s.len(),
        forall|k: int| 0 <= k < i ==> s[k] >= lo,
    ensures
        seq_min(s, i) >= lo,
    decreases i,
{
    if i > 1 {
        lemma_seq_min_ge(s, i - 1, lo);
    }
}

proof fn lemma_seq_max_le(s: Seq<int>, i: int, hi: int)
    requires
        1 <= i <= s.len(),
        forall|k: int| 0 <= k < i ==> s[k] <= hi,
    ensures
        seq_max(s, i) <= hi,
    decreases i,
{
    if i > 1 {
        lemma_seq_max_le(s, i - 1, hi);
    }
}

proof fn lemma_col_seq_bounds(vs: Seq<Vertex>, x: int, y: int, y_hi: int)
    requires
        i32::MIN <= y,
        y_hi <= i32::MAX,
    ensures
        forall|k: int|
            0 <= k < col_seq(vs, x, y, y_hi).len() ==> ((#[trigger] col_seq(vs, x, y, y_hi)[k]).0
                == x as i32 && y <= col_seq(vs, x, y, y_hi)[k].1 as int && (col_seq(
                vs,
                x,
                y,
                y_hi,
            )[k].1 as int) < y_hi),
    decreases y_hi - y,
{
    if y < y_hi {
        lemma_col_seq_bounds(vs, x, y + 1, y_hi);
        let cur = col_seq(vs, x, y, y_hi);
        let rest = col_seq(vs, x, y + 1, y_hi);
        assert forall|k: int| 0 <= k < cur.len() implies cur[k].0 == x as i32 && y <= cur[k].1 as int
            && (cur[k].1 as int) < y_hi by {
            if spec_contains(vs, x, y) {
                assert(cur == seq![(x as i32, y as i32)] + rest);
                if k == 0 {
                    assert(cur[k] == (x as i32, y as i32));
                } else {
                    assert(cur[k] == rest[k - 1]);
                }
            } else {
                assert(cur == rest);
            }
        }
    }
}

proof fn lemma_grid_seq_bounds(vs: Seq<Vertex>, x: int, x_hi: int, y_lo: int, y_hi: int)
    requires
        i32::MIN <= x,
        x_hi <= i32::MAX,
        i32::MIN <= y_lo,
        y_hi <= i32::MAX,
    ensures
        forall|k: int|
            0 <= k < grid_seq(vs, x, x_hi, y_lo, y_hi).len() ==> (x <= (#[trigger] grid_seq(
                vs,
                x,
                x_hi,
                y_lo,
                y_hi,
            )[k]).0 as int && (grid_seq(vs, x, x_hi, y_lo, y_hi)[k].0 as int) < x_hi && y_lo
                <= grid_seq(vs, x, x_hi, y_lo, y_hi)[k].1 as int && (grid_seq(
                vs,
                x,
                x_hi,
                y_lo,
                y_hi,
            )[k].1 as int) < y_hi),
    decreases x_hi - x,
{
    if x < x_hi {
        lemma_col_seq_bounds(vs, x, y_lo, y_hi);
        lemma_grid_seq_bounds(vs, x + 1, x_hi, y_lo, y_hi);
        let cur = grid_seq(vs, x, x_hi, y_lo, y_hi);
        let col = col_seq(vs, x, y_lo, y_hi);
        let rest = grid_seq(vs, x + 1, x_hi, y_lo, y_hi);
        assert forall|k: int| 0 <= k < cur.len() implies x <= cur[k].0 as int && (cur[k].0 as int)
            < x_hi && y_lo <= cur[k].1 as int && (cur[k].1 as int) < y_hi by {
            assert(cur == col + rest);
            if k < col.len() {
                assert(cur[k] == col[k]);
            } else {
                assert(cur[k] == rest[k - col.len()]);
            }
        }
    }
}

/// Every pixel of a polygon whose vertices all lie on the canvas (edges
/// included) is itself on the canvas.
pub proof fn lemma_rasterise_in_bounds(vs: Seq<Vertex>, img: Image)
    requires
        vs.len() >= 1,
        forall|k: int|
            0 <= k < vs.len() ==> 0 <= (#[trigger] vs[k]).x <= img.width && 0 <= vs[k].y
                <= img.height,
    ensures
        forall|k: int|
            0 <= k < spec_rasterise(vs).len() ==> img.in_bounds(
                (#[trigger] spec_rasterise(vs)[k]).0 as int,
                (spec_rasterise(vs)[k]).1 as int,
            ),
{
    assert forall|k: int| 0 <= k < vs.len() implies xs(vs)[k] >= 0 && xs(vs)[k] <= i32::MAX && ys(
        vs,
    )[k] >= 0 && ys(vs)[k] <= i32::MAX && xs(vs)[k] <= img.width && ys(vs)[k] <= img.height by {
        assert(xs(vs)[k] == vs[k].x as int);
        assert(ys(vs)[k] == vs[k].y as int);
    }
    lemma_seq_min_ge(xs(vs), vs.len() as int, 0);
    lemma_seq_max_le(xs(vs), vs.len() as int, img.width as int);
    lemma_seq_max_le(xs(vs), vs.len() as int, i32::MAX as int);
    lemma_seq_min_ge(ys(vs), vs.len() as int, 0);
    lemma_seq_max_le(ys(vs), vs.len() as int, img.height as int);
    lemma_seq_max_le(ys(vs), vs.len() as int, i32::MAX as int);
    lemma_grid_seq_bounds(vs, min_x(vs), max_x(vs), min_y(vs), max_y(vs));
}

proof fn lemma_uniform_sums(ps: Seq<(i32, i32)>, img: Image, c: Colour)
    requires
        forall|i: int|
            0 <= i < ps.len() && img.in_bounds((#[trigger] ps[i]).0 as int, ps[i].1 as int)
                ==> img.colour_at(ps[i].0 as int, ps[i].1 as int) == c,
    ensures
        sum_r(ps, img) == c.r * count_in(ps, img),
        sum_g(ps, img) == c.g * count_in(ps, img),
        sum_b(ps, img) == c.b * count_in(ps, img),
    decreases ps.len(),
{
    if ps.len() > 0 {
        let dl = ps.drop_last();
        assert(forall|i: int| 0 <= i < dl.len() ==> #[trigger] dl[i] == ps[i]);
        lemma_uniform_sums(dl, img, c);
        assert(ps.last() == ps[ps.len() - 1]);
        let k = count_in(dl, img);
        assert(c.r as int * (k + 1) == c.r as int * k + c.r as int) by (nonlinear_arith);
        assert(c.g as int * (k + 1) == c.g as int * k + c.g as int) by (nonlinear_arith);
        assert(c.b as int * (k + 1) == c.b as int * k + c.b as int) by (nonlinear_arith);
    }
}

/// Colour reduction over a non-empty set of identically coloured pixels
/// returns that colour's channels exactly, with alpha forced opaque:
/// truncating division introduces no drift on uniform input.
pub proof fn lemma_uniform_average(ps: Seq<(i32, i32)>, img: Image, c: Colour)
    requires
        count_in(ps, img) > 0,
        forall|i: int|
            0 <= i < ps.len() && img.in_bounds((#[trigger] ps[i]).0 as int, ps[i].1 as int)
                ==> img.colour_at(ps[i].0 as int, ps[i].1 as int) == c,
    ensures
        spec_average(ps, img) == (Colour { r: c.r, g: c.g, b: c.b, a: 255u8 }),
{
    lemma_uniform_sums(ps, img, c);
    lemma_div_by_multiple(c.r as int, count_in(ps, img));
    lemma_div_by_multiple(c.g as int, count_in(ps, img));
    lemma_div_by_multiple(c.b as int, count_in(ps, img));
}

/// Colour reduction over a pixel set with nothing on the canvas returns
/// opaque black by policy, never an error.
pub proof fn lemma_empty_average(ps: Seq<(i32, i32)>, img: Image)
    requires
        count_in(ps, img) == 0,
    ensures
        spec_average(ps, img) == (Colour { r: 0u8, g: 0u8, b: 0u8, a: 255u8 }),
{
}

} // verus!
