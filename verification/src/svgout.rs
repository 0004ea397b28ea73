use vstd::prelude::*;

use svg::node::element::Polygon as PolygonElement;
use svg::node::element::SVG as SvgElement;

use crate::canvas::Colour;
use crate::mosaic::Mosaic;
use crate::polygons::Polygon;
use crate::vertex::Vertex;

verus! {

use vstd::string::StringExecFns;

/// The decimal digit character for a value below ten.
pub open spec fn digit_char(d: int) -> char {
    if d == 0 {
        '0'
    } else if d == 1 {
        '1'
    } else if d == 2 {
        '2'
    } else if d == 3 {
        '3'
    } else if d == 4 {
        '4'
    } else if d == 5 {
        '5'
    } else if d == 6 {
        '6'
    } else if d == 7 {
        '7'
    } else if d == 8 {
        '8'
    } else {
        '9'
    }
}

/// The decimal digit string of a non-negative number, most significant
/// digit first, without leading zeroes (except for zero itself).
pub open spec fn dec_str(n: nat) -> Seq<char>
    decreases n,
{
    if n < 10 {
        seq![digit_char(n as int)]
    } else {
        dec_str(n / 10) + seq![digit_char((n % 10) as int)]
    }
}

/// The decimal string of a signed number: a minus sign, if negative,
/// followed by the digits of its magnitude.
pub open spec fn int_str(n: int) -> Seq<char> {
    if n < 0 {
        seq!['-'] + dec_str((-n) as nat)
    } else {
        dec_str(n as nat)
    }
}

/// One vertex as it appears in an SVG points list: `x,y` and a trailing
/// space.
pub open spec fn vertex_str(v: Vertex) -> Seq<char> {
    int_str(v.x as int) + seq![','] + int_str(v.y as int) + seq![' ']
}

/// The first `i` vertices as an SVG points list.
pub open spec fn points_str(vs: Seq<Vertex>, i: int) -> Seq<char>
    decreases i,
{
    if i <= 0 {
        Seq::empty()
    } else {
        points_str(vs, i - 1) + vertex_str(vs[i - 1])
    }
}

/// A colour's RGB channels as an SVG fill value: `rgb(r, g, b)`, alpha
/// dropped.
pub open spec fn fill_str(c: Colour) -> Seq<char> {
    seq!['r', 'g', 'b', '('] + dec_str(c.r as nat) + seq![',', ' '] + dec_str(c.g as nat) + seq![
        ',',
        ' ',
    ] + dec_str(c.b as nat) + seq![')']
}

fn digit_string(d: u8) -> (s: String)
    requires
        d < 10,
    ensures
        s@ == seq![digit_char(d as int)],
{
    if d == 0 {
        proof {
            reveal_strlit("0");
            assert("0"@ =~= seq![digit_char(0)]);
        }
        "0".to_owned()
    } else if d == 1 {
        proof {
            reveal_strlit("1");
            assert("1"@ =~= seq![digit_char(1)]);
        }
        "1".to_owned()
    } else if d == 2 {
        proof {
            reveal_strlit("2");
            assert("2"@ =~= seq![digit_char(2)]);
        }
        "2".to_owned()
    } else if d == 3 {
        proof {
            reveal_strlit("3");
            assert("3"@ =~= seq![digit_char(3)]);
        }
        "3".to_owned()
    } else if d == 4 {
        proof {
            reveal_strlit("4");
            assert("4"@ =~= seq![digit_char(4)]);
        }
        "4".to_owned()
    } else if d == 5 {
        proof {
            reveal_strlit("5");
            assert("5"@ =~= seq![digit_char(5)]);
        }
        "5".to_owned()
    } else if d == 6 {
        proof {
            reveal_strlit("6");
            assert("6"@ =~= seq![digit_char(6)]);
        }
        "6".to_owned()
    } else if d == 7 {
        proof {
            reveal_strlit("7");
            assert("7"@ =~= seq![digit_char(7)]);
        }
        "7".to_owned()
    } else if d == 8 {
        proof {
            reveal_strlit("8");
            assert("8"@ =~= seq![digit_char(8)]);
        }
        "8".to_owned()
    } else {
        proof {
            reveal_strlit("9");
            assert("9"@ =~= seq![digit_char(9)]);
        }
        "9".to_owned()
    }
}

/// The decimal digits of `n`, built most significant first, mirroring the
/// recursive shape of `dec_str`.
fn dec_string(n: u64) -> (s: String)
    ensures
        s@ == dec_str(n as nat),
    decreases n,
{
    if n < 10 {
        digit_string(n as u8)
    } else {
        let mut s = dec_string(n / 10);
        let d = digit_string((n % 10) as u8);
        s.append(d.as_str());
        s
    }
}

/// The decimal string of a signed coordinate.
fn int_string(n: i32) -> (s: String)
    ensures
        s@ == int_str(n as int),
{
    if n < 0 {
        let m: u64 = (-(n as i64)) as u64;
        proof {
            reveal_strlit("-");
            assert("-"@ =~= seq!['-']);
        }
        let mut s = "-".to_owned();
        let d = dec_string(m);
        s.append(d.as_str());
        s
    } else {
        dec_string(n as u64)
    }
}

/// The attributes an SVG polygon element carries, attribute name to
/// value, as svg stores them.
pub uninterp spec fn polygon_attrs(node: PolygonElement) -> Map<Seq<char>, Seq<char>>;

/// The attribute maps of the polygon children a document holds, in
/// document order.
pub uninterp spec fn doc_polys(doc: SvgElement) -> Seq<Map<Seq<char>, Seq<char>>>;

/// An element's attribute map when it carries no attributes at all.
pub open spec fn no_attrs() -> Map<Seq<char>, Seq<char>> {
    Map::empty()
}

/// The two attributes the exporter gives a face's polygon element: its
/// outline as `points`, its stored colour as `fill`.
pub open spec fn face_attrs(poly: Polygon) -> Map<Seq<char>, Seq<char>> {
    no_attrs().insert("points"@, points_str(poly.vertices@, poly.vertices@.len() as int)).insert(
        "fill"@,
        fill_str(poly.colour),
    )
}

impl Polygon {
    /// The polygon's outline as an SVG points list: each vertex as `x,y`
    /// followed by a space, in vertex order.
    pub fn to_string(&self) -> (s: String)
        ensures
            s@ == points_str(self.vertices@, self.vertices@.len() as int),
    {
        let mut s = String::new();
        let num: usize = self.vertices.len();
        let mut i: usize = 0;
        while i < num
            invariant
                num == self.vertices.len(),
                i <= num,
                s@ == points_str(self.vertices@, i as int),
            decreases num - i,
        {
            let v = self.vertices[i];
            let vx = int_string(v.x);
            let vy = int_string(v.y);
            s.append(vx.as_str());
            proof {
                reveal_strlit(",");
                assert(","@ =~= seq![',']);
            }
            s.append(",");
            s.append(vy.as_str());
            proof {
                reveal_strlit(" ");
                assert(" "@ =~= seq![' ']);
            }
            s.append(" ");
            i = i + 1;
        }
        s
    }

    /// The polygon's fill attribute: `rgb(r, g, b)`, alpha dropped.
    pub fn fill_string(&self) -> (s: String)
        ensures
            s@ == fill_str(self.colour),
    {
        proof {
            reveal_strlit("rgb(");
            assert("rgb("@ =~= seq!['r', 'g', 'b', '(']);
            reveal_strlit(", ");
            assert(", "@ =~= seq![',', ' ']);
            reveal_strlit(")");
            assert(")"@ =~= seq![')']);
        }
        let mut s = "rgb(".to_owned();
        let r = dec_string(self.colour.r as u64);
        let g = dec_string(self.colour.g as u64);
        let b = dec_string(self.colour.b as u64);
        s.append(r.as_str());
        s.append(", ");
        s.append(g.as_str());
        s.append(", ");
        s.append(b.as_str());
        s.append(")");
        s
    }

    /// One SVG `polygon` element for this face: exactly the two verified
    /// attribute strings, the outline as `points` and the stored colour
    /// as `fill`.
    pub fn to_svg(&self) -> (node: PolygonElement)
        ensures
            polygon_attrs(node) == face_attrs(*self),
    {
        let points = self.to_string();
        let fill = self.fill_string();
        let node = svg_polygon_new();
        let node = svg_polygon_set(node, "points", points);
        svg_polygon_set(node, "fill", fill)
    }
}

impl Mosaic {
    /// The vector export of the current mesh cache: one polygon child
    /// per face, in cache order, each carrying that face's two verified
    /// attribute strings. An empty cache yields a document with no
    /// polygons at all. Writing the document to disk is the caller's
    /// business.
    pub fn svg_document(&self) -> (doc: SvgElement)
        ensures
            doc_polys(doc).len() == self.polygon_cache@.len(),
            forall|i: int|
                0 <= i < self.polygon_cache@.len() ==> #[trigger] doc_polys(doc)[i] == face_attrs(
                    self.polygon_cache@[i],
                ),
    {
        let mut doc = svg_document_new();
        let num: usize = self.polygon_cache.len();
        let mut i: usize = 0;
        while i < num
            invariant
                num == self.polygon_cache.len(),
                i <= num,
                doc_polys(doc).len() == i,
                forall|k: int|
                    0 <= k < i ==> #[trigger] doc_polys(doc)[k] == face_attrs(
                        self.polygon_cache@[k],
                    ),
            decreases num - i,
        {
            doc = svg_document_add(doc, self.polygon_cache[i].to_svg());
            i = i + 1;
        }
        doc
    }
}

#[verifier::external_type_specification]
#[verifier::external_body]
pub struct ExSvgPolygon(PolygonElement);

#[verifier::external_type_specification]
#[verifier::external_body]
pub struct ExSvgSvg(SvgElement);

/// Relies on svg's `element::Polygon::new`: a fresh `polygon` element
/// carries no attributes.
#[verifier::external_body]
fn svg_polygon_new() -> (node: PolygonElement)
    ensures
        polygon_attrs(node) == no_attrs(),
{
    PolygonElement::new()
}

/// Relies on svg's `element::Polygon::set`: the returned element carries
/// the given element's attributes with the named one (re)assigned the
/// given value — a map insert.
#[verifier::external_body]
fn svg_polygon_set(node: PolygonElement, name: &str, value: String) -> (r: PolygonElement)
    ensures
        polygon_attrs(r) == polygon_attrs(node).insert(name@, value@),
{
    node.set(name, value)
}

/// Relies on svg's `Document::new`: a fresh `svg` document element with
/// only the `xmlns` attribute and no children.
#[verifier::external_body]
fn svg_document_new() -> (doc: SvgElement)
    ensures
        doc_polys(doc).len() == 0,
{
    svg::Document::new()
}

/// Relies on svg's `SVG::add`: appends the node as the document's last
/// child, leaving the earlier children as they were.
#[verifier::external_body]
fn svg_document_add(doc: SvgElement, node: PolygonElement) -> (r: SvgElement)
    ensures
        doc_polys(r) == doc_polys(doc).push(polygon_attrs(node)),
{
    doc.add(node)
}

} // verus!
