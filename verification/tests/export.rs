use lowpoly::canvas::{colour, Colour, Image};
use lowpoly::mosaic::Mosaic;
use lowpoly::polygons::Polygon;
use lowpoly::vertex::Vertex;

#[test]
fn empty_cache_exports_a_wellformed_empty_document() {
    let mosaic = Mosaic::new();
    let doc = format!("{}", mosaic.svg_document());
    assert_eq!(doc, "<svg xmlns=\"http://www.w3.org/2000/svg\"/>");
}

#[test]
fn points_list_is_exact() {
    let poly = Polygon {
        vertices: vec![Vertex::new(0, 0), Vertex::new(4, 0), Vertex::new(0, 4)],
        colour: colour(10, 20, 30),
    };
    assert_eq!(poly.to_string(), "0,0 4,0 0,4 ");
}

#[test]
fn points_list_handles_negative_and_wide_coordinates() {
    let poly = Polygon {
        vertices: vec![Vertex::new(-3, -12), Vertex::new(2147483647, 0)],
        colour: colour(0, 0, 0),
    };
    assert_eq!(poly.to_string(), "-3,-12 2147483647,0 ");
    let poly = Polygon {
        vertices: vec![Vertex::new(-2147483648, 207)],
        colour: colour(0, 0, 0),
    };
    assert_eq!(poly.to_string(), "-2147483648,207 ");
}

#[test]
fn fill_is_exact() {
    let poly = Polygon {
        vertices: Vec::new(),
        colour: Colour { r: 10, g: 20, b: 30, a: 255 },
    };
    assert_eq!(poly.fill_string(), "rgb(10, 20, 30)");
    let poly = Polygon {
        vertices: Vec::new(),
        colour: Colour { r: 0, g: 255, b: 7, a: 0 },
    };
    assert_eq!(poly.fill_string(), "rgb(0, 255, 7)");
}

#[test]
fn face_becomes_a_filled_polygon_element() {
    let poly = Polygon {
        vertices: vec![Vertex::new(0, 0), Vertex::new(4, 0), Vertex::new(0, 4)],
        colour: colour(10, 20, 30),
    };
    let node = format!("{}", poly.to_svg());
    assert_eq!(
        node,
        "<polygon fill=\"rgb(10, 20, 30)\" points=\"0,0 4,0 0,4 \"/>"
    );
}

#[test]
fn one_face_export_contains_the_polygon() {
    let img = Image::new(
        4,
        4,
        vec![colour(10, 20, 30); 16],
    );
    let mut mosaic = Mosaic::new();
    mosaic.insert_point(Vertex::new(0, 0), &img);
    mosaic.insert_point(Vertex::new(3, 0), &img);
    mosaic.insert_point(Vertex::new(0, 3), &img);
    let doc = format!("{}", mosaic.svg_document());
    assert!(doc.starts_with("<svg xmlns=\"http://www.w3.org/2000/svg\">"));
    assert!(doc.contains("<polygon"));
    assert!(doc.contains("fill=\"rgb(10, 20, 30)\""));
    assert!(doc.ends_with("</svg>"));
}
