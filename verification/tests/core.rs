use lowpoly::canvas::{colour, mix_colours, Colour, Image};
use lowpoly::delaunay::COORD_LIMIT;
use lowpoly::mosaic::Mosaic;
use lowpoly::polygons::Polygon;
use lowpoly::session::{visible, Key, Session};
use lowpoly::vertex::Vertex;

fn uniform_image(width: u32, height: u32, c: Colour) -> Image {
    Image::new(width, height, vec![c; (width as usize) * (height as usize)])
}

fn tri(a: (i32, i32), b: (i32, i32), c: (i32, i32)) -> Vec<Vertex> {
    vec![
        Vertex::new(a.0, a.1),
        Vertex::new(b.0, b.1),
        Vertex::new(c.0, c.1),
    ]
}

#[test]
fn rasterise_right_triangle() {
    let vertices = tri((0, 0), (4, 0), (0, 4));
    let pixels = Polygon::rasterise(&vertices);
    let mut expected: Vec<(i32, i32)> = Vec::new();
    for x in 0..4 {
        for y in 0..4 {
            if x + y < 4 {
                expected.push((x, y));
            }
        }
    }
    assert_eq!(pixels, expected);
    assert_eq!(pixels.len(), 10);
}

#[test]
fn rasterise_collinear_is_empty() {
    let vertices = tri((0, 0), (2, 2), (4, 4));
    assert_eq!(Polygon::rasterise(&vertices), Vec::<(i32, i32)>::new());
}

#[test]
fn rasterise_coincident_is_empty() {
    let vertices = tri((1, 1), (1, 1), (1, 1));
    assert_eq!(Polygon::rasterise(&vertices), Vec::<(i32, i32)>::new());
}

#[test]
fn rasterise_stays_on_canvas_for_inner_triangle() {
    let vertices = tri((0, 0), (7, 0), (0, 7));
    let pixels = Polygon::rasterise(&vertices);
    assert!(!pixels.is_empty());
    for &(x, y) in &pixels {
        assert!(0 <= x && x < 8);
        assert!(0 <= y && y < 8);
    }
}

#[test]
fn average_of_empty_set_is_opaque_black() {
    let img = uniform_image(2, 2, colour(9, 9, 9));
    let c = Polygon::average_colour(&Vec::new(), &img);
    assert_eq!(c, Colour { r: 0, g: 0, b: 0, a: 255 });
}

#[test]
fn average_of_fully_off_canvas_set_is_opaque_black() {
    let img = uniform_image(2, 2, colour(9, 9, 9));
    let points = vec![(-1, 0), (0, -3), (2, 0), (0, 2), (5, 5)];
    let c = Polygon::average_colour(&points, &img);
    assert_eq!(c, Colour { r: 0, g: 0, b: 0, a: 255 });
}

#[test]
fn average_of_uniform_pixels_is_exact() {
    let img = uniform_image(4, 4, colour(10, 20, 30));
    let points = vec![(0, 0), (1, 1), (2, 2), (3, 3), (1, 2)];
    let c = Polygon::average_colour(&points, &img);
    assert_eq!(c, Colour { r: 10, g: 20, b: 30, a: 255 });
}

#[test]
fn average_keeps_channels_apart_and_truncates() {
    // 2x1 image: left pixel (1, 2, 3), right pixel (4, 7, 10).
    let img = Image::new(2, 1, vec![colour(1, 2, 3), colour(4, 7, 10)]);
    let points = vec![(0, 0), (1, 0)];
    let c = Polygon::average_colour(&points, &img);
    assert_eq!(c, Colour { r: 2, g: 4, b: 6, a: 255 });
}

#[test]
fn average_ignores_off_canvas_points_in_the_divisor() {
    let img = uniform_image(1, 1, colour(100, 100, 100));
    let points = vec![(0, 0), (5, 5)];
    let c = Polygon::average_colour(&points, &img);
    assert_eq!(c, Colour { r: 100, g: 100, b: 100, a: 255 });
}

#[test]
fn polygon_new_derives_uniform_colour() {
    let img = uniform_image(4, 4, colour(10, 20, 30));
    let poly = Polygon::new(
        (Vertex::new(0, 0), Vertex::new(4, 0), Vertex::new(0, 4)),
        &img,
    );
    assert_eq!(poly.vertices, tri((0, 0), (4, 0), (0, 4)));
    assert_eq!(poly.colour, Colour { r: 10, g: 20, b: 30, a: 255 });
}

#[test]
fn get_colour_reads_pixel_or_transparent_black() {
    let img = Image::new(2, 1, vec![colour(1, 2, 3), colour(4, 5, 6)]);
    assert_eq!(
        Vertex::new(1, 0).get_colour(&img),
        Colour { r: 4, g: 5, b: 6, a: 255 }
    );
    assert_eq!(
        Vertex::new(2, 0).get_colour(&img),
        Colour { r: 0, g: 0, b: 0, a: 0 }
    );
    assert_eq!(
        Vertex::new(-1, 0).get_colour(&img),
        Colour { r: 0, g: 0, b: 0, a: 0 }
    );
}

#[test]
fn mix_colours_inverts_the_channel_mean() {
    let a = Colour { r: 10, g: 20, b: 30, a: 255 };
    let b = Colour { r: 30, g: 40, b: 50, a: 0 };
    let m = mix_colours(&a, &b);
    assert_eq!(m, Colour { r: 235, g: 225, b: 215, a: 255 });
}

#[test]
fn vertex_add_and_scale() {
    let v = Vertex::new(2, -3).add(&Vertex::new(5, 7));
    assert_eq!(v, Vertex::new(7, 4));
    assert_eq!(v.scale(3), Vertex::new(21, 12));
}

#[test]
fn session_defaults_and_toggles() {
    let mut s = Session::new();
    assert!(!s.show_faces);
    assert!(s.show_edges);
    assert!(!s.save);
    s.key_down_event(Key::F);
    assert!(s.show_faces);
    s.key_down_event(Key::E);
    assert!(!s.show_edges);
    s.key_down_event(Key::W);
    assert!(s.keys.up);
    s.key_up_event(Key::W);
    assert!(!s.keys.up);
    s.key_down_event(Key::Other);
    assert!(!s.save);
}

#[test]
fn export_request_is_consumed_once() {
    let mut s = Session::new();
    assert!(!s.take_save());
    s.key_down_event(Key::C);
    assert!(s.take_save());
    assert!(!s.take_save());
}

#[test]
fn fourth_point_grows_the_cache() {
    let img = uniform_image(8, 8, colour(50, 60, 70));
    let mut mosaic = Mosaic::new();
    assert_eq!(mosaic.polygons().len(), 0);
    mosaic.insert_point(Vertex::new(0, 0), &img);
    mosaic.insert_point(Vertex::new(7, 0), &img);
    mosaic.insert_point(Vertex::new(0, 7), &img);
    let three = mosaic.polygons().len();
    assert_eq!(three, 1);
    mosaic.insert_point(Vertex::new(7, 7), &img);
    let four = mosaic.polygons().len();
    assert!(four > three);
    // A duplicate point is overwritten in place: the face count stays.
    mosaic.insert_point(Vertex::new(7, 7), &img);
    assert_eq!(mosaic.polygons().len(), four);
}

#[test]
fn rebuild_is_deterministic_and_idempotent() {
    let img = uniform_image(8, 8, colour(50, 60, 70));
    let mut mosaic = Mosaic::new();
    mosaic.insert_point(Vertex::new(0, 0), &img);
    mosaic.insert_point(Vertex::new(7, 0), &img);
    mosaic.insert_point(Vertex::new(0, 7), &img);
    mosaic.insert_point(Vertex::new(3, 2), &img);
    let first = mosaic.polygons().clone();
    let first_doc = format!("{}", mosaic.svg_document());
    mosaic.set_polygon_cache(&img);
    let second = mosaic.polygons().clone();
    let second_doc = format!("{}", mosaic.svg_document());
    assert_eq!(first, second);
    assert_eq!(first_doc, second_doc);
}

#[test]
fn canvas_scale_coordinates_triangulate_cleanly() {
    // Points spread over a 1280x960 canvas: the insertion predicates must
    // not overflow, and the cache keeps growing with fresh points.
    let img = uniform_image(4, 4, colour(10, 20, 30));
    let mut mosaic = Mosaic::new();
    mosaic.insert_point(Vertex::new(0, 0), &img);
    mosaic.insert_point(Vertex::new(1279, 3), &img);
    mosaic.insert_point(Vertex::new(7, 959), &img);
    mosaic.insert_point(Vertex::new(1273, 953), &img);
    let four = mosaic.polygons().len();
    assert!(four >= 2);
    mosaic.insert_point(Vertex::new(641, 487), &img);
    assert!(mosaic.polygons().len() > four);
    assert!(mosaic.edges().len() > 4);
}

#[test]
fn bound_coordinates_insert_without_overflow() {
    // Collinear points at the coordinate bound walk the locate path whose
    // distance squares are the widest the triangulation ever computes; no
    // face forms, so nothing is rasterized.
    let img = uniform_image(2, 2, colour(1, 2, 3));
    let mut mosaic = Mosaic::new();
    mosaic.insert_point(Vertex::new(COORD_LIMIT, COORD_LIMIT), &img);
    mosaic.insert_point(Vertex::new(0, 0), &img);
    mosaic.insert_point(Vertex::new(-COORD_LIMIT, -COORD_LIMIT), &img);
    assert_eq!(mosaic.polygons().len(), 0);
    assert_eq!(mosaic.edges().len(), 2);
}

#[test]
fn visible_culls_against_offset_and_canvas() {
    let origin = Vertex::new(0, 0);
    assert!(visible(Vertex::new(1, 1), origin));
    assert!(visible(Vertex::new(1279, 959), origin));
    assert!(!visible(Vertex::new(0, 5), origin));
    assert!(!visible(Vertex::new(5, 0), origin));
    assert!(!visible(Vertex::new(1280, 5), origin));
    assert!(!visible(Vertex::new(5, 960), origin));
    let off = Vertex::new(100, 200);
    assert!(visible(Vertex::new(101, 201), off));
    assert!(!visible(Vertex::new(100, 201), off));
}

#[test]
fn triangulation_reports_edges() {
    let img = uniform_image(8, 8, colour(1, 1, 1));
    let mut mosaic = Mosaic::new();
    mosaic.insert_point(Vertex::new(0, 0), &img);
    mosaic.insert_point(Vertex::new(7, 0), &img);
    mosaic.insert_point(Vertex::new(0, 7), &img);
    assert_eq!(mosaic.edges().len(), 3);
}
