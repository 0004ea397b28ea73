pub mod canvas;
pub mod vertex;
pub mod polygons;
pub mod delaunay;
pub mod mosaic;
pub mod svgout;
pub mod session;
