pub mod color_convert;
pub mod coloration;
pub mod fx;
pub mod intersection;
pub mod laws;
pub mod lights;
pub mod material;
pub mod objects;
pub mod ray;
pub mod render;
pub mod scene;
pub mod trig;
pub mod vector;
