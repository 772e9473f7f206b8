pub mod gpu;
pub mod mesh;
pub mod texture;
