pub mod components;
pub mod ecs;
pub mod geometry;
pub mod resources;
pub mod scene;
