pub mod model;
pub mod name;
pub mod transform;
