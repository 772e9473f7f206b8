pub mod app;
pub mod commands;
pub mod input;
pub mod schedule;
pub mod slots;
pub mod world;
