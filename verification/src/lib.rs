pub mod common;
pub mod engine;
pub mod materials;
pub mod primitive;
