pub mod json;
pub mod laws;
pub mod lists;
pub mod manifest;
pub mod render;
pub mod sort;
pub mod text;
