pub mod indexing;
pub mod parsing;
pub mod render;
