pub mod builder;
pub mod compose;
pub mod errors;
pub mod paths;
pub mod render;
pub mod resources;
pub mod scan;
