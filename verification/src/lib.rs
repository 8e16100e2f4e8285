pub mod binary32;
pub mod builder;
pub mod codec;
pub mod geometry;
pub mod grid;
pub mod ids;
pub mod model;
pub mod timestamps;
