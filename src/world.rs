//! Descriptions of the component types known to a world.

pub mod compinfo;
