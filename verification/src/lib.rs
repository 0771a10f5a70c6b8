//! A voxel world: blocks stored in fixed-size chunks, the triangle mesh of
//! each chunk's visible faces, and the set of chunks kept around a viewpoint.

pub mod game;
pub mod imgui;
pub mod input;
pub mod math;
