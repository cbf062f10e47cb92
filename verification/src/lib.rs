//! Rendering core of a point-cloud / line viewer: an orbital camera that
//! derives a view-projection transform, geometry batches of point vertices,
//! a delimited-record ingestion format, and the per-frame draw orchestration
//! that composites several batches into one presented image.
//!
//! All quantities are carried as fixed-point integers in millionths of a
//! unit (`fixed::SCALE`), so every rule of the core - angle wrapping, zoom,
//! the transform pipeline, record parsing - is stated and proved exactly.
//! The host converts to the graphics API's floating-point layout at the
//! boundary.

pub mod camera;
pub mod geometry;
pub mod records;
pub mod renderer;
pub mod fixed;
pub mod trig;
pub mod vecmat;
