//! Best-effort synthesis of connected map entities from raw geographic
//! footprints: each building or parking-lot polygon gains a connection point
//! on the pedestrian network, a trimmed access path, optional vehicle-access
//! geometry and a dense integer identifier, while every footprint that cannot
//! be connected is reported through a non-fatal diagnostic channel.
//!
//! All coordinates and distances are integer centimeters, so every geometric
//! decision (centroid, area, segment intersection, interpolation along a
//! lane) is exact and verified.

pub mod buildings;
pub mod geometry;
pub mod network;
pub mod parking;
pub mod strfmt;
pub mod warn;
