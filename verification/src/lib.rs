//! Parsing engine for textual ephemeris reports from the JPL Horizons
//! service: body search tables, position/velocity vectors, and physical
//! properties (mass and mean radius).
//!
//! Reports are loosely structured human-readable text, so every extraction
//! here is specified and verified at the character level.  Numeric fields are
//! returned as validated decimal-literal tokens (together with a power-of-ten
//! exponent where the report encodes scale in a key label); callers convert
//! those tokens to machine floats outside this crate.

pub mod definitions;
pub mod ints;
pub mod laws;
pub mod motion;
pub mod numeric;
pub mod physical;
pub mod search;
pub mod text;
pub mod vector;

pub use definitions::{
    drag_bodies, InterpolatingObjects, MainCameraTracker, ObjectMarker, RequestedBodies,
    SearchBody, SearchBodyResponse, TimePaused, UiCameraTracker,
};
pub use motion::parse_body_motion;
pub use numeric::parse_property_number;
pub use physical::{parse_horizons_physical_single, Mass, SciNum};
pub use search::{parse_body_search, parse_search_row, JPLHorizonsBodySearch};
pub use vector::{
    extract_vec3_from_line, parse_position, parse_vec3_line, parse_velocity, vec3_zero, Position,
    Vec3Text, Velocity,
};
