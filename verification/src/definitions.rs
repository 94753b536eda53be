//! Shared value types that the surrounding application threads through the
//! engine's callers: search plumbing, simulation flags, and entity markers.

use vstd::prelude::*;

use crate::search::JPLHorizonsBodySearch;

verus! {

/// Marker for the camera that renders the user interface.
pub struct UiCameraTracker;

/// Marker for the main scene camera.
pub struct MainCameraTracker;

/// Marker for a simulated body.
pub struct ObjectMarker;

/// Whether the simulation clock is paused.
pub struct TimePaused(pub bool);

/// Whether rendered positions are interpolated between simulation steps.
pub struct InterpolatingObjects(pub bool);

/// Identifiers of bodies whose data has been requested but not yet fetched.
pub struct RequestedBodies(pub Vec<i64>);

/// The query string to search for.
pub struct SearchBody(pub String);

/// The records the last search returned.
pub struct SearchBodyResponse(pub Vec<JPLHorizonsBodySearch>);

/// Interaction hook for dragging bodies with the pointer; dragging is only
/// meaningful while the simulation clock is paused, so nothing happens
/// while it runs.
pub fn drag_bodies(time_paused: &TimePaused) {
    if !time_paused.0 {
        return;
    }
}

} // verus!
