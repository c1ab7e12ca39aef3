//! Plain viewer-state enumerations consumed by the rendering and UI
//! layers: render mode, overlay kind, zoom precision, and physics body
//! counts for the debug overlay.

use vstd::prelude::*;

verus! {

/// Render mode selection.
#[derive(Debug, Clone, Copy, PartialEq, Eq, Structural)]
pub enum RenderMode {
    /// Two-dimensional procedural content.
    Procedural2D,
    /// Three-dimensional signed-distance-field raymarching.
    Sdf3D,
}

impl RenderMode {
    /// The other mode: toggling twice returns to the start.
    pub fn toggled(&self) -> (r: RenderMode)
        ensures
            self is Procedural2D ==> r is Sdf3D,
            self is Sdf3D ==> r is Procedural2D,
    {
        match self {
            RenderMode::Procedural2D => RenderMode::Sdf3D,
            RenderMode::Sdf3D => RenderMode::Procedural2D,
        }
    }
}

/// Overlay visualization kinds, cycled in a fixed order.
#[derive(Debug, Clone, Copy, PartialEq, Eq, Structural)]
pub enum XRayType {
    MotionVectors,
    FftHeatmap,
    EquationOverlay,
    Wireframe,
}

impl XRayType {
    /// The next overlay kind in the cycle.
    pub fn next(&self) -> (r: XRayType)
        ensures
            self is MotionVectors ==> r is FftHeatmap,
            self is FftHeatmap ==> r is EquationOverlay,
            self is EquationOverlay ==> r is Wireframe,
            self is Wireframe ==> r is MotionVectors,
    {
        match self {
            XRayType::MotionVectors => XRayType::FftHeatmap,
            XRayType::FftHeatmap => XRayType::EquationOverlay,
            XRayType::EquationOverlay => XRayType::Wireframe,
            XRayType::Wireframe => XRayType::MotionVectors,
        }
    }
}

/// Calculation precision selected by the zoom level.
#[derive(Debug, Clone, Copy, PartialEq, Eq, Structural)]
pub enum Precision {
    /// Standard single precision.
    Standard,
    /// Double precision.
    Double,
    /// Arbitrary precision, for extreme zoom.
    Arbitrary,
}

/// Physics body counts for the debug overlay.
#[derive(Debug, Clone, Copy, PartialEq, Eq, Structural)]
pub struct BodyCounts {
    /// Number of dynamic bodies.
    pub dynamic: usize,
    /// Number of immovable bodies.
    pub fixed: usize,
    /// Number of kinematic bodies.
    pub kinematic: usize,
    /// Total body count.
    pub total: usize,
}

} // verus!
