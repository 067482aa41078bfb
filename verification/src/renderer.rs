//! State kept for the on-screen collaborators of the parsing core.

pub mod overlay;

pub use overlay::OverlayPosition;
pub use overlay::PerformanceOverlay;
