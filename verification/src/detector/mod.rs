//! Finder-pattern detection support: alignment centres, connected
//! components, image pyramids and the structural checks of the detectors.

pub mod alignment;
pub mod connected_components;
pub mod contour;
pub mod finder;
pub mod proposal;
pub mod pyramid;
pub mod regions;
