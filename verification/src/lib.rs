//! Verified core of an SDF text renderer and its companion GPU demos.
pub mod fluid;
pub mod text;
pub mod shader;
pub mod fs;
pub mod hud;
pub mod sdf;
pub mod sdf_view;
pub mod brush;
