//! Icon preparation and project tooling logic for Tauri icon management.

pub mod full_bleed;
pub mod image_ops;
pub mod json;
pub mod laws;
pub mod macos_look;
pub mod ordering;
pub mod paths;
pub mod pixels;
pub mod projects;
pub mod raster;
pub mod replace;
pub mod shell;
pub mod text;
pub mod workflow;

