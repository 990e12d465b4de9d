//! Accent-colour extraction and theme state for a wallpaper-driven desktop theme.
//!
//! The library picks one representative colour out of an image, derives a display
//! mode and a scheme variant from it, and keeps the record of the current theme
//! together with the named presets.

pub mod apply;
pub mod color;
pub mod config;
pub mod error;
pub mod extract;
pub mod natural;
pub mod options;
pub mod store;
pub mod text;
pub mod theme;
pub mod wallpaper;
