pub mod assets;
pub mod error;
pub mod text;
pub mod config;
pub mod terrain;
pub mod render;
pub mod upscaling;
pub mod input;
