pub mod loader;
pub mod sprite;
