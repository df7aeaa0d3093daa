pub mod loader;
pub mod transform;
