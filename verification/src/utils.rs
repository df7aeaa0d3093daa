pub mod cli;
pub mod error;
pub mod text;
pub mod wayland;
