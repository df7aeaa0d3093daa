pub mod app;
pub mod backend;
pub mod buffer;
pub mod cache;
pub mod daemon;
pub mod ipc;
pub mod mapping;
pub mod pool;
pub mod protocol;
pub mod shm;
