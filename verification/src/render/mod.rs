pub mod asset_storage;
pub mod device;
pub mod ecs;
pub mod renderer;
pub mod shader_storage;
