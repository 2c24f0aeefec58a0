//! Core logic of a small OpenGL game engine: the entity/component
//! bookkeeping of its ECS world, query access rules, collision pair
//! detection, mesh index building and render-side resource storage.
pub mod ecs;
pub mod collision;
pub mod render;
pub mod opengl_backend;
pub mod components;
pub mod legacy_code;
