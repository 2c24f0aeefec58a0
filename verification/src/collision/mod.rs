pub mod collider_cache;
pub mod collision_detection_system;
