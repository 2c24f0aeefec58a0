pub mod cfg_loader;
pub mod free_flight_camera;
pub mod realistic_camera;
