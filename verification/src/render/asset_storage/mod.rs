pub mod asset_storage;
pub mod mesh;
pub mod vertex;
