pub mod component;
pub mod world;
pub mod query;
pub mod storage;
