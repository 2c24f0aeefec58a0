use vstd::prelude::*;
use crate::collision::collider_cache::ColliderCache;

verus! {

/// How a world-wide resource is used: as state that systems read and
/// update, or as a cache that systems fill and clear.
#[derive(Clone, Copy, PartialEq, Eq, Structural)]
pub enum StorageType {
    State,
    Cache,
}

/// A world-wide resource kept beside the components.
pub trait Storage {
    const STORAGE_TYPE: StorageType;
}

impl Storage for ColliderCache {
    const STORAGE_TYPE: StorageType = StorageType::Cache;
}

} // verus!
