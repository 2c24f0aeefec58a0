use vstd::prelude::*;

verus! {

/// Marker trait of every value that can be stored as a component:
/// any thread-safe type that owns its data.
pub trait Component: Send + Sync + 'static {}

impl<T: Send + Sync + 'static> Component for T {}

} // verus!
