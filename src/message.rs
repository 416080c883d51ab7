use vstd::prelude::*;

verus! {

/// Element types a typed topic can carry.
pub trait Message: Clone + Default + Send + 'static {}

impl<T: Clone + Default + Send + 'static> Message for T {}

} // verus!
