use vstd::prelude::*;

verus! {

/// A part of a request that is only read from `POST` requests; `None` for
/// any other method.
#[derive(Debug)]
pub struct IfPost<T>(pub Option<T>);

} // verus!
