//! The concurrent hash map that the cache and the rate limiter keep their
//! entries in. Verus sees a value of it as opaque; each use names what the
//! map holds and gives the methods it calls contracts over that name.
use dashmap::DashMap;
use vstd::prelude::*;

verus! {

#[verifier::external_type_specification]
#[verifier::external_body]
#[verifier::reject_recursive_types(K)]
#[verifier::reject_recursive_types(V)]
#[verifier::reject_recursive_types(S)]
pub struct ExDashMap<K, V, S>(DashMap<K, V, S>);

} // verus!
