//! The concurrent map type that the hub's registries are kept in.
use vstd::prelude::*;
use dashmap::DashMap;

verus! {

/// `dashmap::DashMap`, declared so that the library's tables can hold one.
#[verifier::external_type_specification]
#[verifier::external_body]
#[verifier::reject_recursive_types(K)]
#[verifier::reject_recursive_types(V)]
#[verifier::reject_recursive_types(S)]
pub struct ExDashMap<K, V, S>(DashMap<K, V, S>);

} // verus!
