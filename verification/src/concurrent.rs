use dashmap::DashMap;
use vstd::prelude::*;

verus! {

/// `dashmap::DashMap`, a concurrent hash map, carried as an opaque type;
/// what a map holds is named per use by the modules that hold one.
#[verifier::external_type_specification]
#[verifier::external_body]
#[verifier::reject_recursive_types(K)]
#[verifier::reject_recursive_types(V)]
#[verifier::reject_recursive_types(S)]
pub struct ExDashMap<K, V, S>(DashMap<K, V, S>);

} // verus!
