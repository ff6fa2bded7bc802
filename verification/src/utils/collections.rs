//! Operations on std collections that vstd gives no specification.
use std::collections::HashMap;
use std::sync::Arc;
use vstd::prelude::*;

verus! {

/// Calls `HashMap::extend` with the entries of `other`. Its documentation
/// says that the entries are inserted one by one, so an entry of `other`
/// replaces one of `map` under the same key; this is what the contract claims.
#[verifier::external_body]
pub fn extend_map<V>(map: &mut HashMap<u32, V>, other: HashMap<u32, V>)
    ensures
        final(map)@ == old(map)@.union_prefer_right(other@),
{
    map.extend(other);
}

/// Calls `Arc::clone`, which the documentation says makes another pointer to
/// the same value; the contract claims that the two are the same value.
#[verifier::external_body]
pub fn share<T>(value: &Arc<T>) -> (shared: Arc<T>)
    ensures
        shared == *value,
{
    Arc::clone(value)
}

} // verus!
