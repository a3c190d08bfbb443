//! The concurrent set of the tasks that are being executed.

use vstd::prelude::*;

verus! {

/// `dashmap::DashSet`, a concurrent hash set.
#[verifier::external_type_specification]
#[verifier::external_body]
#[verifier::reject_recursive_types(K)]
#[verifier::reject_recursive_types(S)]
pub struct ExDashSet<K, S>(dashmap::DashSet<K, S>);

/// What a set of IDs holds.
pub uninterp spec fn ids_in(set: dashmap::DashSet<String>) -> Set<Seq<char>>;

/// `DashSet::new` makes a set that holds nothing.
#[verifier::external_body]
pub(crate) fn new_id_set() -> (r: dashmap::DashSet<String>)
    ensures
        ids_in(r) == Set::<Seq<char>>::empty(),
{
    dashmap::DashSet::new()
}

/// `DashSet::insert` adds an element and returns whether it was not in the set.
#[verifier::external_body]
pub(crate) fn add_id(set: &mut dashmap::DashSet<String>, id: String) -> (r: bool)
    ensures
        r == !ids_in(*old(set)).contains(id@),
        ids_in(*final(set)) == ids_in(*old(set)).insert(id@),
{
    set.insert(id)
}

/// `DashSet::remove` takes an element out of the set.
#[verifier::external_body]
pub(crate) fn drop_id(set: &mut dashmap::DashSet<String>, id: &String)
    ensures
        ids_in(*final(set)) == ids_in(*old(set)).remove(id@),
{
    set.remove(id);
}

} // verus!
