use vstd::prelude::*;

verus! {

/// The handle of the Soroban host, `soroban_sdk::Env`. The election only
/// hands it on to the host's vectors.
///
/// The contracts in this file are not proved: they say what the host's
/// vector does, as its source shows it, and the proofs of the election rest on
/// them. The host meters every call and ends the whole invocation when its
/// budget is spent; the contracts speak of the calls that return.
#[verifier::external_type_specification]
#[verifier::external_body]
pub struct ExEnv(soroban_sdk::Env);

/// A vector that lives in the host, `soroban_sdk::Vec`.
#[verifier::external_type_specification]
#[verifier::external_body]
#[verifier::reject_recursive_types(T)]
pub struct ExHostVec<T>(soroban_sdk::Vec<T>);

/// The numbers that a host vector holds, in their order.
pub uninterp spec fn items_of(list: soroban_sdk::Vec<u64>) -> Seq<u64>;

/// Calls `soroban_sdk::Vec::new`, which makes a host vector without items.
#[verifier::external_body]
pub(crate) fn host_vec_new(env: &soroban_sdk::Env) -> (list: soroban_sdk::Vec<u64>)
    ensures
        items_of(list) == Seq::<u64>::empty(),
{
    soroban_sdk::Vec::new(env)
}

/// Calls `soroban_sdk::Vec::contains`, which asks the host for the first
/// place at which an item equals `item` and says whether there is one.
#[verifier::external_body]
pub(crate) fn host_vec_contains(list: &soroban_sdk::Vec<u64>, item: u64) -> (found: bool)
    ensures
        found == items_of(*list).contains(item),
{
    list.contains(item)
}

/// Calls `soroban_sdk::Vec::push_back`, which puts `item` behind the items
/// there are and keeps those as they were. The host counts places in `u32`,
/// so a vector that is full to that count is left out.
#[verifier::external_body]
pub(crate) fn host_vec_push_back(list: &mut soroban_sdk::Vec<u64>, item: u64)
    requires
        items_of(*old(list)).len() < u32::MAX,
    ensures
        items_of(*final(list)) == items_of(*old(list)).push(item),
{
    list.push_back(item)
}

/// Calls `soroban_sdk::Vec::len`, which returns the number of items.
#[verifier::external_body]
pub(crate) fn host_vec_len(list: &soroban_sdk::Vec<u64>) -> (n: u32)
    ensures
        n == items_of(*list).len(),
{
    list.len()
}

} // verus!
