//! The `AHashMap` in which the uids of a mailbox are handed out, and what is relied on of it.
use ahash::AHashMap;
use vstd::prelude::*;

verus! {

/// The type `ahash::RandomState`: how an `AHashMap` hashes its keys.
#[verifier::external_type_specification]
#[verifier::external_body]
pub struct ExAHashRandomState(ahash::RandomState);

/// The type `ahash::AHashMap`.
#[verifier::external_type_specification]
#[verifier::external_body]
#[verifier::reject_recursive_types(K)]
#[verifier::reject_recursive_types(V)]
#[verifier::reject_recursive_types(S)]
pub struct ExAHashMap<K, V, S>(ahash::AHashMap<K, V, S>);

/// What a map of uids holds.
pub uninterp spec fn uid_map_entries(map: AHashMap<u32, u64>) -> Map<u32, u64>;

/// `AHashMap::new`: an empty map.
#[verifier::external_body]
pub(crate) fn uid_map_new() -> (map: AHashMap<u32, u64>)
    ensures
        uid_map_entries(map) == crate::store::no_uids(),
{
    AHashMap::new()
}

/// `AHashMap::insert`: `uid` holds `flags_hash` afterwards, other uids are as before, and the
/// hash that was there is handed back.
#[verifier::external_body]
pub(crate) fn uid_map_insert(map: &mut AHashMap<u32, u64>, uid: u32, flags_hash: u64) -> (previous:
    Option<u64>)
    ensures
        uid_map_entries(*final(map)) == uid_map_entries(*old(map)).insert(uid, flags_hash),
        previous == uid_map_entries(*old(map)).get(uid),
{
    map.insert(uid, flags_hash)
}

} // verus!
