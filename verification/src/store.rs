//! The `DashMap` levels that hold the flags state, and what is relied on of them.
//!
//! A `DashMap` changes through shared references. The functions here that change one take it
//! by `&mut`, so that its holder is the only one to reach it while they run, and a map behind
//! a shared reference stays as it is. A level inside another is changed by taking it out and
//! putting it back: a write guard would change the outer map at the time it is dropped, which
//! no contract of the call that hands out the guard can tell.
use dashmap::mapref::one::Ref;
use dashmap::DashMap;
use vstd::prelude::*;

verus! {

/// The flags hash of each uid of one mailbox.
pub type Uids = DashMap<u32, u64>;

/// The mailboxes of one account.
pub type Mailboxes = DashMap<u64, DashMap<u32, u64>>;

/// All accounts.
pub type Accounts = DashMap<u64, DashMap<u64, DashMap<u32, u64>>>;

/// The type `dashmap::DashMap`.
#[verifier::external_type_specification]
#[verifier::external_body]
#[verifier::reject_recursive_types(K)]
#[verifier::reject_recursive_types(V)]
#[verifier::reject_recursive_types(S)]
pub struct ExDashMap<K, V, S>(dashmap::DashMap<K, V, S>);

/// The type `dashmap::mapref::one::Ref`: a read guard on one entry of a map.
#[verifier::external_type_specification]
#[verifier::external_body]
#[verifier::reject_recursive_types(K)]
#[verifier::reject_recursive_types(V)]
pub struct ExRef<'a, K, V>(dashmap::mapref::one::Ref<'a, K, V>);

/// What a map of uids holds.
pub uninterp spec fn uid_entries(map: DashMap<u32, u64>) -> Map<u32, u64>;

/// What a map of mailboxes holds, down to the flags hashes.
pub uninterp spec fn mailbox_entries(map: DashMap<u64, DashMap<u32, u64>>) -> Map<
    u64,
    Map<u32, u64>,
>;

/// What a map of accounts holds, down to the flags hashes.
pub uninterp spec fn account_entries(
    map: DashMap<u64, DashMap<u64, DashMap<u32, u64>>>,
) -> Map<u64, Map<u64, Map<u32, u64>>>;

/// What the map of uids under a read guard holds.
pub uninterp spec fn guarded_uids(guard: Ref<'_, u64, DashMap<u32, u64>>) -> Map<u32, u64>;

/// What the map of mailboxes under a read guard holds.
pub uninterp spec fn guarded_mailboxes(
    guard: Ref<'_, u64, DashMap<u64, DashMap<u32, u64>>>,
) -> Map<u64, Map<u32, u64>>;

/// A mailbox without uids.
pub open spec fn no_uids() -> Map<u32, u64> {
    Map::empty()
}

/// An account without mailboxes.
pub open spec fn no_mailboxes() -> Map<u64, Map<u32, u64>> {
    Map::empty()
}

/// The state without accounts.
pub open spec fn no_accounts() -> Map<u64, Map<u64, Map<u32, u64>>> {
    Map::empty()
}

// Uids of one mailbox.
/// `DashMap::new`: an empty map of uids.
#[verifier::external_body]
pub(crate) fn uids_new() -> (map: Uids)
    ensures
        uid_entries(map) == no_uids(),
{
    DashMap::new()
}

/// `DashMap::insert`: `uid` holds `flags_hash` afterwards, other uids are as before, and the
/// hash that was there is handed back.
#[verifier::external_body]
pub(crate) fn uids_insert(map: &mut Uids, uid: u32, flags_hash: u64) -> (previous: Option<u64>)
    ensures
        uid_entries(*final(map)) == uid_entries(*old(map)).insert(uid, flags_hash),
        previous == uid_entries(*old(map)).get(uid),
{
    map.insert(uid, flags_hash)
}

/// `DashMap::remove`: `uid` is gone afterwards, other uids are as before, and the entry that
/// was there is handed back.
#[verifier::external_body]
pub(crate) fn uids_remove(map: &mut Uids, uid: u32) -> (removed: Option<(u32, u64)>)
    ensures
        uid_entries(*final(map)) == uid_entries(*old(map)).remove(uid),
        removed is Some <==> uid_entries(*old(map)).contains_key(uid),
        removed matches Some(entry) ==> entry == (uid, uid_entries(*old(map))[uid]),
{
    map.remove(&uid)
}

/// `DashMap::is_empty`: whether the map holds no uid.
#[verifier::external_body]
pub(crate) fn uids_is_empty(map: &Uids) -> (empty: bool)
    ensures
        empty == (uid_entries(*map) == no_uids()),
{
    map.is_empty()
}

/// `DashMap::len`: how many uids the map holds.
#[verifier::external_body]
pub(crate) fn uids_len(map: &Uids) -> (count: usize)
    ensures
        count == uid_entries(*map).len(),
{
    map.len()
}

/// `DashMap::iter`: every entry once, in an order that is left open.
#[verifier::external_body]
pub(crate) fn uids_iter(map: &Uids) -> (entries: Vec<(u32, u64)>)
    ensures
        forall|i: int|
            0 <= i < entries@.len() ==> uid_entries(*map).contains_pair(
                (#[trigger] entries@[i]).0,
                entries@[i].1,
            ),
        forall|uid: u32| #[trigger]
            uid_entries(*map).contains_key(uid) ==> entries@.contains(
                (uid, uid_entries(*map)[uid]),
            ),
        entries@.no_duplicates(),
{
    map.iter().map(|entry| (*entry.key(), *entry.value())).collect()
}

// Mailboxes of one account.
/// `DashMap::new`: an empty map of mailboxes.
#[verifier::external_body]
pub(crate) fn mailboxes_new() -> (map: Mailboxes)
    ensures
        mailbox_entries(map) == no_mailboxes(),
{
    DashMap::new()
}

/// `DashMap::insert`: `mailbox_id` holds what `uids` holds afterwards, other mailboxes are as
/// before, and the map that was there is handed back.
#[verifier::external_body]
pub(crate) fn mailboxes_insert(map: &mut Mailboxes, mailbox_id: u64, uids: Uids) -> (previous:
    Option<Uids>)
    ensures
        mailbox_entries(*final(map)) == mailbox_entries(*old(map)).insert(
            mailbox_id,
            uid_entries(uids),
        ),
        previous is Some <==> mailbox_entries(*old(map)).contains_key(mailbox_id),
        previous matches Some(p) ==> uid_entries(p) == mailbox_entries(*old(map))[mailbox_id],
{
    map.insert(mailbox_id, uids)
}

/// `DashMap::remove`: `mailbox_id` is gone afterwards, other mailboxes are as before, and the
/// entry that was there is handed back.
#[verifier::external_body]
pub(crate) fn mailboxes_remove(map: &mut Mailboxes, mailbox_id: u64) -> (removed: Option<
    (u64, Uids),
>)
    ensures
        mailbox_entries(*final(map)) == mailbox_entries(*old(map)).remove(mailbox_id),
        removed is Some <==> mailbox_entries(*old(map)).contains_key(mailbox_id),
        removed matches Some(entry) ==> entry.0 == mailbox_id && uid_entries(entry.1)
            == mailbox_entries(*old(map))[mailbox_id],
{
    map.remove(&mailbox_id)
}

/// Whether a mailbox has no uid left.
pub(crate) fn is_mailbox_drained(uids: &Uids) -> (empty: bool)
    ensures
        empty == (uid_entries(*uids) == no_uids()),
{
    uids_is_empty(uids)
}

/// `DashMap::remove_if`, with the test whether the mailbox has no uid left: the mailbox is
/// removed when it is there and passes the test, and nothing else changes.
#[verifier::external_body]
pub(crate) fn mailboxes_remove_if_drained(map: &mut Mailboxes, mailbox_id: u64) -> (removed:
    Option<(u64, Uids)>)
    ensures
        removed is Some <==> mailbox_entries(*old(map)).contains_key(mailbox_id)
            && mailbox_entries(*old(map))[mailbox_id] == no_uids(),
        removed is Some ==> mailbox_entries(*final(map)) == mailbox_entries(*old(map)).remove(
            mailbox_id,
        ),
        removed is None ==> mailbox_entries(*final(map)) == mailbox_entries(*old(map)),
        removed matches Some(entry) ==> entry.0 == mailbox_id && uid_entries(entry.1)
            == mailbox_entries(*old(map))[mailbox_id],
{
    map.remove_if(&mailbox_id, |_, uids| is_mailbox_drained(uids))
}

/// `DashMap::get`: a read guard on the mailbox, if it is there.
#[verifier::external_body]
pub(crate) fn mailboxes_get<'a>(map: &'a Mailboxes, mailbox_id: u64) -> (guard: Option<
    Ref<'a, u64, DashMap<u32, u64>>,
>)
    ensures
        guard is Some <==> mailbox_entries(*map).contains_key(mailbox_id),
        guard matches Some(g) ==> guarded_uids(g) == mailbox_entries(*map)[mailbox_id],
{
    map.get(&mailbox_id)
}

/// `Ref::value`: the map of uids under the guard.
#[verifier::external_body]
pub(crate) fn guard_uids<'a>(guard: &'a Ref<'_, u64, DashMap<u32, u64>>) -> (uids: &'a Uids)
    ensures
        uid_entries(*uids) == guarded_uids(*guard),
{
    guard.value()
}

/// `DashMap::is_empty`: whether the map holds no mailbox.
#[verifier::external_body]
pub(crate) fn mailboxes_is_empty(map: &Mailboxes) -> (empty: bool)
    ensures
        empty == (mailbox_entries(*map) == no_mailboxes()),
{
    map.is_empty()
}

/// `DashMap::iter`: the id of every mailbox once, in an order that is left open.
#[verifier::external_body]
pub(crate) fn mailboxes_iter(map: &Mailboxes) -> (ids: Vec<u64>)
    ensures
        ids@.to_set() == mailbox_entries(*map).dom(),
        ids@.no_duplicates(),
{
    map.iter().map(|entry| *entry.key()).collect()
}

// Accounts.
/// `DashMap::new`: an empty map of accounts.
#[verifier::external_body]
pub(crate) fn accounts_new() -> (map: Accounts)
    ensures
        account_entries(map) == no_accounts(),
{
    DashMap::new()
}

/// `DashMap::insert`: `account_id` holds what `mailboxes` holds afterwards, other accounts are
/// as before, and the map that was there is handed back.
#[verifier::external_body]
pub(crate) fn accounts_insert(map: &mut Accounts, account_id: u64, mailboxes: Mailboxes) -> (previous:
    Option<Mailboxes>)
    ensures
        account_entries(*final(map)) == account_entries(*old(map)).insert(
            account_id,
            mailbox_entries(mailboxes),
        ),
        previous is Some <==> account_entries(*old(map)).contains_key(account_id),
        previous matches Some(p) ==> mailbox_entries(p) == account_entries(*old(map))[account_id],
{
    map.insert(account_id, mailboxes)
}

/// `DashMap::remove`: `account_id` is gone afterwards, other accounts are as before, and the
/// entry that was there is handed back.
#[verifier::external_body]
pub(crate) fn accounts_remove(map: &mut Accounts, account_id: u64) -> (removed: Option<
    (u64, Mailboxes),
>)
    ensures
        account_entries(*final(map)) == account_entries(*old(map)).remove(account_id),
        removed is Some <==> account_entries(*old(map)).contains_key(account_id),
        removed matches Some(entry) ==> entry.0 == account_id && mailbox_entries(entry.1)
            == account_entries(*old(map))[account_id],
{
    map.remove(&account_id)
}

/// Whether an account has no mailbox left.
pub(crate) fn is_account_drained(mailboxes: &Mailboxes) -> (empty: bool)
    ensures
        empty == (mailbox_entries(*mailboxes) == no_mailboxes()),
{
    mailboxes_is_empty(mailboxes)
}

/// `DashMap::remove_if`, with the test whether the account has no mailbox left: the account is
/// removed when it is there and passes the test, and nothing else changes.
#[verifier::external_body]
pub(crate) fn accounts_remove_if_drained(map: &mut Accounts, account_id: u64) -> (removed: Option<
    (u64, Mailboxes),
>)
    ensures
        removed is Some <==> account_entries(*old(map)).contains_key(account_id)
            && account_entries(*old(map))[account_id] == no_mailboxes(),
        removed is Some ==> account_entries(*final(map)) == account_entries(*old(map)).remove(
            account_id,
        ),
        removed is None ==> account_entries(*final(map)) == account_entries(*old(map)),
        removed matches Some(entry) ==> entry.0 == account_id && mailbox_entries(entry.1)
            == account_entries(*old(map))[account_id],
{
    map.remove_if(&account_id, |_, mailboxes| is_account_drained(mailboxes))
}

/// `DashMap::get`: a read guard on the account, if it is there.
#[verifier::external_body]
pub(crate) fn accounts_get<'a>(map: &'a Accounts, account_id: u64) -> (guard: Option<
    Ref<'a, u64, DashMap<u64, DashMap<u32, u64>>>,
>)
    ensures
        guard is Some <==> account_entries(*map).contains_key(account_id),
        guard matches Some(g) ==> guarded_mailboxes(g) == account_entries(*map)[account_id],
{
    map.get(&account_id)
}

/// `Ref::value`: the map of mailboxes under the guard.
#[verifier::external_body]
pub(crate) fn guard_mailboxes<'a>(guard: &'a Ref<'_, u64, DashMap<u64, DashMap<u32, u64>>>) -> (mailboxes:
    &'a Mailboxes)
    ensures
        mailbox_entries(*mailboxes) == guarded_mailboxes(*guard),
{
    guard.value()
}

} // verus!
