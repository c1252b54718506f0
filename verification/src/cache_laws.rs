//! Laws of the operations on the flags cache: what every call leaves behind and hands out,
//! entry by entry and level by level, and how calls relate to each other.
//!
//! A law speaks of a call by what the called function promises. `old` of a manager is the cache
//! before the call, `final` the cache after it.
use crate::account::AccountModel;
use crate::envelope::{AccountListing, MinimalEnvelope};
use crate::laws::law_clean_removes_exactly_the_uids;
use crate::manager::EnvelopeFlagsManager;
use crate::state::{
    cached_hash, drained, failed_listings, is_drained, lemma_uid_total_remove, loadable, loaded,
    mailbox_pruned, mailboxes_of, pruned, recorded, recorded_all, uid_total, FlagsState,
};
use crate::store::{no_mailboxes, no_uids};
use crate::sweep::{Store, StoreSweep};
use crate::uid_map::uid_map_entries;
use ahash::AHashMap;
use vstd::prelude::*;

verus! {

/// Whether a state has an entry for a message with the given hash.
pub open spec fn holds(
    state: FlagsState,
    account_id: u64,
    mailbox_id: u64,
    uid: u32,
    flags_hash: u64,
) -> bool {
    &&& state.contains_key(account_id)
    &&& state[account_id].contains_key(mailbox_id)
    &&& state[account_id][mailbox_id].contains_key(uid)
    &&& state[account_id][mailbox_id][uid] == flags_hash
}

/// Whether a state has a level for a mailbox.
pub open spec fn has_level(state: FlagsState, account_id: u64, mailbox_id: u64) -> bool {
    state.contains_key(account_id) && state[account_id].contains_key(mailbox_id)
}

/// A new cache has no level and no entry.
pub proof fn law_new_cache_is_empty(manager: EnvelopeFlagsManager)
    requires
        call_ensures(EnvelopeFlagsManager::new, (), manager),
    ensures
        forall|a: u64| !(#[trigger] manager@.contains_key(a)),
{
}

/// Recording sets the entry of its message, makes the levels that this takes, and leaves every
/// other entry and level.
pub proof fn law_update_sets_one_entry(
    manager: &mut EnvelopeFlagsManager,
    account_id: u64,
    mailbox_id: u64,
    uid: u32,
    flags_hash: u64,
)
    requires
        call_ensures(
            EnvelopeFlagsManager::update_flag_change,
            (manager, account_id, mailbox_id, uid, flags_hash),
            (),
        ),
    ensures
        forall|a: u64, m: u64, u: u32, h: u64| #[trigger]
            holds(final(manager)@, a, m, u, h) <==> (if a == account_id && m == mailbox_id && u
                == uid {
                h == flags_hash
            } else {
                holds(old(manager)@, a, m, u, h)
            }),
        forall|a: u64, m: u64| #[trigger]
            has_level(final(manager)@, a, m) <==> has_level(old(manager)@, a, m) || a == account_id
                && m == mailbox_id,
        forall|a: u64| #[trigger]
            final(manager)@.contains_key(a) <==> old(manager)@.contains_key(a) || a == account_id,
{
}

/// Of the envelopes of an account, the last one for a message counts; a message without an
/// envelope, and every other account, is as before.
proof fn lemma_recorded_all_holds(
    state: FlagsState,
    account_id: u64,
    envelopes: Seq<MinimalEnvelope>,
)
    ensures
        forall|a: u64, m: u64, u: u32, h: u64|
            (a != account_id || forall|i: int|
                0 <= i < envelopes.len() ==> (#[trigger] envelopes[i]).mailbox_id != m
                    || envelopes[i].uid != u) ==> (#[trigger] holds(
                recorded_all(state, account_id, envelopes),
                a,
                m,
                u,
                h,
            ) <==> holds(state, a, m, u, h)),
        forall|i: int|
            0 <= i < envelopes.len() && (forall|j: int|
                i < j < envelopes.len() ==> (#[trigger] envelopes[j]).mailbox_id
                    != envelopes[i].mailbox_id || envelopes[j].uid != envelopes[i].uid) ==> holds(
                recorded_all(state, account_id, envelopes),
                account_id,
                (#[trigger] envelopes[i]).mailbox_id,
                envelopes[i].uid,
                envelopes[i].flags_hash,
            ),
        forall|a: u64, m: u64| #[trigger]
            has_level(recorded_all(state, account_id, envelopes), a, m) <==> has_level(state, a, m)
                || (a == account_id && exists|i: int|
                0 <= i < envelopes.len() && (#[trigger] envelopes[i]).mailbox_id == m),
        forall|a: u64| #[trigger]
            recorded_all(state, account_id, envelopes).contains_key(a) <==> state.contains_key(a)
                || (a == account_id && envelopes.len() > 0),
    decreases envelopes.len(),
{
    if envelopes.len() > 0 {
        let earlier = envelopes.drop_last();
        let last = envelopes.last();
        let before = recorded_all(state, account_id, earlier);
        let after = recorded_all(state, account_id, envelopes);
        lemma_recorded_all_holds(state, account_id, earlier);
        assert(after == recorded(before, account_id, last.mailbox_id, last.uid, last.flags_hash));
        assert(last == envelopes[envelopes.len() - 1]);
        assert forall|a: u64, m: u64, u: u32, h: u64|
            (a != account_id || forall|i: int|
                0 <= i < envelopes.len() ==> (#[trigger] envelopes[i]).mailbox_id != m
                    || envelopes[i].uid != u) implies (#[trigger] holds(after, a, m, u, h)
            <==> holds(state, a, m, u, h)) by {
            assert(a != account_id || forall|i: int|
                0 <= i < earlier.len() ==> (#[trigger] earlier[i]).mailbox_id != m
                    || earlier[i].uid != u) by {
                if a == account_id {
                    assert forall|i: int| 0 <= i < earlier.len() implies (
                    #[trigger] earlier[i]).mailbox_id != m || earlier[i].uid != u by {
                        assert(earlier[i] == envelopes[i]);
                    }
                }
            }
            assert(holds(before, a, m, u, h) <==> holds(state, a, m, u, h));
        }
        assert forall|i: int|
            0 <= i < envelopes.len() && (forall|j: int|
                i < j < envelopes.len() ==> (#[trigger] envelopes[j]).mailbox_id
                    != envelopes[i].mailbox_id || envelopes[j].uid
                    != envelopes[i].uid) implies holds(
            after,
            account_id,
            (#[trigger] envelopes[i]).mailbox_id,
            envelopes[i].uid,
            envelopes[i].flags_hash,
        ) by {
            if i < earlier.len() {
                assert(earlier[i] == envelopes[i]);
                assert forall|j: int| i < j < earlier.len() implies (
                #[trigger] earlier[j]).mailbox_id != earlier[i].mailbox_id || earlier[j].uid
                    != earlier[i].uid by {
                    assert(earlier[j] == envelopes[j]);
                }
                assert(holds(
                    before,
                    account_id,
                    earlier[i].mailbox_id,
                    earlier[i].uid,
                    earlier[i].flags_hash,
                ));
            }
        }
        assert forall|a: u64, m: u64| #[trigger]
            has_level(after, a, m) <==> has_level(state, a, m) || (a == account_id && exists|i: int|
            0 <= i < envelopes.len() && (#[trigger] envelopes[i]).mailbox_id == m) by {
            assert(has_level(after, a, m) <==> has_level(before, a, m) || (a == account_id && m
                == last.mailbox_id));
            if exists|i: int| 0 <= i < earlier.len() && (#[trigger] earlier[i]).mailbox_id == m {
                let i = choose|i: int|
                    0 <= i < earlier.len() && (#[trigger] earlier[i]).mailbox_id == m;
                assert(envelopes[i].mailbox_id == m);
            }
            if exists|i: int|
                0 <= i < envelopes.len() && (#[trigger] envelopes[i]).mailbox_id == m {
                let i = choose|i: int|
                    0 <= i < envelopes.len() && (#[trigger] envelopes[i]).mailbox_id == m;
                if i < earlier.len() {
                    assert(earlier[i].mailbox_id == m);
                }
            }
        }
        assert forall|a: u64| #[trigger]
            after.contains_key(a) <==> state.contains_key(a) || (a == account_id && envelopes.len()
                > 0) by {
            assert(before.contains_key(a) <==> state.contains_key(a) || (a == account_id
                && earlier.len() > 0));
        }
    }
}

/// Of the recorded envelopes of an account, the last one for a message counts; a message
/// without an envelope is as before, and so is every other account. A mailbox and the account
/// get their levels with their first envelope.
pub proof fn law_last_envelope_counts(
    manager: &mut EnvelopeFlagsManager,
    account_id: u64,
    envelopes: &Vec<MinimalEnvelope>,
)
    requires
        call_ensures(
            EnvelopeFlagsManager::record_envelopes,
            (manager, account_id, envelopes),
            (),
        ),
    ensures
        forall|a: u64, m: u64, u: u32, h: u64|
            (a != account_id || forall|i: int|
                0 <= i < envelopes@.len() ==> (#[trigger] envelopes@[i]).mailbox_id != m
                    || envelopes@[i].uid != u) ==> (#[trigger] holds(
                final(manager)@,
                a,
                m,
                u,
                h,
            ) <==> holds(old(manager)@, a, m, u, h)),
        forall|i: int|
            0 <= i < envelopes@.len() && (forall|j: int|
                i < j < envelopes@.len() ==> (#[trigger] envelopes@[j]).mailbox_id
                    != envelopes@[i].mailbox_id || envelopes@[j].uid != envelopes@[i].uid)
                ==> holds(
                final(manager)@,
                account_id,
                (#[trigger] envelopes@[i]).mailbox_id,
                envelopes@[i].uid,
                envelopes@[i].flags_hash,
            ),
        forall|a: u64, m: u64| #[trigger]
            has_level(final(manager)@, a, m) <==> has_level(old(manager)@, a, m) || (a == account_id
                && exists|i: int|
                0 <= i < envelopes@.len() && (#[trigger] envelopes@[i]).mailbox_id == m),
        forall|a: u64| #[trigger]
            final(manager)@.contains_key(a) <==> old(manager)@.contains_key(a) || (a == account_id
                && envelopes@.len() > 0),
{
    lemma_recorded_all_holds(old(manager)@, account_id, envelopes@);
}

/// What comes of the enabled accounts of a list.
proof fn lemma_loadable(accounts: Seq<AccountModel>)
    ensures
        loadable(accounts) == accounts.filter(|account: AccountModel| account.enabled).map_values(
            |account: AccountModel| account.id,
        ),
        forall|id: u64| #[trigger]
            loadable(accounts).contains(id) <==> exists|i: int|
                0 <= i < accounts.len() && (#[trigger] accounts[i]).enabled && accounts[i].id == id,
    decreases accounts.len(),
{
    reveal(Seq::filter);
    let enabled = |account: AccountModel| account.enabled;
    let id_of = |account: AccountModel| account.id;
    if accounts.len() == 0 {
        assert(accounts.filter(enabled).map_values(id_of) =~= Seq::<u64>::empty());
    } else {
        let earlier = accounts.drop_last();
        let last = accounts.last();
        lemma_loadable(earlier);
        assert(earlier.filter(enabled).push(last).map_values(id_of) =~= earlier.filter(
            enabled,
        ).map_values(id_of).push(last.id));
        assert forall|id: u64| #[trigger]
            loadable(accounts).contains(id) <==> exists|i: int|
                0 <= i < accounts.len() && (#[trigger] accounts[i]).enabled && accounts[i].id
                    == id by {
            let ids = loadable(earlier);
            assert(last == accounts[accounts.len() - 1]);
            if loadable(accounts).contains(id) {
                let k = loadable(accounts).index_of(id);
                if k < ids.len() {
                    assert(ids[k] == id);
                    assert(ids.contains(id));
                    let i = choose|i: int|
                        0 <= i < earlier.len() && (#[trigger] earlier[i]).enabled && earlier[i].id
                            == id;
                    assert(accounts[i].enabled && accounts[i].id == id);
                }
            }
            if exists|i: int|
                0 <= i < accounts.len() && (#[trigger] accounts[i]).enabled && accounts[i].id
                    == id {
                let i = choose|i: int|
                    0 <= i < accounts.len() && (#[trigger] accounts[i]).enabled && accounts[i].id
                        == id;
                if i < earlier.len() {
                    assert(earlier[i].enabled && earlier[i].id == id);
                    assert(ids.contains(id));
                    let k = ids.index_of(id);
                    assert(loadable(accounts)[k] == id);
                } else {
                    assert(loadable(accounts)[ids.len() as int] == id);
                }
            }
        }
    }
}

/// An id is to be loaded exactly when it is that of an enabled account, whatever else the
/// account is like; there are as many ids as enabled accounts, in the order of the accounts.
pub proof fn law_every_enabled_account_is_loaded(accounts: &Vec<AccountModel>, ids: Vec<u64>)
    requires
        call_ensures(EnvelopeFlagsManager::accounts_to_load, (accounts,), ids),
    ensures
        forall|id: u64| #[trigger]
            ids@.contains(id) <==> exists|i: int|
                0 <= i < accounts@.len() && (#[trigger] accounts@[i]).enabled && accounts@[i].id
                    == id,
        ids@ == accounts@.filter(|account: AccountModel| account.enabled).map_values(
            |account: AccountModel| account.id,
        ),
{
    lemma_loadable(accounts@);
}

/// Loading a sequence of listings is loading its parts one after the other.
proof fn lemma_loaded_in_parts<E>(
    state: FlagsState,
    first: Seq<AccountListing<E>>,
    second: Seq<AccountListing<E>>,
)
    ensures
        loaded(state, first + second) == loaded(loaded(state, first), second),
        failed_listings(first + second) == failed_listings(first) + failed_listings(second),
    decreases second.len(),
{
    let all = first + second;
    if second.len() == 0 {
        assert(all =~= first);
        assert(failed_listings(first) + failed_listings(second) =~= failed_listings(first));
    } else {
        lemma_loaded_in_parts(state, first, second.drop_last());
        assert(all.drop_last() =~= first + second.drop_last());
        assert(all.last() == second.last());
        assert(failed_listings(all) =~= failed_listings(first) + failed_listings(second));
    }
}

/// Loading nothing changes nothing and fails nowhere. A single listing that failed changes
/// nothing and hands back its account; a single one that came is recorded as its envelopes
/// are, and hands back nothing.
pub proof fn law_one_listing_is_its_envelopes<E>(
    manager: &mut EnvelopeFlagsManager,
    listings: &Vec<AccountListing<E>>,
    failed: Vec<u64>,
    recorder: &mut EnvelopeFlagsManager,
    envelopes: &Vec<MinimalEnvelope>,
)
    requires
        call_ensures(EnvelopeFlagsManager::load_state::<E>, (manager, listings), failed),
        listings@.len() <= 1,
        *recorder == *manager,
        listings@.len() == 1 ==> call_ensures(
            EnvelopeFlagsManager::record_envelopes,
            (recorder, listings@[0].account_id, envelopes),
            (),
        ),
    ensures
        listings@.len() == 0 ==> final(manager)@ == old(manager)@ && failed@.len() == 0,
        listings@.len() == 1 && listings@[0].envelopes is Err ==> final(manager)@ == old(manager)@
            && failed@ == seq![listings@[0].account_id],
        listings@.len() == 1 && listings@[0].envelopes == Ok::<Vec<MinimalEnvelope>, E>(*envelopes)
            ==> final(manager)@ == final(recorder)@ && failed@.len() == 0,
{
    if listings@.len() == 1 {
        assert(listings@.drop_last() =~= seq![]);
        assert(loaded(old(manager)@, listings@.drop_last()) == old(manager)@);
        assert(failed_listings(listings@.drop_last()) == Seq::<u64>::empty());
        assert(listings@.last() == listings@[0]);
        assert(Seq::<u64>::empty().push(listings@[0].account_id)
            =~= seq![listings@[0].account_id]);
    }
}

/// Loading all listings at once is loading some of them first and then the rest.
pub proof fn law_listings_load_in_parts<E>(
    all: &mut EnvelopeFlagsManager,
    first: &mut EnvelopeFlagsManager,
    second: &mut EnvelopeFlagsManager,
    listings: &Vec<AccountListing<E>>,
    some: &Vec<AccountListing<E>>,
    rest: &Vec<AccountListing<E>>,
    failed: Vec<u64>,
    failed_some: Vec<u64>,
    failed_rest: Vec<u64>,
)
    requires
        listings@ == some@ + rest@,
        *first == *all,
        *second == *final(first),
        call_ensures(EnvelopeFlagsManager::load_state::<E>, (all, listings), failed),
        call_ensures(EnvelopeFlagsManager::load_state::<E>, (first, some), failed_some),
        call_ensures(EnvelopeFlagsManager::load_state::<E>, (second, rest), failed_rest),
    ensures
        final(all)@ == final(second)@,
        failed@ == failed_some@ + failed_rest@,
{
    lemma_loaded_in_parts(old(all)@, some@, rest@);
}

/// Dropping an account removes its level with all that it holds, leaves every other account,
/// and has the stores cleaned from the envelope store on.
pub proof fn law_clean_account_drops_one_level<E>(
    manager: &mut EnvelopeFlagsManager,
    account_id: u64,
    sweep: StoreSweep<E>,
)
    requires
        call_ensures(EnvelopeFlagsManager::clean_account::<E>, (manager, account_id), sweep),
    ensures
        forall|a: u64| #[trigger]
            final(manager)@.contains_key(a) <==> old(manager)@.contains_key(a) && a != account_id,
        forall|a: u64|
            a != account_id && old(manager)@.contains_key(a) ==> #[trigger] final(manager)@[a]
                == old(manager)@[a],
        sweep == StoreSweep::<E>::Cleaning(Store::Envelopes),
{
}

/// Dropping a mailbox removes its level with all that it holds, leaves every other mailbox and
/// every account level, and has the stores cleaned from the envelope store on.
pub proof fn law_clean_mailbox_drops_one_level<E>(
    manager: &mut EnvelopeFlagsManager,
    account_id: u64,
    mailbox_id: u64,
    sweep: StoreSweep<E>,
)
    requires
        call_ensures(
            EnvelopeFlagsManager::clean_mailbox::<E>,
            (manager, account_id, mailbox_id),
            sweep,
        ),
    ensures
        forall|a: u64| #[trigger]
            final(manager)@.contains_key(a) <==> old(manager)@.contains_key(a),
        forall|a: u64, m: u64| #[trigger]
            has_level(final(manager)@, a, m) <==> has_level(old(manager)@, a, m) && !(a
                == account_id && m == mailbox_id),
        forall|a: u64, m: u64, u: u32, h: u64| #[trigger]
            holds(final(manager)@, a, m, u, h) <==> holds(old(manager)@, a, m, u, h) && !(a
                == account_id && m == mailbox_id),
        sweep == StoreSweep::<E>::Cleaning(Store::Envelopes),
{
}

/// Draining takes exactly the given uids out of the mailbox and keeps every level. It tells
/// whether the mailbox is there and has no uid left.
pub proof fn law_drain_takes_uids_out(
    manager: &mut EnvelopeFlagsManager,
    account_id: u64,
    mailbox_id: u64,
    uids: &[u32],
    empty: bool,
)
    requires
        call_ensures(
            EnvelopeFlagsManager::drain_uids,
            (manager, account_id, mailbox_id, uids),
            empty,
        ),
    ensures
        forall|a: u64, m: u64, u: u32, h: u64| #[trigger]
            holds(final(manager)@, a, m, u, h) <==> holds(old(manager)@, a, m, u, h) && !(a
                == account_id && m == mailbox_id && uids@.contains(u)),
        forall|a: u64, m: u64| #[trigger]
            has_level(final(manager)@, a, m) <==> has_level(old(manager)@, a, m),
        forall|a: u64| #[trigger]
            final(manager)@.contains_key(a) <==> old(manager)@.contains_key(a),
        empty <==> has_level(old(manager)@, account_id, mailbox_id) && forall|u: u32, h: u64|
            #[trigger]
            holds(old(manager)@, account_id, mailbox_id, u, h) ==> uids@.contains(u),
{
    assert forall|u: u32| uids@.to_set().contains(u) == uids@.contains(u) by {}
    if has_level(old(manager)@, account_id, mailbox_id) {
        let before = old(manager)@[account_id][mailbox_id];
        let after = final(manager)@[account_id][mailbox_id];
        assert(after == before.remove_keys(uids@.to_set()));
        if empty {
            assert forall|u: u32, h: u64|
                holds(old(manager)@, account_id, mailbox_id, u, h) implies uids@.contains(u) by {
                assert(!after.contains_key(u));
            }
        } else if forall|u: u32, h: u64| #[trigger]
            holds(old(manager)@, account_id, mailbox_id, u, h) ==> uids@.contains(u) {
            assert forall|u: u32| !after.contains_key(u) by {
                if before.contains_key(u) {
                    assert(holds(old(manager)@, account_id, mailbox_id, u, before[u]));
                    assert(uids@.contains(u));
                }
            }
            assert(after =~= Map::empty());
        }
    }
}

/// Pruning takes out no entry. It removes the mailbox level exactly when that has no uid, and
/// the account level exactly when that is left without a mailbox.
pub proof fn law_prune_removes_empty_levels(
    manager: &mut EnvelopeFlagsManager,
    account_id: u64,
    mailbox_id: u64,
)
    requires
        call_ensures(
            EnvelopeFlagsManager::prune_drained,
            (manager, account_id, mailbox_id),
            (),
        ),
    ensures
        forall|a: u64, m: u64, u: u32, h: u64| #[trigger]
            holds(final(manager)@, a, m, u, h) <==> holds(old(manager)@, a, m, u, h),
        forall|a: u64, m: u64| #[trigger]
            has_level(final(manager)@, a, m) <==> has_level(old(manager)@, a, m) && (a != account_id
                || m != mailbox_id || exists|u: u32, h: u64| #[trigger]
                holds(old(manager)@, account_id, mailbox_id, u, h)),
        forall|a: u64| #[trigger]
            final(manager)@.contains_key(a) <==> old(manager)@.contains_key(a) && (a != account_id
                || exists|m: u64| #[trigger] has_level(final(manager)@, account_id, m)),
{
    lemma_pruned_levels(old(manager)@, account_id, mailbox_id);
}

/// What pruning makes of the levels.
proof fn lemma_pruned_levels(state: FlagsState, account_id: u64, mailbox_id: u64)
    ensures
        forall|a: u64, m: u64, u: u32, h: u64| #[trigger]
            holds(pruned(state, account_id, mailbox_id), a, m, u, h) <==> holds(state, a, m, u, h),
        forall|a: u64, m: u64| #[trigger]
            has_level(pruned(state, account_id, mailbox_id), a, m) <==> has_level(state, a, m) && (a
                != account_id || m != mailbox_id || exists|u: u32, h: u64| #[trigger]
                holds(state, account_id, mailbox_id, u, h)),
        forall|a: u64| #[trigger]
            pruned(state, account_id, mailbox_id).contains_key(a) <==> state.contains_key(a) && (a
                != account_id || exists|m: u64| #[trigger]
                has_level(pruned(state, account_id, mailbox_id), account_id, m)),
{
    let after = pruned(state, account_id, mailbox_id);
    if has_level(state, account_id, mailbox_id) {
        let uids = state[account_id][mailbox_id];
        if uids != no_uids() {
            assert(exists|u: u32, h: u64| #[trigger]
                holds(state, account_id, mailbox_id, u, h)) by {
                if forall|u: u32| !uids.contains_key(u) {
                    assert(uids =~= no_uids());
                }
                let u = choose|u: u32| uids.contains_key(u);
                assert(holds(state, account_id, mailbox_id, u, uids[u]));
            }
        }
    }
    assert forall|a: u64, m: u64| #[trigger]
        has_level(after, a, m) <==> has_level(state, a, m) && (a != account_id || m != mailbox_id
            || exists|u: u32, h: u64| #[trigger]
            holds(state, account_id, mailbox_id, u, h)) by {
        if a == account_id && has_level(state, a, m) {
            let middle = mailbox_pruned(state, account_id, mailbox_id);
            assert(middle.contains_key(account_id));
            if m != mailbox_id || !is_drained(state, account_id, mailbox_id) {
                assert(middle[account_id].contains_key(m));
                assert(middle[account_id] != no_mailboxes());
            }
        }
    }
    assert forall|a: u64, m: u64, u: u32, h: u64| #[trigger]
        holds(after, a, m, u, h) <==> holds(state, a, m, u, h) by {
        if holds(state, a, m, u, h) {
            assert(has_level(state, a, m));
            assert(has_level(after, a, m));
        }
    }
    assert forall|a: u64| #[trigger]
        after.contains_key(a) <==> state.contains_key(a) && (a != account_id || exists|m: u64|
        #[trigger] has_level(after, account_id, m)) by {
        if a == account_id && after.contains_key(a) {
            let left = after[a];
            assert(left != no_mailboxes());
            if forall|m: u64| !left.contains_key(m) {
                assert(left =~= no_mailboxes());
            }
            let m = choose|m: u64| left.contains_key(m);
            assert(has_level(after, account_id, m));
        }
    }
}

/// Cleaning takes exactly the given uids out of the mailbox. The mailbox level goes exactly
/// when the sync is a full one and no uid is left in it, and the account level goes with it
/// exactly when it was the account's last; no other level goes.
pub proof fn law_clean_flags_state_prunes_what_is_drained(
    manager: &mut EnvelopeFlagsManager,
    account_id: u64,
    mailbox_id: u64,
    uids: &[u32],
    full_sync: bool,
)
    requires
        call_ensures(
            EnvelopeFlagsManager::clean_flags_state,
            (manager, account_id, mailbox_id, uids, full_sync),
            (),
        ),
    ensures
        forall|a: u64, m: u64, u: u32, h: u64| #[trigger]
            holds(final(manager)@, a, m, u, h) <==> holds(old(manager)@, a, m, u, h) && !(a
                == account_id && m == mailbox_id && uids@.contains(u)),
        forall|a: u64, m: u64| #[trigger]
            has_level(final(manager)@, a, m) <==> has_level(old(manager)@, a, m) && (a != account_id
                || m != mailbox_id || !full_sync || exists|u: u32, h: u64| #[trigger]
                holds(old(manager)@, account_id, mailbox_id, u, h) && !uids@.contains(u)),
        forall|a: u64| #[trigger]
            final(manager)@.contains_key(a) <==> old(manager)@.contains_key(a) && (a != account_id
                || !has_level(old(manager)@, account_id, mailbox_id) || exists|m: u64| #[trigger]
                has_level(final(manager)@, account_id, m)),
{
    let state = old(manager)@;
    let rest = drained(state, account_id, mailbox_id, uids@);
    assert forall|u: u32| uids@.to_set().contains(u) == uids@.contains(u) by {}
    lemma_pruned_levels(rest, account_id, mailbox_id);
    assert forall|a: u64, m: u64, u: u32, h: u64| #[trigger]
        holds(rest, a, m, u, h) <==> holds(state, a, m, u, h) && !(a == account_id && m
            == mailbox_id && uids@.contains(u)) by {}
    assert forall|a: u64, m: u64| has_level(rest, a, m) == has_level(state, a, m) by {}
    assert forall|a: u64| rest.contains_key(a) == state.contains_key(a) by {}
    if exists|u: u32, h: u64| #[trigger] holds(rest, account_id, mailbox_id, u, h) {
        let (u, h) = choose|u: u32, h: u64| #[trigger] holds(rest, account_id, mailbox_id, u, h);
        assert(holds(state, account_id, mailbox_id, u, h) && !uids@.contains(u));
        assert(rest[account_id][mailbox_id].contains_key(u));
    }
    if exists|u: u32, h: u64| #[trigger]
        holds(state, account_id, mailbox_id, u, h) && !uids@.contains(u) {
        let (u, h) = choose|u: u32, h: u64| #[trigger]
            holds(state, account_id, mailbox_id, u, h) && !uids@.contains(u);
        assert(holds(rest, account_id, mailbox_id, u, h));
    }
    if has_level(state, account_id, mailbox_id) {
        if !is_drained(rest, account_id, mailbox_id) {
            let left = rest[account_id][mailbox_id];
            if forall|u: u32| !left.contains_key(u) {
                assert(left =~= no_uids());
            }
            let u = choose|u: u32| left.contains_key(u);
            assert(holds(rest, account_id, mailbox_id, u, left[u]));
        }
        if !(is_drained(rest, account_id, mailbox_id) && full_sync) {
            assert(final(manager)@ == rest);
            assert(has_level(rest, account_id, mailbox_id));
        }
    }
}

/// Envelopes are cleaned from the cache as the flags state is, once the stores are cleaned;
/// when a store has failed, the cache stays and the error is handed on.
pub proof fn law_clean_envelopes_waits_for_the_stores<E>(
    manager: &mut EnvelopeFlagsManager,
    direct: &mut EnvelopeFlagsManager,
    account_id: u64,
    mailbox_id: u64,
    uids: &[u32],
    full_sync: bool,
    swept: Result<(), E>,
    result: Result<(), E>,
)
    requires
        *direct == *manager,
        call_ensures(
            EnvelopeFlagsManager::clean_envelopes::<E>,
            (manager, account_id, mailbox_id, uids, full_sync, swept),
            result,
        ),
        call_ensures(
            EnvelopeFlagsManager::clean_flags_state,
            (direct, account_id, mailbox_id, uids, full_sync),
            (),
        ),
    ensures
        result == swept,
        swept is Ok ==> final(manager)@ == final(direct)@,
        swept is Err ==> final(manager)@ == old(manager)@,
{
}

/// An account is found exactly when it has a level.
pub proof fn law_account_is_found(manager: &EnvelopeFlagsManager, account_id: u64, found: bool)
    requires
        call_ensures(EnvelopeFlagsManager::has_account, (manager, account_id), found),
    ensures
        found <==> manager@.contains_key(account_id),
{
}

/// The largest uid has an entry and no uid with an entry is larger; there is none exactly when
/// the mailbox has no entry.
pub proof fn law_no_uid_is_above_the_max(
    manager: &EnvelopeFlagsManager,
    account_id: u64,
    mailbox_id: u64,
    max: Option<u32>,
)
    requires
        call_ensures(
            EnvelopeFlagsManager::get_max_uid,
            (manager, account_id, mailbox_id),
            max,
        ),
    ensures
        forall|u: u32, h: u64| #[trigger]
            holds(manager@, account_id, mailbox_id, u, h) ==> (max matches Some(largest) && u
                <= largest),
        max matches Some(largest) ==> exists|h: u64| #[trigger]
            holds(manager@, account_id, mailbox_id, largest, h),
{
    if let Some(largest) = max {
        assert(holds(
            manager@,
            account_id,
            mailbox_id,
            largest,
            manager@[account_id][mailbox_id][largest],
        ));
    }
    assert forall|u: u32, h: u64| #[trigger]
        holds(manager@, account_id, mailbox_id, u, h) implies (max matches Some(largest) && u
        <= largest) by {
        assert(manager@[account_id][mailbox_id].contains_key(u));
    }
}

/// For every bound, the map that is handed out has a uid exactly when that is not below the
/// bound and has an entry, and with the hash of that entry.
pub proof fn law_uid_map_hands_out_the_cached_hashes(
    manager: &EnvelopeFlagsManager,
    account_id: u64,
    mailbox_id: u64,
    min_uid: u32,
    result: AHashMap<u32, u64>,
)
    requires
        call_ensures(
            EnvelopeFlagsManager::get_uid_map,
            (manager, account_id, mailbox_id, min_uid),
            result,
        ),
    ensures
        forall|u: u32, h: u64| #[trigger]
            uid_map_entries(result).contains_pair(u, h) <==> u >= min_uid && holds(
                manager@,
                account_id,
                mailbox_id,
                u,
                h,
            ),
        forall|u: u32| #[trigger]
            uid_map_entries(result).get(u) == (if u < min_uid {
                None
            } else {
                cached_hash(manager@, account_id, mailbox_id, u)
            }),
{
}

/// What is read back after a message was recorded: its hash for the message itself, and what
/// was read before for every other message, from any bound on and in any mailbox.
pub proof fn law_read_gives_back_the_write(
    manager: &mut EnvelopeFlagsManager,
    account_id: u64,
    mailbox_id: u64,
    uid: u32,
    flags_hash: u64,
    a: u64,
    m: u64,
    min_uid: u32,
    before: AHashMap<u32, u64>,
    after: AHashMap<u32, u64>,
)
    requires
        call_ensures(EnvelopeFlagsManager::get_uid_map, (&*manager, a, m, min_uid), before),
        call_ensures(
            EnvelopeFlagsManager::update_flag_change,
            (manager, account_id, mailbox_id, uid, flags_hash),
            (),
        ),
        call_ensures(EnvelopeFlagsManager::get_uid_map, (&*final(manager), a, m, min_uid), after),
    ensures
        forall|u: u32| #[trigger]
            uid_map_entries(after).get(u) == (if a == account_id && m == mailbox_id && u == uid && u
                >= min_uid {
                Some(flags_hash)
            } else {
                uid_map_entries(before).get(u)
            }),
{
}

/// What is read back after uids were cleaned: nothing of those in their mailbox, and what was
/// read before for every other message, from any bound on and in any mailbox.
pub proof fn law_read_misses_the_cleaned(
    manager: &mut EnvelopeFlagsManager,
    account_id: u64,
    mailbox_id: u64,
    uids: &[u32],
    full_sync: bool,
    a: u64,
    m: u64,
    min_uid: u32,
    before: AHashMap<u32, u64>,
    after: AHashMap<u32, u64>,
)
    requires
        call_ensures(EnvelopeFlagsManager::get_uid_map, (&*manager, a, m, min_uid), before),
        call_ensures(
            EnvelopeFlagsManager::clean_flags_state,
            (manager, account_id, mailbox_id, uids, full_sync),
            (),
        ),
        call_ensures(EnvelopeFlagsManager::get_uid_map, (&*final(manager), a, m, min_uid), after),
    ensures
        forall|u: u32| #[trigger]
            uid_map_entries(after).get(u) == (if a == account_id && m == mailbox_id
                && uids@.contains(u) {
                None
            } else {
                uid_map_entries(before).get(u)
            }),
{
    law_clean_removes_exactly_the_uids(old(manager)@, account_id, mailbox_id, uids@, full_sync);
    assert forall|u: u32| #[trigger]
        uid_map_entries(after).get(u) == (if a == account_id && m == mailbox_id && uids@.contains(
            u,
        ) {
            None
        } else {
            uid_map_entries(before).get(u)
        }) by {
        assert(uid_map_entries(after).get(u) == (if u < min_uid {
            None
        } else {
            cached_hash(final(manager)@, a, m, u)
        }));
        assert(uid_map_entries(before).get(u) == (if u < min_uid {
            None
        } else {
            cached_hash(old(manager)@, a, m, u)
        }));
    }
}

/// The largest uid is the largest one of the map that is handed out from any bound that it
/// reaches, and no larger bound leaves anything in the map.
pub proof fn law_max_uid_agrees_with_the_map(
    manager: &EnvelopeFlagsManager,
    account_id: u64,
    mailbox_id: u64,
    min_uid: u32,
    max: Option<u32>,
    result: AHashMap<u32, u64>,
)
    requires
        call_ensures(
            EnvelopeFlagsManager::get_max_uid,
            (manager, account_id, mailbox_id),
            max,
        ),
        call_ensures(
            EnvelopeFlagsManager::get_uid_map,
            (manager, account_id, mailbox_id, min_uid),
            result,
        ),
    ensures
        forall|u: u32| #[trigger]
            uid_map_entries(result).contains_key(u) ==> (max matches Some(largest) && u <= largest),
        max matches Some(largest) ==> (uid_map_entries(result).contains_key(largest) <==> min_uid
            <= largest),
{
}

/// The uids of an account as pairs of mailbox and uid.
pub open spec fn uid_pairs(mailboxes: Map<u64, Map<u32, u64>>) -> Set<(u64, u32)> {
    Set::new(
        |pair: (u64, u32)|
            mailboxes.contains_key(pair.0) && mailboxes[pair.0].contains_key(pair.1),
    )
}

/// The pairs of one mailbox are as many as its uids.
proof fn lemma_pairs_of_one(id: u64, uids: Set<u32>)
    requires
        uids.finite(),
    ensures
        Set::new(|pair: (u64, u32)| pair.0 == id && uids.contains(pair.1)).finite(),
        Set::new(|pair: (u64, u32)| pair.0 == id && uids.contains(pair.1)).len() == uids.len(),
    decreases uids.len(),
{
    let pairs = Set::new(|pair: (u64, u32)| pair.0 == id && uids.contains(pair.1));
    if uids.len() == 0 {
        assert(uids =~= Set::empty());
        assert(pairs =~= Set::empty());
    } else {
        let uid = uids.choose();
        let fewer = uids.remove(uid);
        lemma_pairs_of_one(id, fewer);
        let less = Set::new(|pair: (u64, u32)| pair.0 == id && fewer.contains(pair.1));
        assert(pairs =~= less.insert((id, uid)));
        assert(!less.contains((id, uid)));
    }
}

/// The total is the number of pairs.
proof fn lemma_total_counts_pairs(mailboxes: Map<u64, Map<u32, u64>>)
    requires
        mailboxes.dom().finite(),
        forall|m: u64| #[trigger] mailboxes.contains_key(m) ==> mailboxes[m].dom().finite(),
    ensures
        uid_pairs(mailboxes).finite(),
        uid_pairs(mailboxes).len() == uid_total(mailboxes),
    decreases mailboxes.dom().len(),
{
    if mailboxes.dom().len() == 0 {
        assert(mailboxes.dom() =~= Set::empty());
        assert(uid_pairs(mailboxes) =~= Set::empty());
    } else {
        let id = mailboxes.dom().choose();
        let rest = mailboxes.remove(id);
        let uids = mailboxes[id].dom();
        lemma_total_counts_pairs(rest);
        lemma_pairs_of_one(id, uids);
        lemma_uid_total_remove(mailboxes, id);
        let own = Set::new(|pair: (u64, u32)| pair.0 == id && uids.contains(pair.1));
        assert(uid_pairs(mailboxes) =~= uid_pairs(rest).union(own));
        vstd::set_lib::lemma_set_disjoint_lens(uid_pairs(rest), own);
    }
}

/// The total of an account is the number of messages that have an entry in it, counted over
/// all its mailboxes, or `None` when a `usize` cannot hold it. A cache holds finitely many.
pub proof fn law_total_counts_the_entries(
    manager: &EnvelopeFlagsManager,
    account_id: u64,
    total: Option<usize>,
)
    requires
        call_ensures(EnvelopeFlagsManager::checked_account_uid_total, (manager, account_id), total),
        forall|m: u64| #[trigger]
            has_level(manager@, account_id, m) ==> manager@[account_id][m].dom().finite(),
    ensures
        ({
            let messages = Set::new(
                |pair: (u64, u32)|
                    has_level(manager@, account_id, pair.0)
                        && manager@[account_id][pair.0].contains_key(pair.1),
            );
            &&& messages.finite()
            &&& messages.len() <= usize::MAX ==> total == Some(messages.len() as usize)
            &&& messages.len() > usize::MAX ==> total is None
        }),
{
    let mailboxes = mailboxes_of(manager@, account_id);
    let messages = Set::new(
        |pair: (u64, u32)|
            has_level(manager@, account_id, pair.0)
                && manager@[account_id][pair.0].contains_key(pair.1),
    );
    assert forall|m: u64| #[trigger] mailboxes.contains_key(m) implies mailboxes[m].dom().finite() by {
        assert(has_level(manager@, account_id, m));
    }
    lemma_total_counts_pairs(mailboxes);
    assert(messages =~= uid_pairs(mailboxes));
}

/// The count is the total that does not overflow.
pub proof fn law_count_is_the_total(
    manager: &EnvelopeFlagsManager,
    account_id: u64,
    total: Option<usize>,
    count: usize,
)
    requires
        call_ensures(EnvelopeFlagsManager::checked_account_uid_total, (manager, account_id), total),
        call_ensures(EnvelopeFlagsManager::count_account_uid_total, (manager, account_id), count),
    ensures
        total == Some(count),
{
}

/// Every operation on the cache can be called with any arguments; the count whenever the total
/// does not overflow.
pub proof fn law_cache_takes_any_arguments<E>(
    manager: &mut EnvelopeFlagsManager,
    reader: &EnvelopeFlagsManager,
    account_id: u64,
    mailbox_id: u64,
    uid: u32,
    flags_hash: u64,
    uids: &[u32],
    full_sync: bool,
    swept: Result<(), E>,
    envelopes: &Vec<MinimalEnvelope>,
    accounts: &Vec<AccountModel>,
    listings: &Vec<AccountListing<E>>,
    total: usize,
)
    ensures
        call_requires(EnvelopeFlagsManager::new, ()),
        call_requires(
            EnvelopeFlagsManager::update_flag_change,
            (manager, account_id, mailbox_id, uid, flags_hash),
        ),
        call_requires(
            EnvelopeFlagsManager::record_envelopes,
            (manager, account_id, envelopes),
        ),
        call_requires(EnvelopeFlagsManager::accounts_to_load, (accounts,)),
        call_requires(EnvelopeFlagsManager::load_state::<E>, (manager, listings)),
        call_requires(EnvelopeFlagsManager::clean_account::<E>, (manager, account_id)),
        call_requires(EnvelopeFlagsManager::clean_mailbox::<E>, (manager, account_id, mailbox_id)),
        call_requires(
            EnvelopeFlagsManager::clean_envelopes::<E>,
            (manager, account_id, mailbox_id, uids, full_sync, swept),
        ),
        call_requires(EnvelopeFlagsManager::drain_uids, (manager, account_id, mailbox_id, uids)),
        call_requires(EnvelopeFlagsManager::prune_drained, (manager, account_id, mailbox_id)),
        call_requires(
            EnvelopeFlagsManager::clean_flags_state,
            (manager, account_id, mailbox_id, uids, full_sync),
        ),
        call_requires(EnvelopeFlagsManager::has_account, (reader, account_id)),
        call_requires(EnvelopeFlagsManager::get_max_uid, (reader, account_id, mailbox_id)),
        call_requires(EnvelopeFlagsManager::get_uid_map, (reader, account_id, mailbox_id, uid)),
        call_requires(EnvelopeFlagsManager::checked_account_uid_total, (reader, account_id)),
        call_ensures(
            EnvelopeFlagsManager::checked_account_uid_total,
            (reader, account_id),
            Some(total),
        ) ==> call_requires(EnvelopeFlagsManager::count_account_uid_total, (reader, account_id)),
{
}

} // verus!
