//! Laws of the flags state: what recording, cleaning, pruning and loading keep and change.
use crate::envelope::{AccountListing, MinimalEnvelope};
use crate::state::{
    account_uid_total, cached_hash, cleaned, drained, has_mailbox, is_drained, is_max_uid,
    lemma_uid_total_remove, listing_loaded, loaded, mailbox_dropped, mailboxes_of, pruned,
    recorded, recorded_all, uid_total, uids_from, uids_of, FlagsState,
};
use crate::store::{no_mailboxes, no_uids};
use vstd::prelude::*;

verus! {

/// The hash that was recorded for a message is the one that is cached for it, and recording it
/// changes what is cached for no other message.
pub proof fn law_recorded_hash_is_cached(
    state: FlagsState,
    account_id: u64,
    mailbox_id: u64,
    uid: u32,
    flags_hash: u64,
)
    ensures
        cached_hash(
            recorded(state, account_id, mailbox_id, uid, flags_hash),
            account_id,
            mailbox_id,
            uid,
        ) == Some(flags_hash),
        forall|a: u64, m: u64, u: u32|
            (a, m, u) != (account_id, mailbox_id, uid) ==> #[trigger] cached_hash(
                recorded(state, account_id, mailbox_id, uid, flags_hash),
                a,
                m,
                u,
            ) == cached_hash(state, a, m, u),
{
}

/// Of two hashes recorded for one message, the last one counts.
pub proof fn law_last_record_counts(
    state: FlagsState,
    account_id: u64,
    mailbox_id: u64,
    uid: u32,
    first: u64,
    last: u64,
)
    ensures
        recorded(
            recorded(state, account_id, mailbox_id, uid, first),
            account_id,
            mailbox_id,
            uid,
            last,
        ) == recorded(state, account_id, mailbox_id, uid, last),
{
    let once = recorded(state, account_id, mailbox_id, uid, first);
    let twice = recorded(once, account_id, mailbox_id, uid, last);
    let direct = recorded(state, account_id, mailbox_id, uid, last);
    assert(twice[account_id][mailbox_id] =~= direct[account_id][mailbox_id]);
    assert(twice[account_id] =~= direct[account_id]);
    assert(twice =~= direct);
}

/// The order in which the hashes of two messages are recorded does not matter.
pub proof fn law_records_commute(
    state: FlagsState,
    a1: u64,
    m1: u64,
    u1: u32,
    h1: u64,
    a2: u64,
    m2: u64,
    u2: u32,
    h2: u64,
)
    requires
        (a1, m1, u1) != (a2, m2, u2),
    ensures
        recorded(recorded(state, a1, m1, u1, h1), a2, m2, u2, h2) == recorded(
            recorded(state, a2, m2, u2, h2),
            a1,
            m1,
            u1,
            h1,
        ),
{
    let left = recorded(recorded(state, a1, m1, u1, h1), a2, m2, u2, h2);
    let right = recorded(recorded(state, a2, m2, u2, h2), a1, m1, u1, h1);
    assert(left[a1][m1] =~= right[a1][m1]);
    assert(left[a2][m2] =~= right[a2][m2]);
    assert(left[a1] =~= right[a1]);
    assert(left[a2] =~= right[a2]);
    assert(left =~= right);
}

/// Draining a mailbox, and cleaning it after a full sync or any other, takes exactly the given
/// uids out of the cache.
pub proof fn law_clean_removes_exactly_the_uids(
    state: FlagsState,
    account_id: u64,
    mailbox_id: u64,
    uids: Seq<u32>,
    full_sync: bool,
)
    ensures
        forall|a: u64, m: u64, u: u32| #[trigger]
            cached_hash(cleaned(state, account_id, mailbox_id, uids, full_sync), a, m, u) == (if a
                == account_id && m == mailbox_id && uids.contains(u) {
                None
            } else {
                cached_hash(state, a, m, u)
            }),
{
    let rest = drained(state, account_id, mailbox_id, uids);
    law_prune_keeps_hashes(rest, account_id, mailbox_id);
    assert forall|a: u64, m: u64, u: u32| #[trigger]
        cached_hash(cleaned(state, account_id, mailbox_id, uids, full_sync), a, m, u) == (if a
            == account_id && m == mailbox_id && uids.contains(u) {
            None
        } else {
            cached_hash(state, a, m, u)
        }) by {
        assert(uids.to_set().contains(u) == uids.contains(u));
        assert(cached_hash(pruned(rest, account_id, mailbox_id), a, m, u) == cached_hash(
            rest,
            a,
            m,
            u,
        ));
    }
}

/// Pruning, in whatever state, takes no hash out of the cache.
pub proof fn law_prune_keeps_hashes(state: FlagsState, account_id: u64, mailbox_id: u64)
    ensures
        forall|a: u64, m: u64, u: u32| #[trigger]
            cached_hash(pruned(state, account_id, mailbox_id), a, m, u) == cached_hash(
                state,
                a,
                m,
                u,
            ),
{
}

/// A message that is recorded in the mailbox between draining and pruning keeps the mailbox and
/// the account: the pruning changes nothing.
pub proof fn law_late_record_survives_prune(
    state: FlagsState,
    account_id: u64,
    mailbox_id: u64,
    uids: Seq<u32>,
    uid: u32,
    flags_hash: u64,
)
    ensures
        pruned(
            recorded(
                drained(state, account_id, mailbox_id, uids),
                account_id,
                mailbox_id,
                uid,
                flags_hash,
            ),
            account_id,
            mailbox_id,
        ) == recorded(
            drained(state, account_id, mailbox_id, uids),
            account_id,
            mailbox_id,
            uid,
            flags_hash,
        ),
{
    let rest = drained(state, account_id, mailbox_id, uids);
    let late = recorded(rest, account_id, mailbox_id, uid, flags_hash);
    assert(late[account_id][mailbox_id].contains_key(uid));
    assert(late[account_id].contains_key(mailbox_id));
    assert(late[account_id] != no_mailboxes());
}

/// A full sync that takes the last uids out of a mailbox removes the mailbox level, and the
/// account level exactly when the mailbox was the account's last.
pub proof fn law_full_drain_prunes(
    state: FlagsState,
    account_id: u64,
    mailbox_id: u64,
    uids: Seq<u32>,
)
    requires
        has_mailbox(state, account_id, mailbox_id),
        forall|u: u32| #[trigger]
            uids_of(state, account_id, mailbox_id).contains_key(u) ==> uids.contains(u),
    ensures
        !has_mailbox(cleaned(state, account_id, mailbox_id, uids, true), account_id, mailbox_id),
        mailboxes_of(cleaned(state, account_id, mailbox_id, uids, true), account_id)
            == state[account_id].remove(mailbox_id),
        cleaned(state, account_id, mailbox_id, uids, true).contains_key(account_id) <==> exists|
            m: u64,
        |
            m != mailbox_id && #[trigger] has_mailbox(state, account_id, m),
{
    let rest = drained(state, account_id, mailbox_id, uids);
    assert forall|u: u32| !rest[account_id][mailbox_id].contains_key(u) by {
        if uids_of(state, account_id, mailbox_id).contains_key(u) {
            assert(uids.to_set().contains(u));
        }
    }
    assert(rest[account_id][mailbox_id] =~= no_uids());
    assert(is_drained(rest, account_id, mailbox_id));
    let after = cleaned(state, account_id, mailbox_id, uids, true);
    let left = state[account_id].remove(mailbox_id);
    assert(rest[account_id].remove(mailbox_id) =~= left);
    assert(mailboxes_of(after, account_id) =~= left);
    if left != no_mailboxes() {
        assert(exists|m: u64| left.contains_key(m)) by {
            if forall|m: u64| !left.contains_key(m) {
                assert(left =~= no_mailboxes());
            }
        }
        let m = choose|m: u64| left.contains_key(m);
        assert(has_mailbox(state, account_id, m));
        assert(after.contains_key(account_id));
    } else {
        assert forall|m: u64| m != mailbox_id implies !#[trigger] has_mailbox(
            state,
            account_id,
            m,
        ) by {
            assert(!left.contains_key(m));
        }
        assert(!after.contains_key(account_id));
    }
}

/// Without a full sync, or while a uid is left in the mailbox, cleaning removes no level.
pub proof fn law_partial_clean_keeps_levels(
    state: FlagsState,
    account_id: u64,
    mailbox_id: u64,
    uids: Seq<u32>,
    full_sync: bool,
)
    requires
        !full_sync || exists|u: u32|
            !uids.contains(u) && #[trigger] uids_of(state, account_id, mailbox_id).contains_key(u),
    ensures
        cleaned(state, account_id, mailbox_id, uids, full_sync).dom() == state.dom(),
        forall|a: u64, m: u64| #[trigger]
            has_mailbox(cleaned(state, account_id, mailbox_id, uids, full_sync), a, m)
                == has_mailbox(state, a, m),
{
    let rest = drained(state, account_id, mailbox_id, uids);
    if full_sync {
        let u = choose|u: u32|
            !uids.contains(u) && #[trigger] uids_of(state, account_id, mailbox_id).contains_key(u);
        assert(!uids.to_set().contains(u));
        assert(rest[account_id][mailbox_id].contains_key(u));
        assert(!is_drained(rest, account_id, mailbox_id));
    }
    assert(rest.dom() =~= state.dom());
}

/// Cleaning a mailbox leaves the other mailboxes of the account as they are, and other accounts
/// too.
pub proof fn law_clean_leaves_others_alone(
    state: FlagsState,
    account_id: u64,
    mailbox_id: u64,
    uids: Seq<u32>,
    full_sync: bool,
)
    ensures
        forall|m: u64|
            m != mailbox_id ==> {
                &&& #[trigger] has_mailbox(
                    cleaned(state, account_id, mailbox_id, uids, full_sync),
                    account_id,
                    m,
                ) == has_mailbox(state, account_id, m)
                &&& uids_of(
                    cleaned(state, account_id, mailbox_id, uids, full_sync),
                    account_id,
                    m,
                ) == uids_of(state, account_id, m)
            },
        forall|a: u64|
            a != account_id ==> #[trigger] cleaned(
                state,
                account_id,
                mailbox_id,
                uids,
                full_sync,
            ).get(a) == state.get(a),
{
}

/// Cleaning a second time changes nothing.
pub proof fn law_clean_twice_is_once(
    state: FlagsState,
    account_id: u64,
    mailbox_id: u64,
    uids: Seq<u32>,
    full_sync: bool,
)
    ensures
        cleaned(
            cleaned(state, account_id, mailbox_id, uids, full_sync),
            account_id,
            mailbox_id,
            uids,
            full_sync,
        ) == cleaned(state, account_id, mailbox_id, uids, full_sync),
{
    let rest = drained(state, account_id, mailbox_id, uids);
    let once = cleaned(state, account_id, mailbox_id, uids, full_sync);
    if has_mailbox(once, account_id, mailbox_id) {
        assert(once == rest);
        assert(rest[account_id][mailbox_id].remove_keys(uids.to_set())
            =~= rest[account_id][mailbox_id]);
        assert(rest[account_id].insert(mailbox_id, rest[account_id][mailbox_id])
            =~= rest[account_id]);
        assert(drained(once, account_id, mailbox_id, uids) =~= once);
    }
}

/// Dropping an account takes every message of it out of the cache, and no other.
pub proof fn law_dropped_account_is_gone(state: FlagsState, account_id: u64)
    ensures
        forall|a: u64, m: u64, u: u32| #[trigger]
            cached_hash(state.remove(account_id), a, m, u) == (if a == account_id {
                None
            } else {
                cached_hash(state, a, m, u)
            }),
{
}

/// Dropping a mailbox takes every message of it out of the cache, and no other, and removes no
/// account level.
pub proof fn law_dropped_mailbox_is_gone(state: FlagsState, account_id: u64, mailbox_id: u64)
    ensures
        !has_mailbox(mailbox_dropped(state, account_id, mailbox_id), account_id, mailbox_id),
        mailbox_dropped(state, account_id, mailbox_id).dom() == state.dom(),
        forall|a: u64, m: u64, u: u32| #[trigger]
            cached_hash(mailbox_dropped(state, account_id, mailbox_id), a, m, u) == (if a
                == account_id && m == mailbox_id {
                None
            } else {
                cached_hash(state, a, m, u)
            }),
{
    assert(mailbox_dropped(state, account_id, mailbox_id).dom() =~= state.dom());
}

/// A mailbox has at most one largest uid; from it on there is no other uid; and there is none
/// exactly when the map of all uids is empty.
pub proof fn law_max_uid_is_the_last(uids: Map<u32, u64>, max: Option<u32>, other: Option<u32>)
    requires
        is_max_uid(uids, max),
        is_max_uid(uids, other),
    ensures
        max == other,
        max is None <==> uids_from(uids, 0) == no_uids(),
        max matches Some(largest) ==> uids_from(uids, largest).dom() == set![largest],
{
    assert(uids_from(uids, 0) =~= uids);
    if let Some(largest) = max {
        assert(uids.contains_key(largest));
        assert(uids_from(uids, largest).dom() =~= set![largest]);
    }
}

/// Recording a uid leaves the larger of it and the largest one before as the largest one.
pub proof fn law_record_raises_max_uid(
    uids: Map<u32, u64>,
    max: Option<u32>,
    uid: u32,
    flags_hash: u64,
)
    requires
        is_max_uid(uids, max),
    ensures
        is_max_uid(
            uids.insert(uid, flags_hash),
            Some(
                match max {
                    Some(largest) => if largest > uid {
                        largest
                    } else {
                        uid
                    },
                    None => uid,
                },
            ),
        ),
{
    if max is None {
        assert forall|u: u32| #[trigger] uids.insert(uid, flags_hash).contains_key(u) implies u
            <= uid by {
            assert(uids.contains_key(u) ==> no_uids().contains_key(u));
        }
    }
}

/// The uids from a bound on are those from any lower bound that reach it; all of them are there
/// from zero on.
pub proof fn law_uid_map_narrows(uids: Map<u32, u64>, low: u32, high: u32)
    requires
        low <= high,
    ensures
        uids_from(uids_from(uids, low), high) == uids_from(uids, high),
        uids_from(uids, 0) == uids,
{
    assert(uids_from(uids_from(uids, low), high) =~= uids_from(uids, high));
    assert(uids_from(uids, 0) =~= uids);
}

/// Recording raises the number of uids of the account by one if the message was not cached, and
/// else leaves it.
pub proof fn law_record_counts_new_uids(
    state: FlagsState,
    account_id: u64,
    mailbox_id: u64,
    uid: u32,
    flags_hash: u64,
)
    requires
        mailboxes_of(state, account_id).dom().finite(),
        uids_of(state, account_id, mailbox_id).dom().finite(),
    ensures
        account_uid_total(recorded(state, account_id, mailbox_id, uid, flags_hash), account_id)
            == account_uid_total(state, account_id) + (if cached_hash(
            state,
            account_id,
            mailbox_id,
            uid,
        ) is None {
            1nat
        } else {
            0nat
        }),
{
    let before = mailboxes_of(state, account_id);
    let uids = uids_of(state, account_id, mailbox_id);
    let after = before.insert(mailbox_id, uids.insert(uid, flags_hash));
    assert(mailboxes_of(
        recorded(state, account_id, mailbox_id, uid, flags_hash),
        account_id,
    ) == after);
    lemma_uid_total_remove(after, mailbox_id);
    if before.contains_key(mailbox_id) {
        lemma_uid_total_remove(before, mailbox_id);
        assert(after.remove(mailbox_id) =~= before.remove(mailbox_id));
    } else {
        assert(after.remove(mailbox_id) =~= before);
        assert(uids.dom() =~= Set::<u32>::empty());
    }
}

/// Cleaning lowers the number of uids of the account by as many as were taken out of the
/// mailbox, whether or not levels are removed with them.
pub proof fn law_clean_counts_removed_uids(
    state: FlagsState,
    account_id: u64,
    mailbox_id: u64,
    uids: Seq<u32>,
    full_sync: bool,
)
    requires
        mailboxes_of(state, account_id).dom().finite(),
        uids_of(state, account_id, mailbox_id).dom().finite(),
    ensures
        account_uid_total(cleaned(state, account_id, mailbox_id, uids, full_sync), account_id)
            + uids_of(state, account_id, mailbox_id).dom().intersect(uids.to_set()).len()
            == account_uid_total(state, account_id),
{
    let before = mailboxes_of(state, account_id);
    let old_uids = uids_of(state, account_id, mailbox_id);
    if !has_mailbox(state, account_id, mailbox_id) {
        assert(old_uids.dom().intersect(uids.to_set()) =~= Set::<u32>::empty());
    } else {
        let new_uids = old_uids.remove_keys(uids.to_set());
        let rest = before.insert(mailbox_id, new_uids);
        lemma_uid_total_remove(before, mailbox_id);
        lemma_uid_total_remove(rest, mailbox_id);
        assert(rest.remove(mailbox_id) =~= before.remove(mailbox_id));
        let taken = old_uids.dom().intersect(uids.to_set());
        assert(new_uids.dom() =~= old_uids.dom().difference(taken));
        assert(old_uids.dom() =~= new_uids.dom().union(taken));
        vstd::set_lib::lemma_set_disjoint_lens(new_uids.dom(), taken);
        let after = mailboxes_of(
            cleaned(state, account_id, mailbox_id, uids, full_sync),
            account_id,
        );
        if is_drained(drained(state, account_id, mailbox_id, uids), account_id, mailbox_id)
            && full_sync {
            assert(after =~= rest.remove(mailbox_id));
            assert(new_uids.dom() =~= Set::<u32>::empty());
        } else {
            assert(after =~= rest);
        }
    }
}

/// Recording envelopes of one account leaves the others alone.
proof fn lemma_recorded_all_elsewhere(
    state: FlagsState,
    account_id: u64,
    envelopes: Seq<MinimalEnvelope>,
    other_id: u64,
)
    requires
        account_id != other_id,
    ensures
        recorded_all(state, account_id, envelopes).get(other_id) == state.get(other_id),
    decreases envelopes.len(),
{
    if envelopes.len() > 0 {
        lemma_recorded_all_elsewhere(state, account_id, envelopes.drop_last(), other_id);
    }
}

/// What recording envelopes makes of their account depends on that account alone.
proof fn lemma_recorded_all_here(
    state: FlagsState,
    other: FlagsState,
    account_id: u64,
    envelopes: Seq<MinimalEnvelope>,
)
    requires
        state.get(account_id) == other.get(account_id),
    ensures
        recorded_all(state, account_id, envelopes).get(account_id) == recorded_all(
            other,
            account_id,
            envelopes,
        ).get(account_id),
    decreases envelopes.len(),
{
    if envelopes.len() > 0 {
        lemma_recorded_all_here(state, other, account_id, envelopes.drop_last());
    }
}

/// Whether no two listings are for one account.
pub open spec fn one_listing_each<E>(listings: Seq<AccountListing<E>>) -> bool {
    forall|i: int, j: int|
        0 <= i < j < listings.len() ==> (#[trigger] listings[i]).account_id != (
        #[trigger] listings[j]).account_id
}

/// An account without a listing is as it was.
pub proof fn law_unlisted_account_stays<E>(
    state: FlagsState,
    listings: Seq<AccountListing<E>>,
    account_id: u64,
)
    requires
        forall|i: int|
            0 <= i < listings.len() ==> (#[trigger] listings[i]).account_id != account_id
                || listings[i].envelopes is Err,
    ensures
        loaded(state, listings).get(account_id) == state.get(account_id),
    decreases listings.len(),
{
    if listings.len() > 0 {
        assert forall|i: int| 0 <= i < listings.len() - 1 implies (
        #[trigger] listings.drop_last()[i]).account_id != account_id
            || listings.drop_last()[i].envelopes is Err by {
            assert(listings[i].account_id != account_id || listings[i].envelopes is Err);
        }
        law_unlisted_account_stays(state, listings.drop_last(), account_id);
        let last = listings.last();
        assert(last == listings[listings.len() - 1]);
        if let Ok(envelopes) = last.envelopes {
            lemma_recorded_all_elsewhere(
                loaded(state, listings.drop_last()),
                last.account_id,
                envelopes@,
                account_id,
            );
        }
    }
}

/// An account with one listing is as if that had been the only one.
pub proof fn law_listed_account_is_loaded<E>(
    state: FlagsState,
    listings: Seq<AccountListing<E>>,
    i: int,
)
    requires
        one_listing_each(listings),
        0 <= i < listings.len(),
    ensures
        loaded(state, listings).get(listings[i].account_id) == listing_loaded(
            state,
            listings[i],
        ).get(listings[i].account_id),
    decreases listings.len(),
{
    let earlier = listings.drop_last();
    let last = listings.last();
    let account_id = listings[i].account_id;
    let before = loaded(state, earlier);
    assert forall|j: int, k: int| 0 <= j < k < earlier.len() implies (
    #[trigger] earlier[j]).account_id != (#[trigger] earlier[k]).account_id by {
        assert(listings[j].account_id != listings[k].account_id);
    }
    if i == listings.len() - 1 {
        assert forall|j: int| 0 <= j < earlier.len() implies (#[trigger] earlier[j]).account_id
            != account_id || earlier[j].envelopes is Err by {
            assert(listings[j].account_id != listings[i].account_id);
        }
        law_unlisted_account_stays(state, earlier, account_id);
        if let Ok(envelopes) = last.envelopes {
            lemma_recorded_all_here(before, state, account_id, envelopes@);
        }
    } else {
        law_listed_account_is_loaded(state, earlier, i);
        assert(listings[i].account_id != listings[listings.len() - 1].account_id);
        if let Ok(envelopes) = last.envelopes {
            lemma_recorded_all_elsewhere(before, last.account_id, envelopes@, account_id);
        }
    }
}

/// The order in which the accounts are loaded does not matter.
pub proof fn law_load_order_does_not_matter<E>(
    state: FlagsState,
    listings: Seq<AccountListing<E>>,
    reordered: Seq<AccountListing<E>>,
)
    requires
        one_listing_each(listings),
        one_listing_each(reordered),
        listings.to_set() == reordered.to_set(),
    ensures
        loaded(state, listings) == loaded(state, reordered),
{
    let left = loaded(state, listings);
    let right = loaded(state, reordered);
    assert forall|a: u64| left.get(a) == right.get(a) by {
        if exists|i: int| 0 <= i < listings.len() && (#[trigger] listings[i]).account_id == a {
            let i = choose|i: int|
                0 <= i < listings.len() && (#[trigger] listings[i]).account_id == a;
            law_listed_account_is_loaded(state, listings, i);
            assert(listings.to_set().contains(listings[i]));
            let j = reordered.index_of(listings[i]);
            assert(reordered.to_set().contains(listings[i]));
            law_listed_account_is_loaded(state, reordered, j);
        } else {
            law_unlisted_account_stays(state, listings, a);
            assert forall|j: int| 0 <= j < reordered.len() implies (
            #[trigger] reordered[j]).account_id != a || reordered[j].envelopes is Err by {
                assert(reordered.to_set().contains(reordered[j]));
                let i = listings.index_of(reordered[j]);
                assert(listings.to_set().contains(reordered[j]));
                assert(listings[i].account_id != a);
            }
            law_unlisted_account_stays(state, reordered, a);
        }
    }
    assert forall|a: u64| left.contains_key(a) == right.contains_key(a) by {
        assert(left.get(a) == right.get(a));
    }
    assert forall|a: u64| left.contains_key(a) implies left[a] == right[a] by {
        assert(left.get(a) == right.get(a));
    }
    assert(left =~= right);
}

} // verus!
