//! The flags state as a mathematical value, and what each operation makes of it.
use crate::account::AccountModel;
use crate::envelope::{AccountListing, MinimalEnvelope};
use crate::store::{no_mailboxes, no_uids};
use vstd::prelude::*;

verus! {

/// Account id to mailbox id to uid to flags hash.
pub type FlagsState = Map<u64, Map<u64, Map<u32, u64>>>;

/// The mailboxes of an account; none for an account that is not there.
pub open spec fn mailboxes_of(state: FlagsState, account_id: u64) -> Map<u64, Map<u32, u64>> {
    if state.contains_key(account_id) {
        state[account_id]
    } else {
        no_mailboxes()
    }
}

/// Whether the mailbox has a level of its own, with or without uids.
pub open spec fn has_mailbox(state: FlagsState, account_id: u64, mailbox_id: u64) -> bool {
    mailboxes_of(state, account_id).contains_key(mailbox_id)
}

/// The uids of a mailbox; none for a mailbox that is not there.
pub open spec fn uids_of(state: FlagsState, account_id: u64, mailbox_id: u64) -> Map<u32, u64> {
    if has_mailbox(state, account_id, mailbox_id) {
        state[account_id][mailbox_id]
    } else {
        no_uids()
    }
}

/// The flags hash that is cached for a message, if any.
pub open spec fn cached_hash(
    state: FlagsState,
    account_id: u64,
    mailbox_id: u64,
    uid: u32,
) -> Option<u64> {
    uids_of(state, account_id, mailbox_id).get(uid)
}

/// The state after a flags hash was recorded; missing levels are created.
pub open spec fn recorded(
    state: FlagsState,
    account_id: u64,
    mailbox_id: u64,
    uid: u32,
    flags_hash: u64,
) -> FlagsState {
    state.insert(
        account_id,
        mailboxes_of(state, account_id).insert(
            mailbox_id,
            uids_of(state, account_id, mailbox_id).insert(uid, flags_hash),
        ),
    )
}

/// The state after the envelopes of an account were recorded, first to last.
pub open spec fn recorded_all(
    state: FlagsState,
    account_id: u64,
    envelopes: Seq<MinimalEnvelope>,
) -> FlagsState
    decreases envelopes.len(),
{
    if envelopes.len() == 0 {
        state
    } else {
        let last = envelopes.last();
        recorded(
            recorded_all(state, account_id, envelopes.drop_last()),
            account_id,
            last.mailbox_id,
            last.uid,
            last.flags_hash,
        )
    }
}

/// The ids of the accounts whose envelopes are to be loaded: those that are enabled.
pub open spec fn loadable(accounts: Seq<AccountModel>) -> Seq<u64>
    decreases accounts.len(),
{
    if accounts.len() == 0 {
        seq![]
    } else {
        let earlier = loadable(accounts.drop_last());
        if accounts.last().enabled {
            earlier.push(accounts.last().id)
        } else {
            earlier
        }
    }
}

/// The state after what was listed for one account was recorded; a failed listing changes
/// nothing.
pub open spec fn listing_loaded<E>(state: FlagsState, listing: AccountListing<E>) -> FlagsState {
    match listing.envelopes {
        Ok(envelopes) => recorded_all(state, listing.account_id, envelopes@),
        Err(_) => state,
    }
}

/// The state after the listings were recorded, first to last.
pub open spec fn loaded<E>(state: FlagsState, listings: Seq<AccountListing<E>>) -> FlagsState
    decreases listings.len(),
{
    if listings.len() == 0 {
        state
    } else {
        listing_loaded(loaded(state, listings.drop_last()), listings.last())
    }
}

/// The ids of the accounts whose listing failed, in the order of the listings.
pub open spec fn failed_listings<E>(listings: Seq<AccountListing<E>>) -> Seq<u64>
    decreases listings.len(),
{
    if listings.len() == 0 {
        seq![]
    } else {
        let earlier = failed_listings(listings.drop_last());
        if listings.last().envelopes is Err {
            earlier.push(listings.last().account_id)
        } else {
            earlier
        }
    }
}

/// The state after uids were taken out of a mailbox. No level is removed.
pub open spec fn drained(
    state: FlagsState,
    account_id: u64,
    mailbox_id: u64,
    uids: Seq<u32>,
) -> FlagsState {
    if has_mailbox(state, account_id, mailbox_id) {
        state.insert(
            account_id,
            state[account_id].insert(
                mailbox_id,
                state[account_id][mailbox_id].remove_keys(uids.to_set()),
            ),
        )
    } else {
        state
    }
}

/// Whether the mailbox is there and holds no uid.
pub open spec fn is_drained(state: FlagsState, account_id: u64, mailbox_id: u64) -> bool {
    has_mailbox(state, account_id, mailbox_id) && state[account_id][mailbox_id] == no_uids()
}

/// The state without the mailbox level, if that holds no uid.
pub open spec fn mailbox_pruned(state: FlagsState, account_id: u64, mailbox_id: u64) -> FlagsState {
    if is_drained(state, account_id, mailbox_id) {
        state.insert(account_id, state[account_id].remove(mailbox_id))
    } else {
        state
    }
}

/// The state without the account level, if that holds no mailbox.
pub open spec fn account_pruned(state: FlagsState, account_id: u64) -> FlagsState {
    if state.contains_key(account_id) && state[account_id] == no_mailboxes() {
        state.remove(account_id)
    } else {
        state
    }
}

/// The state after the mailbox level and then the account level were pruned.
pub open spec fn pruned(state: FlagsState, account_id: u64, mailbox_id: u64) -> FlagsState {
    account_pruned(mailbox_pruned(state, account_id, mailbox_id), account_id)
}

/// The state after uids were deleted: a full sync that leaves the mailbox without uids also
/// removes the levels that have become empty.
pub open spec fn cleaned(
    state: FlagsState,
    account_id: u64,
    mailbox_id: u64,
    uids: Seq<u32>,
    full_sync: bool,
) -> FlagsState {
    let rest = drained(state, account_id, mailbox_id, uids);
    if is_drained(rest, account_id, mailbox_id) && full_sync {
        pruned(rest, account_id, mailbox_id)
    } else {
        rest
    }
}

/// The state after a mailbox was dropped with its uids. The account level stays.
pub open spec fn mailbox_dropped(
    state: FlagsState,
    account_id: u64,
    mailbox_id: u64,
) -> FlagsState {
    if state.contains_key(account_id) {
        state.insert(account_id, state[account_id].remove(mailbox_id))
    } else {
        state
    }
}

/// The uids of a mailbox that are at least `min_uid`.
pub open spec fn uids_from(uids: Map<u32, u64>, min_uid: u32) -> Map<u32, u64> {
    Map::new(|uid: u32| uids.contains_key(uid) && uid >= min_uid, |uid: u32| uids[uid])
}

/// Whether `max` is the largest uid, or `None` when there is no uid.
pub open spec fn is_max_uid(uids: Map<u32, u64>, max: Option<u32>) -> bool {
    match max {
        Some(largest) => uids.contains_key(largest) && forall|uid: u32| #[trigger]
            uids.contains_key(uid) ==> uid <= largest,
        None => uids == no_uids(),
    }
}

/// The number of uids over all of finitely many mailboxes.
pub open spec fn uid_total(mailboxes: Map<u64, Map<u32, u64>>) -> nat
    decreases mailboxes.dom().len(),
    when mailboxes.dom().finite()
{
    if mailboxes.dom().len() == 0 {
        0
    } else {
        let id = mailboxes.dom().choose();
        mailboxes[id].len() + uid_total(mailboxes.remove(id))
    }
}

/// Taking any one mailbox out lowers the total by what that mailbox holds.
pub proof fn lemma_uid_total_remove(mailboxes: Map<u64, Map<u32, u64>>, id: u64)
    requires
        mailboxes.dom().finite(),
        mailboxes.contains_key(id),
    ensures
        uid_total(mailboxes) == mailboxes[id].len() + uid_total(mailboxes.remove(id)),
    decreases mailboxes.dom().len(),
{
    let first = mailboxes.dom().choose();
    if first != id {
        lemma_uid_total_remove(mailboxes.remove(first), id);
        lemma_uid_total_remove(mailboxes.remove(id), first);
        assert(mailboxes.remove(first).remove(id) =~= mailboxes.remove(id).remove(first));
    }
}

/// The number of uids over all mailboxes of an account.
pub open spec fn account_uid_total(state: FlagsState, account_id: u64) -> nat {
    uid_total(mailboxes_of(state, account_id))
}

} // verus!
