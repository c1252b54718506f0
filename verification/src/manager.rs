//! The in-memory cache of flags hashes.
use crate::account::AccountModel;
use crate::envelope::{AccountListing, MinimalEnvelope};
use crate::state::{
    account_uid_total, cleaned, drained, failed_listings, has_mailbox, is_drained, is_max_uid,
    lemma_uid_total_remove, loadable, loaded, mailbox_dropped, mailbox_pruned, mailboxes_of,
    pruned, recorded, recorded_all, uid_total, uids_from, uids_of, FlagsState,
};
use crate::store::{
    account_entries, accounts_get, accounts_insert, accounts_new, accounts_remove,
    accounts_remove_if_drained, guard_mailboxes, guard_uids, mailbox_entries, mailboxes_get,
    mailboxes_insert, mailboxes_iter, mailboxes_new, mailboxes_remove,
    mailboxes_remove_if_drained, no_accounts, no_uids, uid_entries, uids_insert, uids_is_empty,
    uids_iter, uids_len, uids_new, uids_remove, Accounts,
};
use crate::sweep::{sweep_at, StoreSweep};
use crate::uid_map::{uid_map_entries, uid_map_insert, uid_map_new};
use ahash::AHashMap;
use vstd::prelude::*;

verus! {

/// A message number that is unique within its mailbox.
pub type UID = u32;

/// The hash of a message's flags.
pub type FlagsHash = u64;

/// The cache of flags hashes by account, mailbox and uid.
pub struct EnvelopeFlagsManager {
    accounts: Accounts,
}

impl View for EnvelopeFlagsManager {
    type V = FlagsState;

    closed spec fn view(&self) -> FlagsState {
        account_entries(self.accounts)
    }
}

impl EnvelopeFlagsManager {
    /// A cache that holds nothing.
    pub fn new() -> (manager: Self)
        ensures
            manager@ == no_accounts(),
    {
        EnvelopeFlagsManager { accounts: accounts_new() }
    }

    /// Records the flags hash of a message, and creates the levels that are missing.
    pub fn update_flag_change(
        &mut self,
        account_id: u64,
        mailbox_id: u64,
        uid: UID,
        flags_hash: FlagsHash,
    )
        ensures
            final(self)@ == recorded(old(self)@, account_id, mailbox_id, uid, flags_hash),
    {
        let mut mailboxes = match accounts_remove(&mut self.accounts, account_id) {
            Some((_, mailboxes)) => mailboxes,
            None => mailboxes_new(),
        };
        let mut uids = match mailboxes_remove(&mut mailboxes, mailbox_id) {
            Some((_, uids)) => uids,
            None => uids_new(),
        };
        uids_insert(&mut uids, uid, flags_hash);
        mailboxes_insert(&mut mailboxes, mailbox_id, uids);
        assert(mailbox_entries(mailboxes) =~= mailboxes_of(old(self)@, account_id).insert(
            mailbox_id,
            uids_of(old(self)@, account_id, mailbox_id).insert(uid, flags_hash),
        ));
        accounts_insert(&mut self.accounts, account_id, mailboxes);
        assert(self@ =~= recorded(old(self)@, account_id, mailbox_id, uid, flags_hash));
    }

    /// Records the flags hashes of the envelopes of an account, first to last.
    pub fn record_envelopes(&mut self, account_id: u64, envelopes: &Vec<MinimalEnvelope>)
        ensures
            final(self)@ == recorded_all(old(self)@, account_id, envelopes@),
    {
        let count: usize = envelopes.len();
        let mut i: usize = 0;
        while i < count
            invariant
                i <= count == envelopes@.len(),
                self@ == recorded_all(old(self)@, account_id, envelopes@.take(i as int)),
            decreases count - i,
        {
            let envelope = envelopes[i];
            self.update_flag_change(
                account_id,
                envelope.mailbox_id,
                envelope.uid,
                envelope.flags_hash,
            );
            i = i + 1;
            assert(envelopes@.take(i as int).drop_last() =~= envelopes@.take(i - 1));
        }
        assert(envelopes@.take(count as int) =~= envelopes@);
    }

    /// The ids of the accounts whose envelopes are to be loaded: those that are enabled.
    pub fn accounts_to_load(accounts: &Vec<AccountModel>) -> (ids: Vec<u64>)
        ensures
            ids@ == loadable(accounts@),
    {
        let mut ids: Vec<u64> = Vec::new();
        let count: usize = accounts.len();
        let mut i: usize = 0;
        while i < count
            invariant
                i <= count == accounts@.len(),
                ids@ == loadable(accounts@.take(i as int)),
            decreases count - i,
        {
            if accounts[i].enabled {
                ids.push(accounts[i].id);
            }
            i = i + 1;
            assert(accounts@.take(i as int).drop_last() =~= accounts@.take(i - 1));
        }
        assert(accounts@.take(count as int) =~= accounts@);
        ids
    }

    /// Records what the minimal envelope store has listed for each account. An account whose
    /// listing failed stays as it is, and its id is handed back.
    pub fn load_state<E>(&mut self, listings: &Vec<AccountListing<E>>) -> (failed: Vec<u64>)
        ensures
            final(self)@ == loaded(old(self)@, listings@),
            failed@ == failed_listings(listings@),
    {
        let mut failed: Vec<u64> = Vec::new();
        let count: usize = listings.len();
        let mut i: usize = 0;
        while i < count
            invariant
                i <= count == listings@.len(),
                self@ == loaded(old(self)@, listings@.take(i as int)),
                failed@ == failed_listings(listings@.take(i as int)),
            decreases count - i,
        {
            let listing = &listings[i];
            match &listing.envelopes {
                Ok(envelopes) => self.record_envelopes(listing.account_id, envelopes),
                Err(_) => failed.push(listing.account_id),
            }
            i = i + 1;
            assert(listings@.take(i as int).drop_last() =~= listings@.take(i - 1));
        }
        assert(listings@.take(count as int) =~= listings@);
        failed
    }

    /// Drops an account from the cache, and starts on the mail stores. The cache is cleaned
    /// whether or not the stores can be.
    pub fn clean_account<E>(&mut self, account_id: u64) -> (sweep: StoreSweep<E>)
        ensures
            final(self)@ == old(self)@.remove(account_id),
            sweep == sweep_at::<E>(0),
    {
        accounts_remove(&mut self.accounts, account_id);
        StoreSweep::start()
    }

    /// Drops a mailbox from the cache, and starts on the mail stores. The cache is cleaned
    /// whether or not the stores can be. The account level stays, also without mailboxes.
    pub fn clean_mailbox<E>(&mut self, account_id: u64, mailbox_id: u64) -> (sweep: StoreSweep<E>)
        ensures
            final(self)@ == mailbox_dropped(old(self)@, account_id, mailbox_id),
            sweep == sweep_at::<E>(0),
    {
        if let Some((_, mailboxes)) = accounts_remove(&mut self.accounts, account_id) {
            let mut mailboxes = mailboxes;
            mailboxes_remove(&mut mailboxes, mailbox_id);
            accounts_insert(&mut self.accounts, account_id, mailboxes);
        }
        assert(self@ =~= mailbox_dropped(old(self)@, account_id, mailbox_id));
        StoreSweep::start()
    }

    /// Removes `to_delete_uid` from the cache once the mail stores have been cleaned of them.
    /// When a store has failed, the cache stays as it is and the error is handed on.
    pub fn clean_envelopes<E>(
        &mut self,
        account_id: u64,
        mailbox_id: u64,
        to_delete_uid: &[UID],
        full_sync: bool,
        swept: Result<(), E>,
    ) -> (result: Result<(), E>)
        ensures
            result == swept,
            final(self)@ == (if swept is Ok {
                cleaned(old(self)@, account_id, mailbox_id, to_delete_uid@, full_sync)
            } else {
                old(self)@
            }),
    {
        if swept.is_ok() {
            self.clean_flags_state(account_id, mailbox_id, to_delete_uid, full_sync);
        }
        swept
    }

    /// Whether the cache has a level for an account, with or without mailboxes.
    pub fn has_account(&self, account_id: u64) -> (found: bool)
        ensures
            found == self@.contains_key(account_id),
    {
        accounts_get(&self.accounts, account_id).is_some()
    }

    /// Takes `to_delete_uid` out of a mailbox, and tells whether the mailbox is there and has
    /// no uid left. No level is removed.
    pub fn drain_uids(&mut self, account_id: u64, mailbox_id: u64, to_delete_uid: &[UID]) -> (empty:
        bool)
        ensures
            final(self)@ == drained(old(self)@, account_id, mailbox_id, to_delete_uid@),
            empty == is_drained(final(self)@, account_id, mailbox_id),
    {
        let mut mailboxes = match accounts_remove(&mut self.accounts, account_id) {
            Some((_, mailboxes)) => mailboxes,
            None => {
                assert(self@ =~= old(self)@);
                return false;
            },
        };
        let empty = match mailboxes_remove(&mut mailboxes, mailbox_id) {
            Some((_, uids)) => {
                let mut uids = uids;
                let ghost before = uid_entries(uids);
                let count: usize = to_delete_uid.len();
                let mut i: usize = 0;
                while i < count
                    invariant
                        i <= count == to_delete_uid@.len(),
                        uid_entries(uids) == before.remove_keys(
                            to_delete_uid@.take(i as int).to_set(),
                        ),
                    decreases count - i,
                {
                    uids_remove(&mut uids, to_delete_uid[i]);
                    proof {
                        let done = to_delete_uid@.take(i as int);
                        assert(to_delete_uid@.take(i + 1) =~= done.push(to_delete_uid@[i as int]));
                        lemma_push_to_set(done, to_delete_uid@[i as int]);
                        assert(uid_entries(uids) =~= before.remove_keys(
                            to_delete_uid@.take(i + 1).to_set(),
                        ));
                    }
                    i = i + 1;
                }
                assert(to_delete_uid@.take(count as int) =~= to_delete_uid@);
                let empty = uids_is_empty(&uids);
                mailboxes_insert(&mut mailboxes, mailbox_id, uids);
                empty
            },
            None => false,
        };
        assert(has_mailbox(old(self)@, account_id, mailbox_id) ==> mailbox_entries(mailboxes)
            =~= old(self)@[account_id].insert(
            mailbox_id,
            old(self)@[account_id][mailbox_id].remove_keys(to_delete_uid@.to_set()),
        ));
        assert(!has_mailbox(old(self)@, account_id, mailbox_id) ==> mailbox_entries(mailboxes)
            =~= old(self)@[account_id]);
        accounts_insert(&mut self.accounts, account_id, mailboxes);
        assert(self@ =~= drained(old(self)@, account_id, mailbox_id, to_delete_uid@));
        empty
    }

    /// Removes the mailbox level if it holds no uid, and then the account level if it holds no
    /// mailbox. A uid that was recorded in the meantime keeps both.
    pub fn prune_drained(&mut self, account_id: u64, mailbox_id: u64)
        ensures
            final(self)@ == pruned(old(self)@, account_id, mailbox_id),
    {
        if let Some((_, mailboxes)) = accounts_remove(&mut self.accounts, account_id) {
            let mut mailboxes = mailboxes;
            mailboxes_remove_if_drained(&mut mailboxes, mailbox_id);
            accounts_insert(&mut self.accounts, account_id, mailboxes);
        }
        assert(self@ =~= mailbox_pruned(old(self)@, account_id, mailbox_id));
        accounts_remove_if_drained(&mut self.accounts, account_id);
    }

    /// Removes `to_delete_uid` from the cache. In a full sync that leaves the mailbox without
    /// uids, the mailbox and account levels that have become empty are pruned too.
    pub fn clean_flags_state(
        &mut self,
        account_id: u64,
        mailbox_id: u64,
        to_delete_uid: &[UID],
        full_sync: bool,
    )
        ensures
            final(self)@ == cleaned(
                old(self)@,
                account_id,
                mailbox_id,
                to_delete_uid@,
                full_sync,
            ),
    {
        let mailbox_drained = self.drain_uids(account_id, mailbox_id, to_delete_uid);
        if mailbox_drained && full_sync {
            self.prune_drained(account_id, mailbox_id);
        }
    }

    /// The largest uid of a mailbox, if it has any. A mailbox holds finitely many uids.
    pub fn get_max_uid(&self, account_id: u64, mailbox_id: u64) -> (max: Option<UID>)
        ensures
            is_max_uid(uids_of(self@, account_id, mailbox_id), max),
            uids_of(self@, account_id, mailbox_id).dom().finite(),
    {
        if let Some(account) = accounts_get(&self.accounts, account_id) {
            if let Some(mailbox) = mailboxes_get(guard_mailboxes(&account), mailbox_id) {
                let entries = uids_iter(guard_uids(&mailbox));
                let ghost uids = uids_of(self@, account_id, mailbox_id);
                let mut max: Option<u32> = None;
                let count: usize = entries.len();
                let mut i: usize = 0;
                while i < count
                    invariant
                        i <= count == entries@.len(),
                        max is None <==> i == 0,
                        max matches Some(m) ==> exists|j: int|
                            0 <= j < i && (#[trigger] entries@[j]).0 == m,
                        max matches Some(m) ==> forall|j: int|
                            0 <= j < i ==> (#[trigger] entries@[j]).0 <= m,
                    decreases count - i,
                {
                    let uid: u32 = entries[i].0;
                    max = match max {
                        Some(largest) => if uid < largest {
                            Some(largest)
                        } else {
                            Some(uid)
                        },
                        None => Some(uid),
                    };
                    assert(entries@[i as int].0 == uid);
                    i = i + 1;
                }
                proof {
                    assert forall|uid: u32| #[trigger] uids.contains_key(uid) implies exists|j: int|
                        0 <= j < count && (#[trigger] entries@[j]).0 == uid by {
                        assert(entries@.contains((uid, uids[uid])));
                        let j = entries@.index_of((uid, uids[uid]));
                        assert(entries@[j].0 == uid);
                    }
                    if max is None {
                        assert(uids =~= no_uids());
                    }
                    let listed = entries@.map_values(|entry: (u32, u64)| entry.0);
                    assert forall|uid: u32| #[trigger] uids.contains_key(uid) implies listed.contains(
                        uid,
                    ) by {
                        let j = entries@.index_of((uid, uids[uid]));
                        assert(listed[j] == uid);
                    }
                    assert(uids.dom().subset_of(listed.to_set()));
                    vstd::set_lib::lemma_len_subset(uids.dom(), listed.to_set());
                }
                return max;
            }
        }
        None
    }

    /// The uids of a mailbox that are at least `min_uid`, each with its flags hash.
    pub fn get_uid_map(&self, account_id: u64, mailbox_id: u64, min_uid: UID) -> (result: AHashMap<
        UID,
        FlagsHash,
    >)
        ensures
            uid_map_entries(result) == uids_from(uids_of(self@, account_id, mailbox_id), min_uid),
    {
        let mut result = uid_map_new();
        if let Some(account) = accounts_get(&self.accounts, account_id) {
            if let Some(mailbox) = mailboxes_get(guard_mailboxes(&account), mailbox_id) {
                let entries = uids_iter(guard_uids(&mailbox));
                let ghost uids = uids_of(self@, account_id, mailbox_id);
                let count: usize = entries.len();
                let mut i: usize = 0;
                while i < count
                    invariant
                        i <= count == entries@.len(),
                        forall|j: int|
                            0 <= j < entries@.len() ==> uids.contains_pair(
                                (#[trigger] entries@[j]).0,
                                entries@[j].1,
                            ),
                        forall|uid: u32| #[trigger]
                            uid_map_entries(result).contains_key(uid) ==> uid >= min_uid
                                && uids.contains_pair(uid, uid_map_entries(result)[uid]),
                        forall|j: int|
                            0 <= j < i && (#[trigger] entries@[j]).0 >= min_uid
                                ==> uid_map_entries(result).contains_pair(
                                entries@[j].0,
                                entries@[j].1,
                            ),
                    decreases count - i,
                {
                    let uid: u32 = entries[i].0;
                    if uid >= min_uid {
                        uid_map_insert(&mut result, uid, entries[i].1);
                    }
                    i = i + 1;
                }
                proof {
                    let found = uid_map_entries(result);
                    assert forall|uid: u32| #[trigger]
                        uids_from(uids, min_uid).contains_key(uid) implies found.contains_pair(
                        uid,
                        uids[uid],
                    ) by {
                        let j = entries@.index_of((uid, uids[uid]));
                        assert(entries@[j].0 >= min_uid);
                    }
                    assert forall|uid: u32| #[trigger] found.contains_key(uid) implies uids_from(
                        uids,
                        min_uid,
                    ).contains_key(uid) by {
                        assert(uids.contains_pair(uid, found[uid]));
                    }
                    assert(found =~= uids_from(uids, min_uid));
                }
                return result;
            }
        }
        assert(uid_map_entries(result) =~= uids_from(
            uids_of(self@, account_id, mailbox_id),
            min_uid,
        ));
        result
    }

    /// The number of uids over all mailboxes of an account, or `None` when it is larger than a
    /// `usize` can hold. An account has finitely many mailboxes.
    pub fn checked_account_uid_total(&self, account_id: u64) -> (total: Option<usize>)
        ensures
            total == (if account_uid_total(self@, account_id) <= usize::MAX {
                Some(account_uid_total(self@, account_id) as usize)
            } else {
                None
            }),
            mailboxes_of(self@, account_id).dom().finite(),
    {
        if let Some(account) = accounts_get(&self.accounts, account_id) {
            let mailboxes = guard_mailboxes(&account);
            let ids = mailboxes_iter(mailboxes);
            let ghost entries = mailbox_entries(*mailboxes);
            let ghost mut rest = entries;
            let count: usize = ids.len();
            let mut total: usize = 0;
            let mut i: usize = 0;
            proof {
                assert(ids@.skip(0) =~= ids@);
            }
            while i < count
                invariant
                    i <= count == ids@.len(),
                    ids@.no_duplicates(),
                    entries == mailbox_entries(*mailboxes),
                    ids@.to_set() == entries.dom(),
                    rest.dom().finite(),
                    rest.dom() == ids@.skip(i as int).to_set(),
                    forall|id: u64| #[trigger] rest.contains_key(id) ==> rest[id] == entries[id],
                    total + uid_total(rest) == uid_total(entries),
                    entries == mailboxes_of(self@, account_id),
                decreases count - i,
            {
                let id: u64 = ids[i];
                assert(ids@.to_set().contains(ids@[i as int]));
                if let Some(mailbox) = mailboxes_get(mailboxes, id) {
                    let len: usize = uids_len(guard_uids(&mailbox));
                    proof {
                        assert(ids@.skip(i as int)[0] == id);
                        assert(rest.contains_key(id));
                        lemma_uid_total_remove(rest, id);
                        lemma_skip_to_set(ids@, i as int);
                        rest = rest.remove(id);
                    }
                    match total.checked_add(len) {
                        Some(sum) => {
                            total = sum;
                        },
                        None => {
                            return None;
                        },
                    }
                }
                i = i + 1;
            }
            proof {
                assert(rest.dom() =~= Set::<u64>::empty());
            }
            return Some(total);
        }
        proof {
            assert(mailboxes_of(self@, account_id).dom() =~= Set::<u64>::empty());
        }
        Some(0)
    }

    /// The number of uids over all mailboxes of an account.
    pub fn count_account_uid_total(&self, account_id: u64) -> (total: usize)
        requires
            account_uid_total(self@, account_id) <= usize::MAX,
        ensures
            total == account_uid_total(self@, account_id),
    {
        self.checked_account_uid_total(account_id).unwrap()
    }
}

/// Skipping one more element of a sequence without duplicates takes that element out of the
/// set of the rest.
proof fn lemma_skip_to_set(ids: Seq<u64>, i: int)
    requires
        0 <= i < ids.len(),
        ids.no_duplicates(),
    ensures
        ids.skip(i + 1).to_set() == ids.skip(i).to_set().remove(ids[i]),
{
    let before = ids.skip(i);
    let after = ids.skip(i + 1);
    assert forall|id: u64| #[trigger] before.to_set().remove(ids[i]).contains(id) implies after.to_set().contains(
        id,
    ) by {
        let j = before.index_of(id);
        assert(before[0] == ids[i]);
        assert(after[j - 1] == id);
    }
    assert forall|id: u64| #[trigger] after.to_set().contains(id) implies before.to_set().remove(
        ids[i],
    ).contains(id) by {
        let j = after.index_of(id);
        assert(before[j + 1] == id);
        assert(ids[i + 1 + j] == id);
    }
    assert(after.to_set() =~= before.to_set().remove(ids[i]));
}

/// Pushing onto a sequence adds one element to its set.
proof fn lemma_push_to_set(done: Seq<u32>, next: u32)
    ensures
        done.push(next).to_set() == done.to_set().insert(next),
{
    let pushed = done.push(next);
    assert forall|uid: u32| done.to_set().insert(next).contains(uid) implies #[trigger]
        pushed.to_set().contains(uid) by {
        if uid == next {
            assert(pushed[done.len() as int] == uid);
        } else {
            let i = done.index_of(uid);
            assert(pushed[i] == uid);
        }
    }
    assert(pushed.to_set() =~= done.to_set().insert(next));
}

} // verus!
