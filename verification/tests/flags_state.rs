use envelope_flags::account::{AccountModel, MailerType};
use envelope_flags::envelope::{AccountListing, MinimalEnvelope};
use envelope_flags::manager::EnvelopeFlagsManager;
use envelope_flags::sweep::{Store, StoreSweep};

const T1_ACCT: u64 = 9_900_001;
const T1_MB: u64 = 9_900_002;
const T2_ACCT: u64 = 9_900_011;
const T2_MB_A: u64 = 9_900_012;
const T2_MB_B: u64 = 9_900_013;

#[test]
fn clean_flags_state_survives_draining_last_uids() {
    let mut manager = EnvelopeFlagsManager::new();
    manager.update_flag_change(T1_ACCT, T1_MB, 7, 42);

    manager.clean_flags_state(T1_ACCT, T1_MB, &[7], true);

    // Draining the mailbox pruned both the mailbox and the account level.
    assert!(
        !manager.has_account(T1_ACCT),
        "account level should be pruned after its last mailbox drained"
    );
}

#[test]
fn clean_flags_state_prunes_only_the_drained_mailbox() {
    let mut manager = EnvelopeFlagsManager::new();
    manager.update_flag_change(T2_ACCT, T2_MB_A, 1, 10);
    manager.update_flag_change(T2_ACCT, T2_MB_A, 2, 20);
    manager.update_flag_change(T2_ACCT, T2_MB_B, 3, 30);

    // Partial deletion: MB_A still holds uid 2, nothing is pruned.
    manager.clean_flags_state(T2_ACCT, T2_MB_A, &[1], true);
    assert!(manager.has_account(T2_ACCT));
    assert_eq!(manager.get_uid_map(T2_ACCT, T2_MB_A, 0).len(), 1);

    // Full drain of MB_A: mailbox level pruned, sibling and account stay.
    manager.clean_flags_state(T2_ACCT, T2_MB_A, &[2], true);
    assert!(manager.has_account(T2_ACCT));
    assert_eq!(manager.get_uid_map(T2_ACCT, T2_MB_A, 0).len(), 0);
    assert_eq!(manager.get_uid_map(T2_ACCT, T2_MB_B, 0).len(), 1);

    // Cleanup so the account-level pruning path is also covered.
    manager.clean_flags_state(T2_ACCT, T2_MB_B, &[3], true);
    assert!(!manager.has_account(T2_ACCT));
}

#[test]
fn recorded_hash_is_read_back() {
    let mut manager = EnvelopeFlagsManager::new();
    manager.update_flag_change(1, 2, 3, 40);
    manager.update_flag_change(1, 2, 4, 50);
    manager.update_flag_change(1, 2, 3, 41);
    let uids = manager.get_uid_map(1, 2, 0);
    assert_eq!(uids.len(), 2);
    assert_eq!(uids.get(&3), Some(&41));
    assert_eq!(uids.get(&4), Some(&50));
    assert_eq!(manager.get_uid_map(1, 9, 0).len(), 0);
    assert_eq!(manager.get_uid_map(9, 2, 0).len(), 0);
}

#[test]
fn uid_map_starts_at_the_bound() {
    let mut manager = EnvelopeFlagsManager::new();
    for uid in [5u32, 10, 15] {
        manager.update_flag_change(1, 1, uid, u64::from(uid) * 100);
    }
    let uids = manager.get_uid_map(1, 1, 10);
    assert_eq!(uids.len(), 2);
    assert_eq!(uids.get(&5), None);
    assert_eq!(uids.get(&10), Some(&1000));
    assert_eq!(uids.get(&15), Some(&1500));
    assert_eq!(manager.get_uid_map(1, 1, 16).len(), 0);
}

#[test]
fn max_uid_is_the_largest() {
    let mut manager = EnvelopeFlagsManager::new();
    assert_eq!(manager.get_max_uid(1, 1), None);
    manager.update_flag_change(1, 1, 7, 0);
    manager.update_flag_change(1, 1, 30, 0);
    manager.update_flag_change(1, 1, 12, 0);
    manager.update_flag_change(1, 2, 99, 0);
    assert_eq!(manager.get_max_uid(1, 1), Some(30));
    manager.clean_flags_state(1, 1, &[30], false);
    assert_eq!(manager.get_max_uid(1, 1), Some(12));
    manager.clean_flags_state(1, 1, &[7, 12], false);
    assert_eq!(manager.get_max_uid(1, 1), None);
    assert_eq!(manager.get_max_uid(1, 2), Some(99));
}

#[test]
fn total_counts_over_mailboxes() {
    let mut manager = EnvelopeFlagsManager::new();
    assert_eq!(manager.count_account_uid_total(1), 0);
    manager.update_flag_change(1, 1, 1, 0);
    manager.update_flag_change(1, 1, 2, 0);
    manager.update_flag_change(1, 2, 1, 0);
    manager.update_flag_change(2, 1, 1, 0);
    assert_eq!(manager.count_account_uid_total(1), 3);
    manager.update_flag_change(1, 2, 1, 5);
    assert_eq!(manager.count_account_uid_total(1), 3);
    assert_eq!(manager.checked_account_uid_total(1), Some(3));
    manager.clean_flags_state(1, 1, &[2, 77], true);
    assert_eq!(manager.count_account_uid_total(1), 2);
    assert_eq!(manager.count_account_uid_total(2), 1);
}

#[test]
fn without_full_sync_levels_stay() {
    let mut manager = EnvelopeFlagsManager::new();
    manager.update_flag_change(1, 1, 1, 0);
    manager.clean_flags_state(1, 1, &[1], false);
    assert!(manager.has_account(1));
    assert_eq!(manager.get_uid_map(1, 1, 0).len(), 0);
    // The mailbox is there and already empty: a full sync prunes it without any uid.
    manager.clean_flags_state(1, 1, &[], true);
    assert!(!manager.has_account(1));
    // Nothing is left to clean.
    manager.clean_flags_state(1, 1, &[1], true);
    assert!(!manager.has_account(1));
}

#[test]
fn late_record_survives_prune() {
    let mut manager = EnvelopeFlagsManager::new();
    manager.update_flag_change(1, 1, 1, 10);
    assert!(manager.drain_uids(1, 1, &[1]));
    manager.update_flag_change(1, 1, 2, 20);
    manager.prune_drained(1, 1);
    assert_eq!(manager.get_uid_map(1, 1, 0).get(&2), Some(&20));
    assert!(!manager.drain_uids(1, 1, &[1]));
    assert!(!manager.drain_uids(1, 5, &[1]));
    assert!(!manager.drain_uids(5, 1, &[1]));
}

#[test]
fn clean_account_drops_the_account_only() {
    let mut manager = EnvelopeFlagsManager::new();
    manager.update_flag_change(1, 1, 1, 10);
    manager.update_flag_change(2, 1, 1, 20);
    let sweep: StoreSweep<String> = manager.clean_account(1);
    assert!(matches!(sweep, StoreSweep::Cleaning(Store::Envelopes)));
    assert!(!manager.has_account(1));
    assert_eq!(manager.get_uid_map(2, 1, 0).get(&1), Some(&20));
}

#[test]
fn clean_mailbox_keeps_the_account() {
    let mut manager = EnvelopeFlagsManager::new();
    manager.update_flag_change(1, 1, 1, 10);
    let sweep: StoreSweep<String> = manager.clean_mailbox(1, 1);
    assert!(matches!(sweep, StoreSweep::Cleaning(Store::Envelopes)));
    assert!(manager.has_account(1));
    assert_eq!(manager.get_max_uid(1, 1), None);
    let _: StoreSweep<String> = manager.clean_mailbox(3, 1);
    assert!(!manager.has_account(3));
}

#[test]
fn clean_envelopes_waits_for_the_stores() {
    let mut manager = EnvelopeFlagsManager::new();
    manager.update_flag_change(1, 1, 1, 10);
    let failed: Result<(), String> = Err("disk full".to_string());
    assert_eq!(
        manager.clean_envelopes(1, 1, &[1], true, failed),
        Err("disk full".to_string())
    );
    assert_eq!(manager.get_max_uid(1, 1), Some(1));
    let done: Result<(), String> = Ok(());
    assert_eq!(manager.clean_envelopes(1, 1, &[1], true, done), Ok(()));
    assert!(!manager.has_account(1));
}

#[test]
fn sweep_cleans_in_order() {
    let mut sweep: StoreSweep<u32> = StoreSweep::start();
    let mut cleaned = Vec::new();
    while let StoreSweep::Cleaning(store) = sweep {
        cleaned.push(store);
        sweep = sweep.advance(Ok(()));
    }
    assert_eq!(
        cleaned,
        vec![
            Store::Envelopes,
            Store::MinimalEnvelopes,
            Store::Addresses,
            Store::Threads
        ]
    );
    assert!(matches!(sweep, StoreSweep::Finished(Ok(()))));
}

#[test]
fn sweep_stops_at_first_failure() {
    let sweep: StoreSweep<u32> = StoreSweep::start();
    let sweep = sweep.advance(Ok(())).advance(Err(7));
    assert!(matches!(sweep, StoreSweep::Finished(Err(7))));
    let sweep = sweep.advance(Ok(())).advance(Err(8));
    assert!(matches!(sweep, StoreSweep::Finished(Err(7))));
}

fn account(id: u64, enabled: bool) -> AccountModel {
    AccountModel {
        id,
        email: format!("{}@example.org", id),
        enabled,
        minimal_sync: false,
        mailer_type: MailerType::GmailApi,
        imap_auth: None,
    }
}

fn envelope(mailbox_id: u64, uid: u32, flags_hash: u64) -> MinimalEnvelope {
    MinimalEnvelope {
        mailbox_id,
        uid,
        flags_hash,
    }
}

#[test]
fn only_enabled_accounts_are_loaded() {
    let accounts = vec![account(1, true), account(2, false), account(3, true)];
    assert_eq!(EnvelopeFlagsManager::accounts_to_load(&accounts), vec![1, 3]);
}

fn listings(reversed: bool) -> Vec<AccountListing<String>> {
    let mut listings = vec![
        AccountListing {
            account_id: 1,
            envelopes: Ok(vec![envelope(1, 1, 10), envelope(2, 5, 50), envelope(1, 1, 11)]),
        },
        AccountListing {
            account_id: 2,
            envelopes: Err("unreachable".to_string()),
        },
        AccountListing {
            account_id: 3,
            envelopes: Ok(vec![envelope(1, 1, 30)]),
        },
    ];
    if reversed {
        listings.reverse();
    }
    listings
}

#[test]
fn load_state_records_what_was_listed() {
    for reversed in [false, true] {
        let mut manager = EnvelopeFlagsManager::new();
        assert_eq!(manager.load_state(&listings(reversed)), vec![2]);
        assert_eq!(manager.get_uid_map(1, 1, 0).get(&1), Some(&11));
        assert_eq!(manager.get_uid_map(1, 2, 0).get(&5), Some(&50));
        assert_eq!(manager.get_uid_map(3, 1, 0).get(&1), Some(&30));
        assert_eq!(manager.count_account_uid_total(1), 2);
        assert!(!manager.has_account(2));
    }
}

#[test]
fn order_of_records_does_not_matter() {
    let mut one = EnvelopeFlagsManager::new();
    one.update_flag_change(1, 1, 1, 10);
    one.update_flag_change(1, 1, 2, 20);
    let mut other = EnvelopeFlagsManager::new();
    other.update_flag_change(1, 1, 2, 20);
    other.update_flag_change(1, 1, 1, 10);
    for manager in [one, other] {
        let uids = manager.get_uid_map(1, 1, 0);
        assert_eq!(uids.len(), 2);
        assert_eq!(uids.get(&1), Some(&10));
        assert_eq!(uids.get(&2), Some(&20));
    }
}

#[test]
fn sweep_succeeds_only_after_every_store() {
    let sweep: StoreSweep<u32> = StoreSweep::start();
    let sweep = sweep.advance(Ok(())).advance(Ok(())).advance(Ok(()));
    assert!(matches!(sweep, StoreSweep::Cleaning(Store::Threads)));
    assert!(matches!(sweep.advance(Err(3)), StoreSweep::Finished(Err(3))));
}
