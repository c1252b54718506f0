use envelope_flags::envelope::{Addr, EmailEnvelope};
use envelope_flags::flags::{edited_flags, EnvelopeFlag, FlagEdit};
use envelope_flags::manager::EnvelopeFlagsManager;
use envelope_flags::modify::{ModifyAction, ModifyEvent, ModifyPhase, ModifyRequest};
use envelope_flags::update::{UpdateAction, UpdateEvent, UpdatePhase, UpdateRequest};

fn flags(keywords: &[&str]) -> Vec<EnvelopeFlag> {
    keywords
        .iter()
        .map(|keyword| EnvelopeFlag {
            keyword: keyword.to_string(),
        })
        .collect()
}

fn sorted(flags: &[EnvelopeFlag]) -> Vec<String> {
    let mut texts: Vec<String> = flags.iter().map(|flag| flag.keyword.clone()).collect();
    texts.sort();
    texts
}

fn texts(keywords: &[&str]) -> Vec<String> {
    keywords.iter().map(|keyword| keyword.to_string()).collect()
}

fn edit(overwrite: Option<&[&str]>, added: Option<&[&str]>, removed: Option<&[&str]>) -> FlagEdit {
    FlagEdit {
        overwrite: overwrite.map(flags),
        added: added.map(flags),
        removed: removed.map(flags),
    }
}

#[test]
fn diff_tells_added_and_removed() {
    let (mut added, removed) = EnvelopeFlagsManager::diff_envelope_flags(
        &flags(&["Seen", "Draft", "Draft"]),
        &flags(&["Seen", "Flagged", "Answered", "Flagged"]),
    );
    added.sort();
    assert_eq!(added, texts(&["Answered", "Flagged"]));
    assert_eq!(removed, texts(&["Draft"]));
}

#[test]
fn diff_of_the_same_flags_is_empty() {
    let (added, removed) = EnvelopeFlagsManager::diff_envelope_flags(
        &flags(&["Seen", "Draft"]),
        &flags(&["Draft", "Seen", "Seen"]),
    );
    assert!(added.is_empty());
    assert!(removed.is_empty());
}

#[test]
fn overwrite_replaces_everything() {
    let new = edited_flags(
        &flags(&["Seen"]),
        &edit(Some(&["Draft", "Draft"]), Some(&["Flagged"]), Some(&["Draft"])),
    );
    assert_eq!(new, flags(&["Draft", "Draft"]));
}

#[test]
fn removal_wins_over_addition() {
    let request = edit(None, Some(&["Flagged", "Junk"]), Some(&["Junk", "Seen"]));
    let new = edited_flags(&flags(&["Seen", "Draft", "Draft"]), &request);
    assert_eq!(sorted(&new), texts(&["Draft", "Flagged"]));
    let again = edited_flags(&new, &request);
    assert_eq!(sorted(&again), sorted(&new));
}

#[test]
fn edit_without_lists_only_drops_duplicates() {
    let new = edited_flags(&flags(&["Seen", "Seen"]), &edit(None, None, None));
    assert_eq!(new, flags(&["Seen"]));
}

#[test]
fn modify_goes_through_both_stores() {
    let mut manager = EnvelopeFlagsManager::new();
    let request = ModifyRequest {
        uids: vec![5, 6],
        account_id: 1,
        mailbox_id: 2,
        edit: edit(None, Some(&["Seen"]), None),
    };
    let (cursor, action) = EnvelopeFlagsManager::begin_modify_flags::<String>(&request);
    assert!(matches!(action, ModifyAction::FindEnvelope(5)));

    let found = ModifyEvent::<String>::Found(None);
    let (cursor, action) = manager.modify_flags(&request, cursor, found);
    assert!(matches!(action, ModifyAction::FindEnvelope(6)));
    assert_eq!(cursor.index, 1);

    let found = ModifyEvent::<String>::Found(Some(flags(&["Draft"])));
    let (cursor, action) = manager.modify_flags(&request, cursor, found);
    match action {
        ModifyAction::HashFlags(new) => assert_eq!(sorted(&new), texts(&["Draft", "Seen"])),
        _ => panic!("expected the flags to be hashed"),
    }

    let (cursor, action) = manager.modify_flags(&request, cursor, ModifyEvent::<String>::Hashed(77));
    match action {
        ModifyAction::StoreEnvelope {
            uid,
            flags: new,
            flags_hash,
        } => {
            assert_eq!((uid, flags_hash), (6, 77));
            assert_eq!(sorted(&new), texts(&["Draft", "Seen"]));
        }
        _ => panic!("expected the envelope to be stored"),
    }

    let stored = ModifyEvent::<String>::EnvelopeStored;
    let (cursor, action) = manager.modify_flags(&request, cursor, stored);
    assert!(matches!(
        action,
        ModifyAction::StoreMinimal {
            uid: 6,
            flags_hash: 77
        }
    ));
    assert!(!manager.has_account(1));

    let stored = ModifyEvent::<String>::MinimalStored;
    let (cursor, action) = manager.modify_flags(&request, cursor, stored);
    assert!(matches!(action, ModifyAction::Finish(Ok(()))));
    assert!(matches!(cursor.phase, ModifyPhase::Stopped));
    let uids = manager.get_uid_map(1, 2, 0);
    assert_eq!(uids.len(), 1);
    assert_eq!(uids.get(&6), Some(&77));
}

#[test]
fn modify_stops_at_failure() {
    let mut manager = EnvelopeFlagsManager::new();
    let request = ModifyRequest {
        uids: vec![5],
        account_id: 1,
        mailbox_id: 2,
        edit: edit(Some(&["Seen"]), None, None),
    };
    let (cursor, _) = EnvelopeFlagsManager::begin_modify_flags::<String>(&request);
    let failed = ModifyEvent::Failed("gone".to_string());
    let (_, action) = manager.modify_flags(&request, cursor, failed);
    match action {
        ModifyAction::Finish(result) => assert_eq!(result, Err("gone".to_string())),
        _ => panic!("expected the end"),
    }
    assert!(!manager.has_account(1));
}

#[test]
fn modify_of_nothing_ends_at_once() {
    let request = ModifyRequest {
        uids: vec![],
        account_id: 1,
        mailbox_id: 2,
        edit: edit(None, None, None),
    };
    let (_, action) = EnvelopeFlagsManager::begin_modify_flags::<String>(&request);
    assert!(matches!(action, ModifyAction::Finish(Ok(()))));
}

fn update_request(minimal_sync: bool) -> UpdateRequest {
    UpdateRequest {
        account_id: 1,
        account_email: "one@example.org".to_string(),
        minimal_sync,
        mailbox_id: 2,
        data: vec![(8, flags(&["Seen", "Flagged"]))],
    }
}

fn current() -> EmailEnvelope {
    EmailEnvelope {
        mailbox_name: "INBOX".to_string(),
        flags: flags(&["Seen", "Draft"]),
        from: Some(Addr {
            name: None,
            address: Some("two@example.org".to_string()),
        }),
        to: None,
        message_id: Some("id-1".to_string()),
        subject: Some("hello".to_string()),
        internal_date: Some(100),
        date: None,
    }
}

#[test]
fn update_notifies_a_watcher() {
    let mut manager = EnvelopeFlagsManager::new();
    let request = update_request(false);
    let (changes, cursor, action) =
        EnvelopeFlagsManager::begin_update_envelope_flags::<String>(&request);
    assert_eq!(changes, 1);
    assert!(matches!(action, UpdateAction::AskWatching));

    let watched = UpdateEvent::<String>::Watched(true);
    let (cursor, action) = manager.update_envelope_flags(&request, cursor, watched);
    assert!(matches!(action, UpdateAction::FindEnvelope(8)));

    let found = UpdateEvent::<String>::Found(Some(current()));
    let (cursor, action) = manager.update_envelope_flags(&request, cursor, found);
    match action {
        UpdateAction::Notify(notice) => {
            assert_eq!(notice.account_id, 1);
            assert_eq!(notice.account_email, "one@example.org");
            assert_eq!(notice.mailbox_name, "INBOX");
            assert_eq!(notice.uid, Some(8));
            assert_eq!(notice.from, current().from);
            assert_eq!(notice.to, None);
            assert_eq!(notice.message_id, Some("id-1".to_string()));
            assert_eq!(notice.subject, Some("hello".to_string()));
            assert_eq!(notice.internal_date, Some(100));
            assert_eq!(notice.date, None);
            assert_eq!(notice.flags_added, texts(&["Flagged"]));
            assert_eq!(notice.flags_removed, texts(&["Draft"]));
            assert_eq!(notice.mid, None);
        }
        _ => panic!("expected a notice"),
    }

    let notified = UpdateEvent::<String>::Notified;
    let (cursor, action) = manager.update_envelope_flags(&request, cursor, notified);
    match action {
        UpdateAction::HashFlags(new) => assert_eq!(new, flags(&["Seen", "Flagged"])),
        _ => panic!("expected the flags to be hashed"),
    }

    let hashed = UpdateEvent::<String>::Hashed(99);
    let (cursor, action) = manager.update_envelope_flags(&request, cursor, hashed);
    match action {
        UpdateAction::StoreEnvelope {
            uid,
            flags: new,
            flags_hash,
        } => {
            assert_eq!((uid, flags_hash), (8, 99));
            assert_eq!(new, flags(&["Seen", "Flagged"]));
        }
        _ => panic!("expected the envelope to be stored"),
    }

    let stored = UpdateEvent::<String>::EnvelopeStored;
    let (cursor, action) = manager.update_envelope_flags(&request, cursor, stored);
    assert!(matches!(
        action,
        UpdateAction::StoreMinimal {
            uid: 8,
            flags_hash: 99
        }
    ));
    assert_eq!(manager.get_max_uid(1, 2), None);

    let stored = UpdateEvent::<String>::MinimalStored;
    let (cursor, action) = manager.update_envelope_flags(&request, cursor, stored);
    assert!(matches!(action, UpdateAction::Finish(Ok(()))));
    assert_eq!(cursor.phase, UpdatePhase::Stopped);
    assert_eq!(manager.get_uid_map(1, 2, 0).get(&8), Some(&99));
}

#[test]
fn update_without_watcher_or_envelope_goes_on_to_hash() {
    let mut manager = EnvelopeFlagsManager::new();
    let request = update_request(false);
    let (_, cursor, _) = EnvelopeFlagsManager::begin_update_envelope_flags::<String>(&request);
    let unwatched = UpdateEvent::<String>::Watched(false);
    let (_, action) = manager.update_envelope_flags(&request, cursor, unwatched);
    assert!(matches!(action, UpdateAction::HashFlags(_)));
    let watched = UpdateEvent::<String>::Watched(true);
    let (cursor, _) = manager.update_envelope_flags(&request, cursor, watched);
    let missing = UpdateEvent::<String>::Found(None);
    let (_, action) = manager.update_envelope_flags(&request, cursor, missing);
    assert!(matches!(action, UpdateAction::HashFlags(_)));
}

#[test]
fn minimal_sync_keeps_to_the_minimal_store() {
    let mut manager = EnvelopeFlagsManager::new();
    let request = update_request(true);
    let (_, cursor, action) = EnvelopeFlagsManager::begin_update_envelope_flags::<String>(&request);
    assert!(matches!(action, UpdateAction::HashFlags(_)));
    let hashed = UpdateEvent::<String>::Hashed(5);
    let (cursor, action) = manager.update_envelope_flags(&request, cursor, hashed);
    assert!(matches!(
        action,
        UpdateAction::StoreMinimal {
            uid: 8,
            flags_hash: 5
        }
    ));
    let stored = UpdateEvent::<String>::MinimalStored;
    let (_, action) = manager.update_envelope_flags(&request, cursor, stored);
    assert!(matches!(action, UpdateAction::Finish(Ok(()))));
    assert_eq!(manager.get_uid_map(1, 2, 0).get(&8), Some(&5));
}

#[test]
fn update_stops_at_failure() {
    let mut manager = EnvelopeFlagsManager::new();
    let request = update_request(true);
    let (_, cursor, _) = EnvelopeFlagsManager::begin_update_envelope_flags::<String>(&request);
    let hashed = UpdateEvent::<String>::Hashed(5);
    let (cursor, _) = manager.update_envelope_flags(&request, cursor, hashed);
    let failed = UpdateEvent::Failed("gone".to_string());
    let (_, action) = manager.update_envelope_flags(&request, cursor, failed);
    match action {
        UpdateAction::Finish(result) => assert_eq!(result, Err("gone".to_string())),
        _ => panic!("expected the end"),
    }
    assert!(!manager.has_account(1));
}

#[test]
fn diff_reverses() {
    let old = flags(&["Seen", "Draft"]);
    let new = flags(&["Seen", "Flagged"]);
    let (added, removed) = EnvelopeFlagsManager::diff_envelope_flags(&old, &new);
    let back = EnvelopeFlagsManager::diff_envelope_flags(&new, &old);
    assert_eq!((added.clone(), removed.clone()), (texts(&["Flagged"]), texts(&["Draft"])));
    assert_eq!(back, (removed, added));
}

#[test]
fn modify_ends_after_four_events_per_message() {
    let mut manager = EnvelopeFlagsManager::new();
    let request = ModifyRequest {
        uids: vec![5, 6, 7],
        account_id: 1,
        mailbox_id: 2,
        edit: edit(None, None, Some(&["Seen"])),
    };
    let (mut cursor, mut action) = EnvelopeFlagsManager::begin_modify_flags::<String>(&request);
    let mut events = 0;
    loop {
        let event = match action {
            ModifyAction::FindEnvelope(_) => ModifyEvent::Found(Some(flags(&["Seen"]))),
            ModifyAction::HashFlags(new) => ModifyEvent::Hashed(new.len() as u64),
            ModifyAction::StoreEnvelope { .. } => ModifyEvent::EnvelopeStored,
            ModifyAction::StoreMinimal { .. } => ModifyEvent::MinimalStored,
            ModifyAction::Finish(result) => {
                assert_eq!(result, Ok(()));
                break;
            }
        };
        events += 1;
        (cursor, action) = manager.modify_flags(&request, cursor, event);
    }
    assert_eq!(events, 12);
    assert_eq!(manager.count_account_uid_total(1), 3);
    assert_eq!(manager.get_uid_map(1, 2, 0).get(&6), Some(&0));
}

#[test]
fn update_ends_after_six_events_per_message() {
    let mut manager = EnvelopeFlagsManager::new();
    let request = update_request(false);
    let (count, mut cursor, mut action) =
        EnvelopeFlagsManager::begin_update_envelope_flags::<String>(&request);
    let mut events = 0;
    loop {
        let event = match action {
            UpdateAction::AskWatching => UpdateEvent::Watched(true),
            UpdateAction::FindEnvelope(_) => UpdateEvent::Found(Some(current())),
            UpdateAction::Notify(_) => UpdateEvent::Notified,
            UpdateAction::HashFlags(_) => UpdateEvent::Hashed(9),
            UpdateAction::StoreEnvelope { .. } => UpdateEvent::EnvelopeStored,
            UpdateAction::StoreMinimal { .. } => UpdateEvent::MinimalStored,
            UpdateAction::Finish(result) => {
                assert_eq!(result, Ok(()));
                break;
            }
        };
        events += 1;
        (cursor, action) = manager.update_envelope_flags(&request, cursor, event);
    }
    assert_eq!(events, 6 * count);
}
