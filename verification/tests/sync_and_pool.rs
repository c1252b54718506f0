use envelope_flags::account::{AccountModel, AuthType, MailerType};
use envelope_flags::error::ErrorCode;
use envelope_flags::pool::{imap_pool_settings, MyImapConnection, NoopOutcome};
use envelope_flags::tasks::AccountSyncTask;
use envelope_flags::text::decimal_text;
use envelope_flags::tick::{decide_tick, decide_token, throttle_warning, TickStep, TokenStep};
use envelope_flags::watchdog::{watchdog_verdict, SyncOutcome, WatchdogVerdict};

fn account(enabled: bool, mailer_type: MailerType, imap_auth: Option<AuthType>) -> AccountModel {
    AccountModel {
        id: 4,
        email: "four@example.org".to_string(),
        enabled,
        minimal_sync: false,
        mailer_type,
        imap_auth,
    }
}

#[test]
fn numbers_in_decimal() {
    assert_eq!(decimal_text(0), "0");
    assert_eq!(decimal_text(9), "9");
    assert_eq!(decimal_text(10), "10");
    assert_eq!(decimal_text(1_234_567_890), "1234567890");
    assert_eq!(decimal_text(u64::MAX), "18446744073709551615");
}

#[test]
fn tick_decides_by_account() {
    assert_eq!(decide_tick(&None), TickStep::ReportMissing);
    let disabled = account(false, MailerType::ImapSmtp, None);
    assert_eq!(decide_tick(&Some(disabled)), TickStep::SkipDisabled);
    let password = account(true, MailerType::ImapSmtp, Some(AuthType::Password));
    assert_eq!(decide_tick(&Some(password)), TickStep::Sync(MailerType::ImapSmtp));
    let oauth = account(true, MailerType::ImapSmtp, Some(AuthType::OAuth2));
    assert_eq!(decide_tick(&Some(oauth)), TickStep::LookUpToken(MailerType::ImapSmtp));
    let gmail = account(true, MailerType::GmailApi, None);
    assert_eq!(decide_tick(&Some(gmail)), TickStep::LookUpToken(MailerType::GmailApi));
    let graph = account(true, MailerType::GraphApi, None);
    assert_eq!(decide_tick(&Some(graph)), TickStep::LookUpToken(MailerType::GraphApi));
}

#[test]
fn token_decides_the_sync() {
    let gmail = MailerType::GmailApi;
    let found: Result<bool, String> = Ok(true);
    assert_eq!(decide_token(gmail, found, 1), Ok(TokenStep::Sync(gmail)));
    let missing: Result<bool, String> = Ok(false);
    assert_eq!(
        decide_token(gmail, missing.clone(), 600_000),
        Ok(TokenStep::Abort { warn: true })
    );
    assert_eq!(
        decide_token(gmail, missing.clone(), -300_000),
        Ok(TokenStep::Abort { warn: true })
    );
    assert_eq!(
        decide_token(gmail, missing, 600_001),
        Ok(TokenStep::Abort { warn: false })
    );
    let failed: Result<bool, String> = Err("no table".to_string());
    assert_eq!(decide_token(gmail, failed, 0), Err("no table".to_string()));
}

#[test]
fn warnings_are_spaced() {
    let mut last: i64 = 0;
    assert!(!throttle_warning(&mut last, 599_999));
    assert_eq!(last, 0);
    assert!(throttle_warning(&mut last, 600_000));
    assert_eq!(last, 600_000);
    assert!(!throttle_warning(&mut last, 1_199_999));
    assert!(throttle_warning(&mut last, 1_200_000));
    assert_eq!(last, 1_200_000);
}

#[test]
fn watchdog_reports_errors_and_timeouts() {
    let silent = WatchdogVerdict {
        abort: false,
        status_error: None,
    };
    assert_eq!(watchdog_verdict(SyncOutcome::Succeeded), silent);
    assert_eq!(watchdog_verdict(SyncOutcome::TaskLost), silent);
    assert_eq!(
        watchdog_verdict(SyncOutcome::Errored("Broken".to_string())),
        WatchdogVerdict {
            abort: false,
            status_error: Some("error in account sync task: Broken".to_string()),
        }
    );
    assert_eq!(
        watchdog_verdict(SyncOutcome::TimedOut),
        WatchdogVerdict {
            abort: true,
            status_error: Some(
                "account sync task did not finish within 1800 seconds and was abandoned; if this keeps happening, the sync pipeline is wedged and should be investigated"
                    .to_string()
            ),
        }
    );
}

#[test]
fn stop_hands_back_the_started_task() {
    let mut tasks = AccountSyncTask::new();
    assert_eq!(tasks.stop(1), None);
    assert_eq!(tasks.start_account_sync_task(1, 100), None);
    assert_eq!(tasks.start_account_sync_task(2, 200), None);
    assert_eq!(tasks.start_account_sync_task(1, 101), Some(100));
    assert_eq!(tasks.stop(1), Some(101));
    assert_eq!(tasks.stop(1), None);
    assert_eq!(tasks.stop(2), Some(200));
}

#[test]
fn task_is_named_after_the_account() {
    assert_eq!(
        AccountSyncTask::sync_task_name(17, "a@example.org"),
        "account-sync-task-17-a@example.org"
    );
}

#[test]
fn answered_connection_stays_good() {
    let mut connection = MyImapConnection::connect(3u8);
    assert!(!connection.has_broken());
    assert_eq!(connection.check_mark(), Ok(()));
    assert_eq!(connection.is_valid(NoopOutcome::Answered), Ok(()));
    assert!(!connection.has_broken());
    *connection = 4;
    assert_eq!(*connection, 4);
    assert_eq!(connection.session, 4);
}

#[test]
fn failed_connection_is_broken_for_good() {
    let mut connection = MyImapConnection::connect(());
    let error = connection
        .is_valid(NoopOutcome::Failed("ConnectionLost".to_string()))
        .unwrap_err();
    assert_eq!(error.message, "ConnectionLost");
    assert_eq!(error.code, ErrorCode::ImapCommandFailed);
    assert!(connection.has_broken());
    let error = connection.check_mark().unwrap_err();
    assert_eq!(error.message, "Connection marked broken");
    assert_eq!(error.code, ErrorCode::ImapCommandFailed);
    let error = connection.is_valid(NoopOutcome::Answered).unwrap_err();
    assert_eq!(error.message, "Connection marked broken");
    assert!(connection.has_broken());
}

#[test]
fn unanswered_connection_is_broken() {
    let mut connection = MyImapConnection::connect(());
    let error = connection.is_valid(NoopOutcome::TimedOut).unwrap_err();
    assert_eq!(error.message, "NOOP timeout");
    assert_eq!(error.code, ErrorCode::ImapCommandFailed);
    assert!(connection.has_broken());
}

#[test]
fn pool_settings_are_fixed() {
    let settings = imap_pool_settings();
    assert_eq!(settings.connection_timeout, 20);
    assert_eq!(settings.idle_timeout, 60);
    assert_eq!(settings.max_lifetime, 60);
    assert!(!settings.retry_connection);
    assert_eq!(settings.max_size, 8);
    assert_eq!(settings.min_idle, 2);
    assert!(settings.test_on_check_out);
}
