//! What becomes of an account sync that has ended, or has not.
use crate::text::{decimal, decimal_text};
use vstd::prelude::*;

verus! {

/// How long one account sync may run, in seconds.
pub const SYNC_TIMEOUT_SECS: u64 = 1800;

/// How an account sync has ended.
pub enum SyncOutcome {
    Succeeded,
    /// The sync returned an error, given as it is displayed for debugging.
    Errored(String),
    /// The task that ran the sync was cancelled or panicked.
    TaskLost,
    /// The sync was still running when its time was up.
    TimedOut,
}

/// What the watchdog does about it.
#[derive(Debug, PartialEq, Eq)]
pub struct WatchdogVerdict {
    /// Whether the task is to be aborted.
    pub abort: bool,
    /// The error to append to the account's status, if any.
    pub status_error: Option<String>,
}

/// The status error for a sync that returned an error.
pub open spec fn sync_error_message(error: Seq<char>) -> Seq<char> {
    "error in account sync task: "@ + error
}

/// The status error for a sync that was abandoned.
pub open spec fn abandoned_message() -> Seq<char> {
    "account sync task did not finish within "@ + decimal(SYNC_TIMEOUT_SECS as nat)
        + " seconds and was abandoned; if this keeps happening, the sync pipeline is wedged and should be investigated"@
}

/// The status error for an outcome, if any.
pub open spec fn status_error(outcome: SyncOutcome) -> Option<Seq<char>> {
    match outcome {
        SyncOutcome::Succeeded => None,
        SyncOutcome::Errored(error) => Some(sync_error_message(error@)),
        SyncOutcome::TaskLost => None,
        SyncOutcome::TimedOut => Some(abandoned_message()),
    }
}

/// Decides what to do about a sync. Only a sync whose time is up is aborted; an error and an
/// abandoned sync show in the account's status.
pub fn watchdog_verdict(outcome: SyncOutcome) -> (verdict: WatchdogVerdict)
    ensures
        verdict.abort == (outcome is TimedOut),
        verdict.status_error is Some <==> status_error(outcome) is Some,
        verdict.status_error matches Some(message) ==> message@ == status_error(outcome).unwrap(),
{
    match outcome {
        SyncOutcome::Succeeded => WatchdogVerdict { abort: false, status_error: None },
        SyncOutcome::Errored(error) => {
            let mut message = "error in account sync task: ".to_string();
            message.append(error.as_str());
            WatchdogVerdict { abort: false, status_error: Some(message) }
        },
        SyncOutcome::TaskLost => WatchdogVerdict { abort: false, status_error: None },
        SyncOutcome::TimedOut => {
            let mut message = "account sync task did not finish within ".to_string();
            message.append(decimal_text(SYNC_TIMEOUT_SECS).as_str());
            message.append(
                " seconds and was abandoned; if this keeps happening, the sync pipeline is wedged and should be investigated",
            );
            WatchdogVerdict { abort: true, status_error: Some(message) }
        },
    }
}

/// Exactly a sync that has run for thirty minutes is aborted. Nothing shows in the status for
/// one that succeeded or whose task was lost; for one that returned an error its text shows
/// whole, and for one that was abandoned how long it had.
pub proof fn law_watchdog_reports_errors_and_timeouts(
    outcome: SyncOutcome,
    verdict: WatchdogVerdict,
)
    requires
        call_ensures(watchdog_verdict, (outcome,), verdict),
    ensures
        verdict.abort <==> outcome is TimedOut,
        outcome is Succeeded || outcome is TaskLost ==> verdict.status_error is None,
        outcome matches SyncOutcome::Errored(error) ==> (verdict.status_error matches Some(message)
            && message@ == "error in account sync task: "@ + error@),
        outcome is TimedOut ==> (verdict.status_error matches Some(message) && message@
            == "account sync task did not finish within "@ + "1800"@
            + " seconds and was abandoned; if this keeps happening, the sync pipeline is wedged and should be investigated"@),
        SYNC_TIMEOUT_SECS == 1800,
{
    reveal_strlit("1800");
    reveal_with_fuel(decimal, 5);
    assert(decimal(1800) =~= "1800"@);
}

/// Any outcome can be judged.
pub proof fn law_watchdog_takes_any_outcome(outcome: SyncOutcome)
    ensures
        call_requires(watchdog_verdict, (outcome,)),
{
}

} // verus!
