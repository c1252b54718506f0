//! One tick of an account's periodic sync: whether to sync, how, and when to warn.
use crate::account::{AccountModel, AuthType, MailerType};
use vstd::prelude::*;

verus! {

/// The time between two ticks, in seconds.
pub const TASK_INTERVAL_SECS: u64 = 10;

/// The least time between two warnings about disabled accounts, in milliseconds.
pub const WARN_INTERVAL_MS: i64 = 600_000;

/// A warning about a missing authorization is given at the multiples of this time, in
/// milliseconds.
pub const TOKEN_WARN_PERIOD_MS: i64 = 300_000;

/// What a tick does about the account.
#[derive(Clone, Copy, Debug, PartialEq, Eq, Structural)]
pub enum TickStep {
    /// There is no such account; report it.
    ReportMissing,
    /// The account is disabled; it is not synchronized.
    SkipDisabled,
    /// Look up the OAuth2 token, and ask again with what was found.
    LookUpToken(MailerType),
    /// Synchronize the account.
    Sync(MailerType),
}

/// What a tick does once the OAuth2 token has been looked up.
#[derive(Clone, Copy, Debug, PartialEq, Eq, Structural)]
pub enum TokenStep {
    Sync(MailerType),
    /// The authorization is missing; the account is not synchronized.
    Abort { warn: bool },
}

/// Whether an account is synchronized only with an OAuth2 token.
pub open spec fn needs_token(account: AccountModel) -> bool {
    account.mailer_type != MailerType::ImapSmtp || account.imap_auth == Some(AuthType::OAuth2)
}

/// What a tick does about an account.
pub open spec fn tick_step(account: Option<AccountModel>) -> TickStep {
    match account {
        None => TickStep::ReportMissing,
        Some(account) => if !account.enabled {
            TickStep::SkipDisabled
        } else if needs_token(account) {
            TickStep::LookUpToken(account.mailer_type)
        } else {
            TickStep::Sync(account.mailer_type)
        },
    }
}

/// Decides what a tick does about an account.
pub fn decide_tick(account: &Option<AccountModel>) -> (step: TickStep)
    requires
        account matches Some(a) ==> a.enabled && a.mailer_type == MailerType::ImapSmtp
            ==> a.imap_auth is Some,
    ensures
        step == tick_step(*account),
{
    match account {
        None => TickStep::ReportMissing,
        Some(account) => {
            if !account.enabled {
                TickStep::SkipDisabled
            } else {
                match account.mailer_type {
                    MailerType::ImapSmtp => match account.imap_auth {
                        Some(AuthType::OAuth2) => TickStep::LookUpToken(MailerType::ImapSmtp),
                        _ => TickStep::Sync(MailerType::ImapSmtp),
                    },
                    mailer_type => TickStep::LookUpToken(mailer_type),
                }
            }
        },
    }
}

/// Decides what a tick does once the token has been looked up. A lookup that failed ends the
/// tick with its error. `now` is the time in milliseconds.
pub fn decide_token<E>(mailer_type: MailerType, token_found: Result<bool, E>, now: i64) -> (step:
    Result<TokenStep, E>)
    ensures
        step == (match token_found {
            Ok(true) => Ok(TokenStep::Sync(mailer_type)),
            Ok(false) => Ok(
                TokenStep::Abort { warn: now as int % TOKEN_WARN_PERIOD_MS as int == 0 },
            ),
            Err(error) => Err(error),
        }),
{
    match token_found {
        Ok(true) => Ok(TokenStep::Sync(mailer_type)),
        Ok(false) => Ok(TokenStep::Abort { warn: now % TOKEN_WARN_PERIOD_MS == 0 }),
        Err(error) => Err(error),
    }
}

/// Whether a warning about a disabled account is due.
pub open spec fn warning_due(last: i64, now: i64) -> bool {
    now - last >= WARN_INTERVAL_MS
}

/// Decides whether to warn about a disabled account, and takes note of the time if so. `last`
/// is when the last such warning was given, `now` is the time, both in milliseconds.
pub fn throttle_warning(last: &mut i64, now: i64) -> (warn: bool)
    requires
        i64::MIN <= now - *old(last) <= i64::MAX,
    ensures
        warn == warning_due(*old(last), now),
        *final(last) == (if warning_due(*old(last), now) {
            now
        } else {
            *old(last)
        }),
{
    if now - *last >= WARN_INTERVAL_MS {
        *last = now;
        true
    } else {
        false
    }
}

/// When the last warning was given, after ticks at the given times.
pub open spec fn last_warning(last: i64, ticks: Seq<i64>) -> i64
    decreases ticks.len(),
{
    if ticks.len() == 0 {
        last
    } else {
        let earlier = last_warning(last, ticks.drop_last());
        if warning_due(earlier, ticks.last()) {
            ticks.last()
        } else {
            earlier
        }
    }
}

/// The times of the warnings among ticks at the given times.
pub open spec fn warnings(last: i64, ticks: Seq<i64>) -> Seq<i64>
    decreases ticks.len(),
{
    if ticks.len() == 0 {
        seq![]
    } else {
        let earlier = warnings(last, ticks.drop_last());
        if warning_due(last_warning(last, ticks.drop_last()), ticks.last()) {
            earlier.push(ticks.last())
        } else {
            earlier
        }
    }
}

/// Warnings about disabled accounts are at least the warning interval apart, and the first one
/// comes at least that long after the last one before.
pub proof fn law_warnings_are_spaced(last: i64, ticks: Seq<i64>)
    ensures
        warnings(last, ticks).len() == 0 ==> last_warning(last, ticks) == last,
        warnings(last, ticks).len() > 0 ==> last_warning(last, ticks) == warnings(last, ticks).last()
            && warnings(last, ticks)[0] - last >= WARN_INTERVAL_MS,
        forall|i: int|
            0 < i < warnings(last, ticks).len() ==> (#[trigger] warnings(last, ticks)[i])
                - warnings(last, ticks)[i - 1] >= WARN_INTERVAL_MS,
    decreases ticks.len(),
{
    if ticks.len() > 0 {
        law_warnings_are_spaced(last, ticks.drop_last());
    }
}

/// Once the warning interval has passed since the last warning, the next tick warns.
pub proof fn law_overdue_warning_is_given(last: i64, ticks: Seq<i64>, now: i64)
    requires
        now - last_warning(last, ticks) >= WARN_INTERVAL_MS,
    ensures
        warnings(last, ticks.push(now)) == warnings(last, ticks).push(now),
{
    assert(ticks.push(now).drop_last() =~= ticks);
}

/// An account is synchronized only when it is there and enabled, and over its own protocol;
/// without a token only when it logs in to IMAP without OAuth2.
pub proof fn law_sync_needs_permission(account: Option<AccountModel>, mailer_type: MailerType)
    ensures
        tick_step(account) == TickStep::Sync(mailer_type) ==> {
            &&& account matches Some(a)
            &&& a.enabled
            &&& mailer_type == MailerType::ImapSmtp
            &&& a.mailer_type == MailerType::ImapSmtp
            &&& a.imap_auth != Some(AuthType::OAuth2)
        },
        tick_step(account) == TickStep::LookUpToken(mailer_type) ==> {
            &&& account matches Some(a)
            &&& a.enabled
            &&& a.mailer_type == mailer_type
            &&& needs_token(a)
        },
{
}

/// A tick reports an account exactly when it is missing, and skips it exactly when it is there
/// and disabled. An enabled account is synchronized at once exactly when it is an IMAP account
/// that does not log in with OAuth2, and else its token is looked up, for its own protocol.
/// Nothing else about the account matters.
pub proof fn law_tick_skips_only_the_disabled(account: &Option<AccountModel>, step: TickStep)
    requires
        call_ensures(decide_tick, (account,), step),
    ensures
        step == TickStep::ReportMissing <==> account is None,
        step == TickStep::SkipDisabled <==> (account matches Some(a) && !a.enabled),
        step is Sync <==> (account matches Some(a) && a.enabled && a.mailer_type
            == MailerType::ImapSmtp && a.imap_auth != Some(AuthType::OAuth2)),
        step is LookUpToken <==> (account matches Some(a) && a.enabled && (a.mailer_type
            != MailerType::ImapSmtp || a.imap_auth == Some(AuthType::OAuth2))),
        step matches TickStep::Sync(mailer_type) ==> mailer_type
            == account.unwrap().mailer_type,
        step matches TickStep::LookUpToken(mailer_type) ==> mailer_type
            == account.unwrap().mailer_type,
{
}

/// An account is synchronized with a token and not without one, over the protocol that the
/// token was looked up for. A missing token is warned of at the multiples of five minutes, and
/// a failed lookup ends the tick with its error.
pub proof fn law_token_decides_the_sync<E>(
    mailer_type: MailerType,
    token_found: Result<bool, E>,
    now: i64,
    step: Result<TokenStep, E>,
)
    requires
        call_ensures(decide_token::<E>, (mailer_type, token_found, now), step),
    ensures
        token_found == Ok::<bool, E>(true) ==> step == Ok::<TokenStep, E>(
            TokenStep::Sync(mailer_type),
        ),
        token_found == Ok::<bool, E>(false) ==> (step matches Ok(TokenStep::Abort { warn }) && (warn
            <==> exists|k: int| now == #[trigger] (k * 300_000))),
        token_found matches Err(error) ==> step == Err::<TokenStep, E>(error),
{
    let period: int = 300_000;
    if now as int % period == 0 {
        let k = now as int / period;
        assert(now == k * 300_000);
    }
    if exists|k: int| now == #[trigger] (k * 300_000) {
        let k = choose|k: int| now == #[trigger] (k * 300_000);
        assert(now as int % period == 0);
    }
}

/// A warning is given exactly when ten minutes have passed since the last one, and then counts
/// as the last one; else the last one stays.
pub proof fn law_warning_waits_ten_minutes(last: &mut i64, now: i64, warn: bool)
    requires
        call_ensures(throttle_warning, (last, now), warn),
    ensures
        warn <==> now - *old(last) >= 600_000,
        warn ==> *final(last) == now,
        !warn ==> *final(last) == *old(last),
{
}

/// Of two warnings in a row the second comes at least ten minutes after the first.
pub proof fn law_second_warning_waits(
    first: &mut i64,
    second: &mut i64,
    earlier: i64,
    later: i64,
)
    requires
        call_ensures(throttle_warning, (first, earlier), true),
        *second == *final(first),
        call_ensures(throttle_warning, (second, later), true),
    ensures
        later - earlier >= 600_000,
{
}

/// A tick can be decided for any account but an enabled IMAP account without IMAP settings, a
/// token for any lookup, and a warning for any two times whose difference does not overflow.
pub proof fn law_tick_takes_any_account<E>(
    account: &Option<AccountModel>,
    mailer_type: MailerType,
    token_found: Result<bool, E>,
    last: &mut i64,
    now: i64,
)
    ensures
        !(account matches Some(a) && a.enabled && a.mailer_type == MailerType::ImapSmtp
            && a.imap_auth is None) ==> call_requires(decide_tick, (account,)),
        call_requires(decide_token::<E>, (mailer_type, token_found, now)),
        i64::MIN <= now - *old(last) <= i64::MAX ==> call_requires(throttle_warning, (last, now)),
{
}

/// Ticks are ten seconds apart.
pub proof fn law_ticks_are_ten_seconds_apart()
    ensures
        TASK_INTERVAL_SECS == 10,
{
}

} // verus!
