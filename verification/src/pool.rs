//! Pooled IMAP connections: how the pool is set up, and when a connection is given up.
use crate::error::{is_error, ErrorCode, RustMailerError};
use vstd::prelude::*;

verus! {

/// A pooled connection: a session, and whether it is known to be broken.
pub struct MyImapConnection<S> {
    pub session: S,
    pub is_bad: bool,
}

/// How the `NOOP` that tests a connection has ended.
pub enum NoopOutcome {
    Answered,
    /// The command failed; the error is given as it is displayed for debugging.
    Failed(String),
    TimedOut,
}

/// How long a `NOOP` may take, in seconds.
pub const NOOP_TIMEOUT_SECS: u64 = 5;

/// How a pool of connections is set up. Times are in seconds.
#[derive(Clone, Copy, Debug, PartialEq, Eq, Structural)]
pub struct PoolSettings {
    pub connection_timeout: u64,
    pub idle_timeout: u64,
    pub max_lifetime: u64,
    pub retry_connection: bool,
    pub max_size: u32,
    pub min_idle: u32,
    pub test_on_check_out: bool,
}

/// The message of the error for a connection that is known to be broken.
pub open spec fn broken_message() -> Seq<char> {
    "Connection marked broken"@
}

/// The message of the error for a `NOOP` that took too long.
pub open spec fn timeout_message() -> Seq<char> {
    "NOOP timeout"@
}

/// The error message of a check, or `None` when the connection passes it. The outcome of the
/// `NOOP` does not matter for a connection that is known to be broken.
pub open spec fn check_error(is_bad: bool, outcome: NoopOutcome) -> Option<Seq<char>> {
    if is_bad {
        Some(broken_message())
    } else {
        match outcome {
            NoopOutcome::Answered => None,
            NoopOutcome::Failed(error) => Some(error@),
            NoopOutcome::TimedOut => Some(timeout_message()),
        }
    }
}

/// Whether a connection counts as broken after a check.
pub open spec fn is_bad_after(is_bad: bool, outcome: NoopOutcome) -> bool {
    is_bad || !(outcome is Answered)
}

/// Whether a connection that was good at first counts as broken after a run of checks.
pub open spec fn is_bad_after_all(outcomes: Seq<NoopOutcome>) -> bool
    decreases outcomes.len(),
{
    outcomes.len() > 0 && is_bad_after(is_bad_after_all(outcomes.drop_last()), outcomes.last())
}

/// Whether settings are such that a pool can be built with them: there is room for at least
/// one connection and for those kept idle, and no time is zero.
pub open spec fn is_buildable(settings: PoolSettings) -> bool {
    &&& 0 < settings.max_size
    &&& settings.min_idle <= settings.max_size
    &&& 0 < settings.connection_timeout
    &&& 0 < settings.idle_timeout
    &&& 0 < settings.max_lifetime
}

impl<S> MyImapConnection<S> {
    /// A connection over a session that has just been built.
    pub fn connect(session: S) -> (connection: Self)
        ensures
            connection.session == session,
            !connection.is_bad,
    {
        MyImapConnection { session, is_bad: false }
    }

    /// Refuses a connection that is known to be broken. Any other is to be tested with a
    /// `NOOP` before it is used.
    pub fn check_mark(&self) -> (result: Result<(), RustMailerError>)
        ensures
            result is Err <==> self.is_bad,
            result matches Err(error) ==> is_error(
                error,
                broken_message(),
                ErrorCode::ImapCommandFailed,
            ),
    {
        if self.is_bad {
            Err(
                RustMailerError {
                    message: "Connection marked broken".to_string(),
                    code: ErrorCode::ImapCommandFailed,
                },
            )
        } else {
            Ok(())
        }
    }

    /// Judges a connection by its mark and, if that is clear, by how the `NOOP` has ended.
    /// Unless the `NOOP` was answered, the connection counts as broken from then on.
    pub fn is_valid(&mut self, outcome: NoopOutcome) -> (result: Result<(), RustMailerError>)
        ensures
            final(self).session == old(self).session,
            final(self).is_bad == is_bad_after(old(self).is_bad, outcome),
            result is Err <==> check_error(old(self).is_bad, outcome) is Some,
            result matches Err(error) ==> is_error(
                error,
                check_error(old(self).is_bad, outcome).unwrap(),
                ErrorCode::ImapCommandFailed,
            ),
    {
        if let Err(error) = self.check_mark() {
            return Err(error);
        }
        match outcome {
            NoopOutcome::Answered => Ok(()),
            NoopOutcome::Failed(message) => {
                self.is_bad = true;
                Err(RustMailerError { message, code: ErrorCode::ImapCommandFailed })
            },
            NoopOutcome::TimedOut => {
                self.is_bad = true;
                Err(
                    RustMailerError {
                        message: "NOOP timeout".to_string(),
                        code: ErrorCode::ImapCommandFailed,
                    },
                )
            },
        }
    }

    /// Whether the connection is known to be broken.
    pub fn has_broken(&self) -> (broken: bool)
        ensures
            broken == self.is_bad,
    {
        self.is_bad
    }
}

impl<S> std::ops::Deref for MyImapConnection<S> {
    type Target = S;

    /// The session.
    fn deref(&self) -> (session: &S)
        ensures
            *session == self.session,
    {
        &self.session
    }
}

impl<S> std::ops::DerefMut for MyImapConnection<S> {
    /// The session, to be changed.
    fn deref_mut(&mut self) -> (session: &mut S)
        ensures
            *session == old(self).session,
            final(self).session == *final(session),
            final(self).is_bad == old(self).is_bad,
    {
        &mut self.session
    }
}

/// How the pool of IMAP connections of an account is set up.
pub fn imap_pool_settings() -> (settings: PoolSettings)
    ensures
        settings == (PoolSettings {
            connection_timeout: 20,
            idle_timeout: 60,
            max_lifetime: 60,
            retry_connection: false,
            max_size: 8,
            min_idle: 2,
            test_on_check_out: true,
        }),
        is_buildable(settings),
{
    PoolSettings {
        connection_timeout: 20,
        idle_timeout: 60,
        max_lifetime: 60,
        retry_connection: false,
        max_size: 8,
        min_idle: 2,
        test_on_check_out: true,
    }
}

/// A check passes exactly when the connection was good before and counts as good after it.
pub proof fn law_check_passes_iff_good(is_bad: bool, outcome: NoopOutcome)
    ensures
        check_error(is_bad, outcome) is None <==> !is_bad_after(is_bad, outcome),
{
}

/// One `NOOP` that is not answered is enough for a connection to count as broken ever after,
/// and every later check refuses it as such.
pub proof fn law_broken_for_good(
    outcomes: Seq<NoopOutcome>,
    failed: int,
    later: NoopOutcome,
)
    requires
        0 <= failed < outcomes.len(),
        !(outcomes[failed] is Answered),
    ensures
        is_bad_after_all(outcomes),
        check_error(is_bad_after_all(outcomes), later) == Some(broken_message()),
    decreases outcomes.len(),
{
    if failed < outcomes.len() - 1 {
        law_broken_for_good(outcomes.drop_last(), failed, later);
    }
}

/// A connection whose every `NOOP` is answered stays good.
pub proof fn law_answered_stays_good(outcomes: Seq<NoopOutcome>)
    requires
        forall|i: int| 0 <= i < outcomes.len() ==> (#[trigger] outcomes[i]) is Answered,
    ensures
        !is_bad_after_all(outcomes),
    decreases outcomes.len(),
{
    if outcomes.len() > 0 {
        assert forall|i: int| 0 <= i < outcomes.len() - 1 implies (
        #[trigger] outcomes.drop_last()[i]) is Answered by {
            assert(outcomes[i] is Answered);
        }
        law_answered_stays_good(outcomes.drop_last());
        assert(outcomes.last() is Answered);
    }
}

/// A new connection has the session that it was made with, and is good.
pub proof fn law_new_connection_is_good<S>(session: S, connection: MyImapConnection<S>, broken: bool)
    requires
        call_ensures(MyImapConnection::<S>::connect, (session,), connection),
        call_ensures(MyImapConnection::<S>::has_broken, (&connection,), broken),
    ensures
        connection.session == session,
        !broken,
{
}

/// The mark alone refuses exactly a broken connection, and says so.
pub proof fn law_mark_refuses_the_broken<S>(
    connection: &MyImapConnection<S>,
    broken: bool,
    result: Result<(), RustMailerError>,
)
    requires
        call_ensures(MyImapConnection::<S>::has_broken, (connection,), broken),
        call_ensures(MyImapConnection::<S>::check_mark, (connection,), result),
    ensures
        broken <==> connection.is_bad,
        broken <==> result is Err,
        result matches Err(error) ==> error.message@ == "Connection marked broken"@ && error.code
            == ErrorCode::ImapCommandFailed,
{
}

/// A broken connection is refused as such and stays broken, however its `NOOP` has ended. A
/// good one passes and stays good exactly when its `NOOP` was answered; else it is broken, and
/// refused with the error of the `NOOP` or with its timeout. The session is left alone.
pub proof fn law_noop_decides_about_the_good<S>(
    connection: &mut MyImapConnection<S>,
    outcome: NoopOutcome,
    result: Result<(), RustMailerError>,
)
    requires
        call_ensures(MyImapConnection::<S>::is_valid, (connection, outcome), result),
    ensures
        final(connection).session == old(connection).session,
        result is Ok <==> !old(connection).is_bad && outcome is Answered,
        result is Ok <==> !final(connection).is_bad,
        result matches Err(error) ==> error.code == ErrorCode::ImapCommandFailed,
        old(connection).is_bad ==> (result matches Err(error) && error.message@
            == "Connection marked broken"@),
        !old(connection).is_bad && outcome is TimedOut ==> (result matches Err(error)
            && error.message@ == "NOOP timeout"@),
        !old(connection).is_bad ==> (outcome matches NoopOutcome::Failed(text) ==> (
        result matches Err(error) && error.message@ == text@)),
{
}

/// A connection that has failed one check fails every later one, and counts as broken.
pub proof fn law_failed_check_is_for_good<S>(
    first: &mut MyImapConnection<S>,
    second: &mut MyImapConnection<S>,
    earlier: NoopOutcome,
    later: NoopOutcome,
    failed: Result<(), RustMailerError>,
    result: Result<(), RustMailerError>,
    broken: bool,
)
    requires
        call_ensures(MyImapConnection::<S>::is_valid, (first, earlier), failed),
        failed is Err,
        *second == *final(first),
        call_ensures(MyImapConnection::<S>::has_broken, (&*second,), broken),
        call_ensures(MyImapConnection::<S>::is_valid, (second, later), result),
    ensures
        broken,
        result matches Err(error) && error.message@ == "Connection marked broken"@,
{
}

/// The pool has at most eight connections and keeps two idle. It waits twenty seconds for one,
/// without a second try, gives one up after a minute, idle or not, and tests every one that it
/// hands out. A `NOOP` has five seconds.
pub proof fn law_pool_settings(settings: PoolSettings)
    requires
        call_ensures(imap_pool_settings, (), settings),
    ensures
        settings.connection_timeout == 20,
        settings.idle_timeout == 60,
        settings.max_lifetime == 60,
        !settings.retry_connection,
        settings.max_size == 8,
        settings.min_idle == 2,
        settings.test_on_check_out,
        NOOP_TIMEOUT_SECS == 5,
{
}

/// Connections can be made over any session, and tested with any outcome.
pub proof fn law_connections_take_any_session<S>(
    session: S,
    connection: &mut MyImapConnection<S>,
    reader: &MyImapConnection<S>,
    outcome: NoopOutcome,
)
    ensures
        call_requires(MyImapConnection::<S>::connect, (session,)),
        call_requires(MyImapConnection::<S>::check_mark, (reader,)),
        call_requires(MyImapConnection::<S>::is_valid, (connection, outcome)),
        call_requires(MyImapConnection::<S>::has_broken, (reader,)),
        call_requires(imap_pool_settings, ()),
{
}

/// A connection stands for its session: what is reached through it is the session, what is
/// changed through it is the session, and its mark stays.
pub proof fn law_connection_stands_for_its_session<S>(
    reader: &MyImapConnection<S>,
    read: &S,
    writer: &mut MyImapConnection<S>,
    written: &mut S,
)
    requires
        call_ensures(<MyImapConnection<S> as std::ops::Deref>::deref, (reader,), read),
        call_ensures(<MyImapConnection<S> as std::ops::DerefMut>::deref_mut, (writer,), written),
    ensures
        *read == reader.session,
        *old(written) == old(writer).session,
        final(writer).session == *final(written),
        final(writer).is_bad == old(writer).is_bad,
{
}

} // verus!
