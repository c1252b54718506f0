//! Taking over flags that the server has reported: what is to be done, message by message,
//! who is notified, and when the cache follows the stores.
use crate::cache_laws::{has_level, holds};
use crate::envelope::{EmailEnvelope, EmailFlagsChanged};
use crate::flags::{
    clone_flags, is_flag_diff, keywords, lemma_same_as_third, lemma_same_keywords,
    lemma_texts_left, lists, same_flags, texts, texts_without, EnvelopeFlag,
};
use crate::manager::EnvelopeFlagsManager;
use crate::state::{recorded, FlagsState};
use vstd::prelude::*;

verus! {

/// The flags that the server has reported for messages of a mailbox.
pub struct UpdateRequest {
    pub account_id: u64,
    pub account_email: String,
    /// Whether only minimal envelopes are kept for the account.
    pub minimal_sync: bool,
    pub mailbox_id: u64,
    pub data: Vec<(u32, Vec<EnvelopeFlag>)>,
}

/// What is awaited for the message at hand.
#[derive(Clone, Copy, Debug, PartialEq, Eq, Structural)]
pub enum UpdatePhase {
    /// Whether somebody watches the account's flags.
    AskingWatch,
    /// The message's envelope.
    Finding,
    /// That the notice has been queued.
    Notifying,
    /// The hash of the reported flags.
    Hashing,
    /// That the envelope store has the flags, whose hash is given.
    StoringEnvelope(u64),
    /// That the minimal envelope store has the hash.
    StoringMinimal(u64),
    /// Nothing: the request is over.
    Stopped,
}

/// The message at hand, by its position in the request, and what is awaited for it.
#[derive(Clone, Copy, Debug, PartialEq, Eq, Structural)]
pub struct UpdateCursor {
    pub index: usize,
    pub phase: UpdatePhase,
}

/// What has happened.
pub enum UpdateEvent<E> {
    /// Whether somebody watches the account's flags.
    Watched(bool),
    /// The envelope of the message, or that it is not in the store.
    Found(Option<EmailEnvelope>),
    Notified,
    Hashed(u64),
    EnvelopeStored,
    MinimalStored,
    /// The watch list or a store has failed.
    Failed(E),
}

/// What is to be done next.
pub enum UpdateAction<E> {
    AskWatching,
    FindEnvelope(u32),
    Notify(EmailFlagsChanged),
    HashFlags(Vec<EnvelopeFlag>),
    StoreEnvelope { uid: u32, flags: Vec<EnvelopeFlag>, flags_hash: u64 },
    StoreMinimal { uid: u32, flags_hash: u64 },
    Finish(Result<(), E>),
}

/// Whether the request goes on to hash the flags of the message at `index`.
pub open spec fn update_hashes<E>(
    request: UpdateRequest,
    index: int,
    after: UpdateCursor,
    action: UpdateAction<E>,
) -> bool {
    &&& after.index == index
    &&& after.phase is Hashing
    &&& action matches UpdateAction::HashFlags(flags)
    &&& keywords(flags@) == keywords(request.data@[index].1@)
}

/// Whether the request goes on with the message at `index`, or is over when there is none.
/// With minimal sync nobody is notified, so that its flags are hashed at once.
pub open spec fn update_goes_on<E>(
    request: UpdateRequest,
    index: int,
    after: UpdateCursor,
    action: UpdateAction<E>,
) -> bool {
    if index >= request.data@.len() {
        &&& after.phase is Stopped
        &&& action == UpdateAction::<E>::Finish(Ok(()))
    } else if request.minimal_sync {
        update_hashes(request, index, after, action)
    } else {
        &&& after.index == index
        &&& after.phase is AskingWatch
        &&& action is AskWatching
    }
}

/// Whether `notice` tells of the change from the flags of `current` to those reported for the
/// message at `index`.
pub open spec fn is_notice(
    request: UpdateRequest,
    index: int,
    current: EmailEnvelope,
    notice: EmailFlagsChanged,
) -> bool {
    &&& notice.account_id == request.account_id
    &&& notice.account_email@ == request.account_email@
    &&& notice.mailbox_name == current.mailbox_name
    &&& notice.uid == Some(request.data@[index].0)
    &&& notice.from == current.from
    &&& notice.to == current.to
    &&& notice.message_id == current.message_id
    &&& notice.subject == current.subject
    &&& notice.internal_date == current.internal_date
    &&& notice.date == current.date
    &&& is_flag_diff(
        keywords(current.flags@),
        keywords(request.data@[index].1@),
        texts(notice.flags_added@),
        texts(notice.flags_removed@),
    )
    &&& notice.mid is None
}

/// Whether an event is one of those that are awaited. Hashing and queueing cannot fail.
pub open spec fn update_awaits<E>(
    request: UpdateRequest,
    cursor: UpdateCursor,
    event: UpdateEvent<E>,
) -> bool {
    &&& cursor.index < request.data@.len()
    &&& match cursor.phase {
        UpdatePhase::AskingWatch => event is Watched || event is Failed,
        UpdatePhase::Finding => event is Found || event is Failed,
        UpdatePhase::Notifying => event is Notified,
        UpdatePhase::Hashing => event is Hashed,
        UpdatePhase::StoringEnvelope(_) => event is EnvelopeStored || event is Failed,
        UpdatePhase::StoringMinimal(_) => event is MinimalStored || event is Failed,
        UpdatePhase::Stopped => false,
    }
}

/// Whether `after` and `action` are what an awaited event leads to.
pub open spec fn update_step<E>(
    request: UpdateRequest,
    before: UpdateCursor,
    event: UpdateEvent<E>,
    after: UpdateCursor,
    action: UpdateAction<E>,
) -> bool {
    let index = before.index as int;
    let uid = request.data@[index].0;
    match event {
        UpdateEvent::Watched(false) => update_hashes(request, index, after, action),
        UpdateEvent::Watched(true) => {
            &&& after == (UpdateCursor { index: before.index, phase: UpdatePhase::Finding })
            &&& action == UpdateAction::<E>::FindEnvelope(uid)
        },
        UpdateEvent::Found(None) => update_hashes(request, index, after, action),
        UpdateEvent::Found(Some(current)) => {
            &&& after == (UpdateCursor { index: before.index, phase: UpdatePhase::Notifying })
            &&& action matches UpdateAction::Notify(notice)
            &&& is_notice(request, index, current, notice)
        },
        UpdateEvent::Notified => update_hashes(request, index, after, action),
        UpdateEvent::Hashed(flags_hash) => if request.minimal_sync {
            &&& after == (UpdateCursor {
                index: before.index,
                phase: UpdatePhase::StoringMinimal(flags_hash),
            })
            &&& action == UpdateAction::<E>::StoreMinimal { uid, flags_hash }
        } else {
            &&& after == (UpdateCursor {
                index: before.index,
                phase: UpdatePhase::StoringEnvelope(flags_hash),
            })
            &&& action matches UpdateAction::StoreEnvelope {
                uid: stored_uid,
                flags,
                flags_hash: stored_hash,
            }
            &&& stored_uid == uid
            &&& keywords(flags@) == keywords(request.data@[index].1@)
            &&& stored_hash == flags_hash
        },
        UpdateEvent::EnvelopeStored => {
            &&& before.phase matches UpdatePhase::StoringEnvelope(flags_hash)
            &&& after == (UpdateCursor {
                index: before.index,
                phase: UpdatePhase::StoringMinimal(flags_hash),
            })
            &&& action == UpdateAction::<E>::StoreMinimal { uid, flags_hash }
        },
        UpdateEvent::MinimalStored => update_goes_on(request, index + 1, after, action),
        UpdateEvent::Failed(error) => {
            &&& after.phase is Stopped
            &&& action == UpdateAction::<E>::Finish(Err(error))
        },
    }
}

/// The cache after an awaited event: the hash of the message at hand is recorded when the
/// stores have it, and nothing else changes.
pub open spec fn update_state<E>(
    request: UpdateRequest,
    before: UpdateCursor,
    event: UpdateEvent<E>,
    state: FlagsState,
) -> FlagsState {
    match (before.phase, event) {
        (UpdatePhase::StoringMinimal(flags_hash), UpdateEvent::MinimalStored) => recorded(
            state,
            request.account_id,
            request.mailbox_id,
            request.data@[before.index as int].0,
            flags_hash,
        ),
        _ => state,
    }
}

/// Goes on to hash the flags of the message at `index`.
fn update_hash_at<E>(request: &UpdateRequest, index: usize) -> (next: (
    UpdateCursor,
    UpdateAction<E>,
))
    requires
        index < request.data@.len(),
    ensures
        update_hashes(*request, index as int, next.0, next.1),
{
    (
        UpdateCursor { index, phase: UpdatePhase::Hashing },
        UpdateAction::HashFlags(clone_flags(&request.data[index].1)),
    )
}

/// Goes on with the message at `index`, or ends the request when there is none.
fn update_at<E>(request: &UpdateRequest, index: usize) -> (next: (UpdateCursor, UpdateAction<E>))
    ensures
        update_goes_on(*request, index as int, next.0, next.1),
{
    if index >= request.data.len() {
        (UpdateCursor { index, phase: UpdatePhase::Stopped }, UpdateAction::Finish(Ok(())))
    } else if request.minimal_sync {
        update_hash_at(request, index)
    } else {
        (UpdateCursor { index, phase: UpdatePhase::AskingWatch }, UpdateAction::AskWatching)
    }
}

/// The notice of the change to the flags reported for the message at `index`.
fn notice_at(request: &UpdateRequest, index: usize, current: EmailEnvelope) -> (notice:
    EmailFlagsChanged)
    requires
        index < request.data@.len(),
    ensures
        is_notice(*request, index as int, current, notice),
{
    let (flags_added, flags_removed) = EnvelopeFlagsManager::diff_envelope_flags(
        current.flags.as_slice(),
        request.data[index].1.as_slice(),
    );
    EmailFlagsChanged {
        account_id: request.account_id,
        account_email: request.account_email.clone(),
        mailbox_name: current.mailbox_name,
        uid: Some(request.data[index].0),
        from: current.from,
        to: current.to,
        message_id: current.message_id,
        subject: current.subject,
        internal_date: current.internal_date,
        date: current.date,
        flags_added,
        flags_removed,
        mid: None,
    }
}

impl EnvelopeFlagsManager {
    /// The texts of the flags that are in `new_flags` only, and of those that are in
    /// `old_flags` only.
    pub fn diff_envelope_flags(old_flags: &[EnvelopeFlag], new_flags: &[EnvelopeFlag]) -> (diff: (
        Vec<String>,
        Vec<String>,
    ))
        ensures
            is_flag_diff(
                keywords(old_flags@),
                keywords(new_flags@),
                texts(diff.0@),
                texts(diff.1@),
            ),
    {
        let added = texts_without(new_flags, old_flags);
        let removed = texts_without(old_flags, new_flags);
        (added, removed)
    }

    /// Starts on a request, with its first message. Also tells by how much the count of flag
    /// changes goes up.
    pub fn begin_update_envelope_flags<E>(request: &UpdateRequest) -> (next: (
        u64,
        UpdateCursor,
        UpdateAction<E>,
    ))
        ensures
            next.0 == request.data@.len(),
            update_goes_on(*request, 0, next.1, next.2),
    {
        let (cursor, action) = update_at(request, 0);
        (request.data.len() as u64, cursor, action)
    }

    /// Takes note of an event of a request, and tells what is to be done next.
    pub fn update_envelope_flags<E>(
        &mut self,
        request: &UpdateRequest,
        cursor: UpdateCursor,
        event: UpdateEvent<E>,
    ) -> (next: (UpdateCursor, UpdateAction<E>))
        requires
            update_awaits(*request, cursor, event),
        ensures
            update_step(*request, cursor, event, next.0, next.1),
            final(self)@ == update_state(*request, cursor, event, old(self)@),
    {
        let index: usize = cursor.index;
        let uid: u32 = request.data[index].0;
        assert(index < request.data.len());
        match (cursor.phase, event) {
            (UpdatePhase::AskingWatch, UpdateEvent::Watched(true)) => (
                UpdateCursor { index, phase: UpdatePhase::Finding },
                UpdateAction::FindEnvelope(uid),
            ),
            (UpdatePhase::AskingWatch, UpdateEvent::Watched(false)) => update_hash_at(
                request,
                index,
            ),
            (UpdatePhase::Finding, UpdateEvent::Found(Some(current))) => (
                UpdateCursor { index, phase: UpdatePhase::Notifying },
                UpdateAction::Notify(notice_at(request, index, current)),
            ),
            (UpdatePhase::Finding, UpdateEvent::Found(None)) => update_hash_at(request, index),
            (UpdatePhase::Notifying, UpdateEvent::Notified) => update_hash_at(request, index),
            (UpdatePhase::Hashing, UpdateEvent::Hashed(flags_hash)) => if request.minimal_sync {
                (
                    UpdateCursor { index, phase: UpdatePhase::StoringMinimal(flags_hash) },
                    UpdateAction::StoreMinimal { uid, flags_hash },
                )
            } else {
                (
                    UpdateCursor { index, phase: UpdatePhase::StoringEnvelope(flags_hash) },
                    UpdateAction::StoreEnvelope {
                        uid,
                        flags: clone_flags(&request.data[index].1),
                        flags_hash,
                    },
                )
            },
            (UpdatePhase::StoringEnvelope(flags_hash), UpdateEvent::EnvelopeStored) => (
                UpdateCursor { index, phase: UpdatePhase::StoringMinimal(flags_hash) },
                UpdateAction::StoreMinimal { uid, flags_hash },
            ),
            (UpdatePhase::StoringMinimal(flags_hash), UpdateEvent::MinimalStored) => {
                self.update_flag_change(request.account_id, request.mailbox_id, uid, flags_hash);
                update_at(request, index + 1)
            },
            (_, UpdateEvent::Failed(error)) => (
                UpdateCursor { index, phase: UpdatePhase::Stopped },
                UpdateAction::Finish(Err(error)),
            ),
            _ => vstd::pervasive::unreached(),
        }
    }
}

/// A request from its start on: the events that have happened, and the cursors, the actions
/// and the states of the cache before the first of them and after each.
pub struct UpdateRun<E> {
    pub events: Seq<UpdateEvent<E>>,
    pub cursors: Seq<UpdateCursor>,
    pub actions: Seq<UpdateAction<E>>,
    pub states: Seq<FlagsState>,
}

/// Whether a run is one of the given request.
pub open spec fn is_update_run<E>(request: UpdateRequest, run: UpdateRun<E>) -> bool {
    &&& run.cursors.len() == run.events.len() + 1
    &&& run.actions.len() == run.events.len() + 1
    &&& run.states.len() == run.events.len() + 1
    &&& update_goes_on(request, 0, run.cursors[0], run.actions[0])
    &&& forall|i: int|
        0 <= i < run.events.len() ==> {
            let event = #[trigger] run.events[i];
            &&& update_awaits(request, run.cursors[i], event)
            &&& update_step(request, run.cursors[i], event, run.cursors[i + 1], run.actions[i + 1])
            &&& run.states[i + 1] == update_state(request, run.cursors[i], event, run.states[i])
        }
}

/// The hashes that the stores have after the first `n` events, in the order of the request.
pub open spec fn update_hashes_stored<E>(run: UpdateRun<E>, n: nat) -> Seq<u64>
    decreases n,
{
    if n == 0 {
        seq![]
    } else {
        let earlier = update_hashes_stored(run, (n - 1) as nat);
        match (run.cursors[n - 1].phase, run.events[n - 1]) {
            (UpdatePhase::StoringMinimal(flags_hash), UpdateEvent::MinimalStored) => earlier.push(
                flags_hash,
            ),
            _ => earlier,
        }
    }
}

/// The cache after the hashes of the first messages of a request were recorded.
pub open spec fn hashes_recorded(
    request: UpdateRequest,
    hashes: Seq<u64>,
    state: FlagsState,
) -> FlagsState
    decreases hashes.len(),
{
    if hashes.len() == 0 {
        state
    } else {
        recorded(
            hashes_recorded(request, hashes.drop_last(), state),
            request.account_id,
            request.mailbox_id,
            request.data@[hashes.len() - 1].0,
            hashes.last(),
        )
    }
}

/// At any time of a request the cache is what it was at the start, with the hash of every
/// message recorded that the stores have. Messages are taken in the order of the request, and
/// the request ends well only when all of them are done.
pub proof fn law_update_follows_the_stores<E>(request: UpdateRequest, run: UpdateRun<E>, n: nat)
    requires
        is_update_run(request, run),
        n <= run.events.len(),
    ensures
        run.states[n as int] == hashes_recorded(
            request,
            update_hashes_stored(run, n),
            run.states[0],
        ),
        !(run.cursors[n as int].phase is Stopped) ==> update_hashes_stored(run, n).len()
            == run.cursors[n as int].index,
        run.actions[n as int] == UpdateAction::<E>::Finish(Ok(())) ==> update_hashes_stored(
            run,
            n,
        ).len() == request.data@.len(),
    decreases n,
{
    if n > 0 {
        let i = n - 1;
        law_update_follows_the_stores(request, run, i as nat);
        let event = run.events[i];
        assert(update_awaits(request, run.cursors[i], event));
        let earlier = update_hashes_stored(run, i as nat);
        if let UpdatePhase::StoringMinimal(flags_hash) = run.cursors[i].phase {
            assert(earlier.push(flags_hash).drop_last() =~= earlier);
        }
    }
}

/// With minimal sync nothing but hashing and the minimal envelope store is ever asked for:
/// nobody is notified, and the envelope store is neither read nor written.
pub proof fn law_minimal_sync_keeps_to_the_minimal_store<E>(
    request: UpdateRequest,
    run: UpdateRun<E>,
    n: int,
)
    requires
        is_update_run(request, run),
        request.minimal_sync,
        0 <= n <= run.events.len(),
    ensures
        run.actions[n] is HashFlags || run.actions[n] is StoreMinimal || run.actions[n] is Finish,
        run.cursors[n].phase is Hashing || run.cursors[n].phase is StoringMinimal
            || run.cursors[n].phase is Stopped,
    decreases n,
{
    if n > 0 {
        law_minimal_sync_keeps_to_the_minimal_store(request, run, n - 1);
        assert(update_awaits(request, run.cursors[n - 1], run.events[n - 1]));
    }
}

/// Without minimal sync the envelope store has the flags of a message before the minimal
/// envelope store is asked to take their hash.
pub proof fn law_full_sync_stores_envelope_first<E>(
    request: UpdateRequest,
    run: UpdateRun<E>,
    n: int,
)
    requires
        is_update_run(request, run),
        !request.minimal_sync,
        0 <= n <= run.events.len(),
        run.actions[n] is StoreMinimal,
    ensures
        n >= 2,
        run.events[n - 1] is EnvelopeStored,
        run.actions[n - 1] matches UpdateAction::StoreEnvelope { uid, flags, flags_hash }
            && run.actions[n] == (UpdateAction::<E>::StoreMinimal { uid, flags_hash })
            && keywords(flags@) == keywords(request.data@[run.cursors[n].index as int].1@),
{
    assert(n > 0);
    let event = run.events[n - 1];
    assert(update_awaits(request, run.cursors[n - 1], event));
    assert(event is EnvelopeStored);
    assert(n > 1);
    assert(update_awaits(request, run.cursors[n - 2], run.events[n - 2]));
}

/// A notice is sent only after somebody was found to watch the account and the message was
/// found, and it tells of the change from the flags that it had to those reported.
pub proof fn law_notice_needs_a_watcher<E>(request: UpdateRequest, run: UpdateRun<E>, n: int)
    requires
        is_update_run(request, run),
        0 <= n <= run.events.len(),
        run.actions[n] is Notify,
    ensures
        n >= 2,
        run.events[n - 2] == UpdateEvent::<E>::Watched(true),
        run.events[n - 1] matches UpdateEvent::Found(Some(current)) && is_notice(
            request,
            run.cursors[n].index as int,
            current,
            run.actions[n]->Notify_0,
        ),
{
    assert(n > 0);
    let event = run.events[n - 1];
    assert(update_awaits(request, run.cursors[n - 1], event));
    assert(event is Found);
    assert(n > 1);
    assert(update_awaits(request, run.cursors[n - 2], run.events[n - 2]));
}

/// A request ends with an error exactly when the watch list or a store has failed, and with
/// that error; the cache does not follow a message whose stores have failed.
pub proof fn law_update_stops_at_failure<E>(request: UpdateRequest, run: UpdateRun<E>, i: int)
    requires
        is_update_run(request, run),
        0 <= i < run.events.len(),
    ensures
        forall|error: E|
            run.actions[i + 1] == UpdateAction::<E>::Finish(Err(error)) <==> run.events[i]
                == UpdateEvent::Failed(error),
        run.events[i] is Failed ==> run.states[i + 1] == run.states[i] && i + 1
            == run.events.len(),
{
    let event = run.events[i];
    assert(update_awaits(request, run.cursors[i], event));
    if event is Failed && i + 1 < run.events.len() {
        let next = run.events[i + 1];
        assert(update_awaits(request, run.cursors[i + 1], next));
    }
}

/// How many events a message has behind it when this is awaited for it, at most.
spec fn update_rank(phase: UpdatePhase) -> int {
    match phase {
        UpdatePhase::AskingWatch => 0,
        UpdatePhase::Finding => 1,
        UpdatePhase::Notifying => 2,
        UpdatePhase::Hashing => 3,
        UpdatePhase::StoringEnvelope(_) => 4,
        UpdatePhase::StoringMinimal(_) => 5,
        UpdatePhase::Stopped => 0,
    }
}

/// Every message takes at most six events.
proof fn lemma_update_progress<E>(request: UpdateRequest, run: UpdateRun<E>, n: int)
    requires
        is_update_run(request, run),
        0 <= n <= run.events.len(),
    ensures
        n <= 6 * request.data@.len(),
        !(run.cursors[n].phase is Stopped) ==> run.cursors[n].index < request.data@.len() && n <= 6
            * run.cursors[n].index + update_rank(run.cursors[n].phase),
    decreases n,
{
    if n > 0 {
        lemma_update_progress(request, run, n - 1);
        assert(update_awaits(request, run.cursors[n - 1], run.events[n - 1]));
    }
}

/// A request is over after at most six events for each of its messages.
pub proof fn law_update_ends<E>(request: UpdateRequest, run: UpdateRun<E>)
    requires
        is_update_run(request, run),
    ensures
        run.events.len() <= 6 * request.data@.len(),
        run.events.len() == 6 * request.data@.len() ==> run.actions.last() is Finish,
{
    let n = run.events.len() as int;
    lemma_update_progress(request, run, n);
    if n > 0 {
        assert(update_awaits(request, run.cursors[n - 1], run.events[n - 1]));
    }
}

/// A text is among the added ones exactly when a new flag has it and no old one, and among the
/// removed ones exactly when an old flag has it and no new one; none is listed twice.
pub proof fn law_diff_tells_what_came_and_went(
    old_flags: &[EnvelopeFlag],
    new_flags: &[EnvelopeFlag],
    diff: (Vec<String>, Vec<String>),
)
    requires
        call_ensures(EnvelopeFlagsManager::diff_envelope_flags, (old_flags, new_flags), diff),
    ensures
        lists_exactly(diff.0@, new_flags@, old_flags@),
        lists_exactly(diff.1@, old_flags@, new_flags@),
        call_requires(EnvelopeFlagsManager::diff_envelope_flags, (old_flags, new_flags)),
{
    lemma_texts_left(new_flags@, old_flags@, diff.0@);
    lemma_texts_left(old_flags@, new_flags@, diff.1@);
}

/// Whether the strings are, each once, the texts of the flags of a list that another does not
/// have.
pub open spec fn lists_exactly(
    rest: Seq<String>,
    flags: Seq<EnvelopeFlag>,
    less: Seq<EnvelopeFlag>,
) -> bool {
    &&& forall|text: Seq<char>| #[trigger]
        lists(flags, text) && !lists(less, text) ==> exists|i: int|
            0 <= i < rest.len() && (#[trigger] rest[i])@ == text
    &&& forall|i: int|
        0 <= i < rest.len() ==> lists(flags, (#[trigger] rest[i])@) && !lists(less, rest[i]@)
    &&& forall|i: int, j: int|
        0 <= i < j < rest.len() ==> (#[trigger] rest[i])@ != (#[trigger] rest[j])@
}

/// A request counts as many changes as it has messages, and begins with the first: with minimal
/// sync by hashing the flags reported for it, and else by asking who watches. One without
/// messages is over at once.
pub proof fn law_update_begins_with_the_first<E>(
    request: &UpdateRequest,
    next: (u64, UpdateCursor, UpdateAction<E>),
)
    requires
        call_ensures(EnvelopeFlagsManager::begin_update_envelope_flags::<E>, (request,), next),
    ensures
        next.0 == request.data@.len(),
        request.data@.len() == 0 ==> next.1.phase is Stopped && next.2
            == UpdateAction::<E>::Finish(Ok(())),
        request.data@.len() > 0 && !request.minimal_sync ==> next.1.index == 0
            && next.1.phase is AskingWatch && next.2 is AskWatching,
        request.data@.len() > 0 && request.minimal_sync ==> next.1.index == 0
            && next.1.phase is Hashing && next.2 is HashFlags && same_flags(
            next.2->HashFlags_0@,
            request.data@[0].1@,
        ),
{
    if request.data@.len() > 0 && request.minimal_sync {
        lemma_same_keywords(next.2->HashFlags_0@, request.data@[0].1@);
    }
}

/// When nobody watches, when the message is not found, and when the notice is out, the flags
/// that are hashed are those reported for the message at hand, whichever it is. The cache
/// stays.
pub proof fn law_update_hashes_the_reported_flags<E>(
    manager: &mut EnvelopeFlagsManager,
    request: &UpdateRequest,
    cursor: UpdateCursor,
    event: UpdateEvent<E>,
    next: (UpdateCursor, UpdateAction<E>),
)
    requires
        call_ensures(
            EnvelopeFlagsManager::update_envelope_flags::<E>,
            (manager, request, cursor, event),
            next,
        ),
        event == UpdateEvent::<E>::Watched(false) || event == UpdateEvent::<E>::Found(None)
            || event is Notified,
    ensures
        final(manager)@ == old(manager)@,
        next.0.index == cursor.index,
        next.0.phase is Hashing,
        next.1 is HashFlags,
        same_flags(next.1->HashFlags_0@, request.data@[cursor.index as int].1@),
{
    lemma_same_keywords(next.1->HashFlags_0@, request.data@[cursor.index as int].1@);
}

/// When somebody watches, the message at hand is looked for. The cache stays.
pub proof fn law_update_looks_for_the_watched<E>(
    manager: &mut EnvelopeFlagsManager,
    request: &UpdateRequest,
    cursor: UpdateCursor,
    event: UpdateEvent<E>,
    next: (UpdateCursor, UpdateAction<E>),
)
    requires
        call_ensures(
            EnvelopeFlagsManager::update_envelope_flags::<E>,
            (manager, request, cursor, event),
            next,
        ),
        event == UpdateEvent::<E>::Watched(true),
    ensures
        final(manager)@ == old(manager)@,
        next.0.index == cursor.index,
        next.0.phase is Finding,
        next.1 == UpdateAction::<E>::FindEnvelope(request.data@[cursor.index as int].0),
{
}

/// For a watched message that is found, the notice is of the account and the message at hand,
/// with what the envelope says of it, and tells which of the reported flags it did not have and
/// which of its flags were not reported. The cache stays.
pub proof fn law_update_notifies_of_the_difference<E>(
    manager: &mut EnvelopeFlagsManager,
    request: &UpdateRequest,
    cursor: UpdateCursor,
    event: UpdateEvent<E>,
    current: EmailEnvelope,
    next: (UpdateCursor, UpdateAction<E>),
)
    requires
        call_ensures(
            EnvelopeFlagsManager::update_envelope_flags::<E>,
            (manager, request, cursor, event),
            next,
        ),
        event == UpdateEvent::<E>::Found(Some(current)),
    ensures
        final(manager)@ == old(manager)@,
        next.0.index == cursor.index,
        next.0.phase is Notifying,
        next.1 matches UpdateAction::Notify(notice) && {
            &&& notice.account_id == request.account_id
            &&& notice.account_email@ == request.account_email@
            &&& notice.uid == Some(request.data@[cursor.index as int].0)
            &&& notice.mailbox_name == current.mailbox_name
            &&& notice.from == current.from
            &&& notice.to == current.to
            &&& notice.message_id == current.message_id
            &&& notice.subject == current.subject
            &&& notice.internal_date == current.internal_date
            &&& notice.date == current.date
            &&& notice.mid is None
            &&& lists_exactly(
                notice.flags_added@,
                request.data@[cursor.index as int].1@,
                current.flags@,
            )
            &&& lists_exactly(
                notice.flags_removed@,
                current.flags@,
                request.data@[cursor.index as int].1@,
            )
        },
{
    let notice = next.1->Notify_0;
    let reported = request.data@[cursor.index as int].1@;
    lemma_texts_left(reported, current.flags@, notice.flags_added@);
    lemma_texts_left(current.flags@, reported, notice.flags_removed@);
}

/// The hash goes to the minimal envelope store at once with minimal sync; else it goes with the
/// flags reported for the message at hand to the envelope store first. The cache stays until
/// the minimal envelope store has the hash.
pub proof fn law_update_stores_before_it_caches<E>(
    manager: &mut EnvelopeFlagsManager,
    request: &UpdateRequest,
    cursor: UpdateCursor,
    event: UpdateEvent<E>,
    flags_hash: u64,
    next: (UpdateCursor, UpdateAction<E>),
)
    requires
        call_ensures(
            EnvelopeFlagsManager::update_envelope_flags::<E>,
            (manager, request, cursor, event),
            next,
        ),
        event == UpdateEvent::<E>::Hashed(flags_hash) || (cursor.phase
            == UpdatePhase::StoringEnvelope(flags_hash) && event is EnvelopeStored),
    ensures
        final(manager)@ == old(manager)@,
        next.0.index == cursor.index,
        request.minimal_sync || event is EnvelopeStored ==> next.0.phase
            == UpdatePhase::StoringMinimal(flags_hash) && next.1 == (
        UpdateAction::<E>::StoreMinimal {
            uid: request.data@[cursor.index as int].0,
            flags_hash,
        }),
        !request.minimal_sync && event is Hashed ==> next.0.phase == UpdatePhase::StoringEnvelope(
            flags_hash,
        ) && (next.1 matches UpdateAction::StoreEnvelope { uid, flags, flags_hash: stored_hash }
            && uid == request.data@[cursor.index as int].0 && stored_hash == flags_hash
            && same_flags(flags@, request.data@[cursor.index as int].1@)),
{
    if let UpdateAction::StoreEnvelope { uid, flags, flags_hash: stored_hash } = next.1 {
        lemma_same_keywords(flags@, request.data@[cursor.index as int].1@);
    }
}

/// Once the minimal envelope store has the hash of the message at hand, the cache has it too,
/// and is else as it was; and the request goes on with the next message as it began with the
/// first.
pub proof fn law_update_caches_what_is_stored<E>(
    manager: &mut EnvelopeFlagsManager,
    request: &UpdateRequest,
    cursor: UpdateCursor,
    event: UpdateEvent<E>,
    flags_hash: u64,
    next: (UpdateCursor, UpdateAction<E>),
)
    requires
        call_ensures(
            EnvelopeFlagsManager::update_envelope_flags::<E>,
            (manager, request, cursor, event),
            next,
        ),
        cursor.phase == UpdatePhase::StoringMinimal(flags_hash),
        event is MinimalStored,
    ensures
        forall|a: u64, m: u64, u: u32, h: u64| #[trigger]
            holds(final(manager)@, a, m, u, h) <==> (if a == request.account_id && m
                == request.mailbox_id && u == request.data@[cursor.index as int].0 {
                h == flags_hash
            } else {
                holds(old(manager)@, a, m, u, h)
            }),
        forall|a: u64, m: u64| #[trigger]
            has_level(final(manager)@, a, m) <==> has_level(old(manager)@, a, m) || (a
                == request.account_id && m == request.mailbox_id),
        forall|a: u64| #[trigger]
            final(manager)@.contains_key(a) <==> old(manager)@.contains_key(a) || a
                == request.account_id,
        cursor.index + 1 >= request.data@.len() ==> next.0.phase is Stopped && next.1
            == UpdateAction::<E>::Finish(Ok(())),
        cursor.index + 1 < request.data@.len() ==> next.0.index == cursor.index + 1,
        cursor.index + 1 < request.data@.len() && !request.minimal_sync
            ==> next.0.phase is AskingWatch && next.1 is AskWatching,
        cursor.index + 1 < request.data@.len() && request.minimal_sync ==> next.0.phase is Hashing
            && next.1 is HashFlags && same_flags(
            next.1->HashFlags_0@,
            request.data@[cursor.index + 1].1@,
        ),
{
    if cursor.index + 1 < request.data@.len() && request.minimal_sync {
        lemma_same_keywords(next.1->HashFlags_0@, request.data@[cursor.index + 1].1@);
    }
}

/// Whatever fails ends the request with its error, and the cache stays.
pub proof fn law_update_hands_on_the_error<E>(
    manager: &mut EnvelopeFlagsManager,
    request: &UpdateRequest,
    cursor: UpdateCursor,
    event: UpdateEvent<E>,
    error: E,
    next: (UpdateCursor, UpdateAction<E>),
)
    requires
        call_ensures(
            EnvelopeFlagsManager::update_envelope_flags::<E>,
            (manager, request, cursor, event),
            next,
        ),
        event == UpdateEvent::<E>::Failed(error),
    ensures
        final(manager)@ == old(manager)@,
        next.0.phase is Stopped,
        next.1 == UpdateAction::<E>::Finish(Err(error)),
{
}

/// Any request can be begun, and for any message of it every answer to what was asked is taken.
pub proof fn law_update_takes_every_answer<E>(
    manager: &mut EnvelopeFlagsManager,
    request: &UpdateRequest,
    cursor: UpdateCursor,
    event: UpdateEvent<E>,
)
    ensures
        call_requires(EnvelopeFlagsManager::begin_update_envelope_flags::<E>, (request,)),
        cursor.index < request.data@.len() && ((cursor.phase is AskingWatch && (event is Watched
            || event is Failed)) || (cursor.phase is Finding && (event is Found
            || event is Failed)) || (cursor.phase is Notifying && event is Notified) || (
        cursor.phase is Hashing && event is Hashed) || (cursor.phase is StoringEnvelope && (
        event is EnvelopeStored || event is Failed)) || (cursor.phase is StoringMinimal && (
        event is MinimalStored || event is Failed))) ==> call_requires(
            EnvelopeFlagsManager::update_envelope_flags::<E>,
            (manager, request, cursor, event),
        ),
{
}

/// In every run, what is asked for is what is awaited, for the message at the cursor.
proof fn lemma_update_asks<E>(request: UpdateRequest, run: UpdateRun<E>, n: int)
    requires
        is_update_run(request, run),
        0 <= n <= run.events.len(),
    ensures
        !(run.actions[n] is Finish) ==> run.cursors[n].index < request.data@.len(),
        match run.actions[n] {
            UpdateAction::AskWatching => run.cursors[n].phase is AskingWatch,
            UpdateAction::FindEnvelope(uid) => run.cursors[n].phase is Finding && uid
                == request.data@[run.cursors[n].index as int].0,
            UpdateAction::Notify(_) => run.cursors[n].phase is Notifying,
            UpdateAction::HashFlags(flags) => run.cursors[n].phase is Hashing && same_flags(
                flags@,
                request.data@[run.cursors[n].index as int].1@,
            ),
            UpdateAction::StoreEnvelope { uid, flags, flags_hash } => run.cursors[n].phase
                == UpdatePhase::StoringEnvelope(flags_hash) && uid
                == request.data@[run.cursors[n].index as int].0 && same_flags(
                flags@,
                request.data@[run.cursors[n].index as int].1@,
            ),
            UpdateAction::StoreMinimal { uid, flags_hash } => run.cursors[n].phase
                == UpdatePhase::StoringMinimal(flags_hash) && uid
                == request.data@[run.cursors[n].index as int].0,
            UpdateAction::Finish(_) => run.cursors[n].phase is Stopped,
        },
{
    if n > 0 {
        assert(update_awaits(request, run.cursors[n - 1], run.events[n - 1]));
    }
    if let UpdateAction::HashFlags(flags) = run.actions[n] {
        lemma_same_keywords(flags@, request.data@[run.cursors[n].index as int].1@);
    }
    if let UpdateAction::StoreEnvelope { uid, flags, flags_hash } = run.actions[n] {
        lemma_same_keywords(flags@, request.data@[run.cursors[n].index as int].1@);
    }
}

/// In every run, the flags that are hashed or stored while the cursor is at a message are the
/// flags that the server has reported for that message.
pub proof fn law_update_keeps_to_the_message_at_hand<E>(
    request: UpdateRequest,
    run: UpdateRun<E>,
    n: int,
)
    requires
        is_update_run(request, run),
        0 <= n <= run.events.len(),
    ensures
        run.actions[n] matches UpdateAction::HashFlags(flags) ==> same_flags(
            flags@,
            request.data@[run.cursors[n].index as int].1@,
        ),
        run.actions[n] matches UpdateAction::StoreEnvelope { uid, flags, flags_hash } ==> uid
            == request.data@[run.cursors[n].index as int].0 && same_flags(
            flags@,
            request.data@[run.cursors[n].index as int].1@,
        ),
        run.actions[n] matches UpdateAction::StoreMinimal { uid, flags_hash } ==> uid
            == request.data@[run.cursors[n].index as int].0,
        run.actions[n] matches UpdateAction::FindEnvelope(uid) ==> uid
            == request.data@[run.cursors[n].index as int].0,
{
    lemma_update_asks(request, run, n);
}

/// In every run, a store gets for a message only the hash that came of hashing the flags that
/// the server has reported for that message: just before without an envelope to store, and
/// else before the envelope was stored with the same flags and the same hash.
pub proof fn law_update_stores_the_hash_of_the_flags<E>(
    request: UpdateRequest,
    run: UpdateRun<E>,
    n: int,
)
    requires
        is_update_run(request, run),
        0 <= n <= run.events.len(),
    ensures
        run.actions[n] matches UpdateAction::StoreEnvelope { uid, flags, flags_hash } ==> {
            &&& n >= 1
            &&& run.events[n - 1] == UpdateEvent::<E>::Hashed(flags_hash)
            &&& run.actions[n - 1] matches UpdateAction::HashFlags(hashed)
            &&& same_flags(flags@, hashed@)
            &&& run.cursors[n].index == run.cursors[n - 1].index
        },
        run.actions[n] matches UpdateAction::StoreMinimal { uid, flags_hash } ==> n >= 1
            && run.cursors[n].index == run.cursors[n - 1].index,
        run.actions[n] matches UpdateAction::StoreMinimal { uid, flags_hash }
            ==> request.minimal_sync ==> {
            &&& run.events[n - 1] == UpdateEvent::<E>::Hashed(flags_hash)
            &&& run.actions[n - 1] matches UpdateAction::HashFlags(hashed)
            &&& same_flags(hashed@, request.data@[run.cursors[n].index as int].1@)
        },
        run.actions[n] matches UpdateAction::StoreMinimal { uid, flags_hash }
            ==> !request.minimal_sync ==> {
            &&& run.events[n - 1] is EnvelopeStored
            &&& run.actions[n - 1] matches UpdateAction::StoreEnvelope {
                uid: stored_uid,
                flags,
                flags_hash: stored_hash,
            }
            &&& stored_uid == uid
            &&& stored_hash == flags_hash
        },
{
    lemma_update_asks(request, run, n);
    if n > 0 {
        assert(update_awaits(request, run.cursors[n - 1], run.events[n - 1]));
        lemma_update_asks(request, run, n - 1);
        if request.minimal_sync {
            law_minimal_sync_keeps_to_the_minimal_store(request, run, n - 1);
        }
        if let UpdateAction::StoreEnvelope { uid, flags, flags_hash } = run.actions[n] {
            lemma_same_as_third(
                flags@,
                run.actions[n - 1]->HashFlags_0@,
                request.data@[run.cursors[n].index as int].1@,
            );
        }
    }
}

/// In every run, the cache changes only when the minimal envelope store has taken a hash, and
/// then by that hash for that message.
pub proof fn law_update_run_caches_what_is_stored<E>(
    request: UpdateRequest,
    run: UpdateRun<E>,
    i: int,
)
    requires
        is_update_run(request, run),
        0 <= i < run.events.len(),
    ensures
        !(run.events[i] is MinimalStored) ==> run.states[i + 1] == run.states[i],
        run.events[i] is MinimalStored ==> {
            &&& run.actions[i] matches UpdateAction::StoreMinimal { uid, flags_hash }
            &&& forall|a: u64, m: u64, u: u32, h: u64| #[trigger]
                holds(run.states[i + 1], a, m, u, h) <==> (if a == request.account_id && m
                    == request.mailbox_id && u == uid {
                    h == flags_hash
                } else {
                    holds(run.states[i], a, m, u, h)
                })
        },
{
    assert(update_awaits(request, run.cursors[i], run.events[i]));
    lemma_update_asks(request, run, i);
}

/// Every message before the one at the cursor is done.
proof fn lemma_update_done<E>(request: UpdateRequest, run: UpdateRun<E>, n: int, index: int)
    requires
        is_update_run(request, run),
        0 <= n <= run.events.len(),
        0 <= index < request.data@.len(),
        run.actions[n] == UpdateAction::<E>::Finish(Ok(())) || (!(run.actions[n] is Finish) && index
            < run.cursors[n].index),
    ensures
        exists|k: int|
            0 <= k < n && run.cursors[k].index == index && (
            #[trigger] run.events[k]) is MinimalStored,
    decreases n,
{
    if n > 0 {
        let event = run.events[n - 1];
        assert(update_awaits(request, run.cursors[n - 1], event));
        lemma_update_asks(request, run, n);
        lemma_update_asks(request, run, n - 1);
        if index < run.cursors[n - 1].index {
            lemma_update_done(request, run, n - 1, index);
        } else {
            assert(run.cursors[n - 1].index == index);
            assert(run.events[n - 1] is MinimalStored);
        }
    }
}

/// A run ends well only when every message of the request has gone into the stores.
pub proof fn law_update_leaves_no_message_out<E>(
    request: UpdateRequest,
    run: UpdateRun<E>,
    n: int,
    index: int,
)
    requires
        is_update_run(request, run),
        0 <= n <= run.events.len(),
        run.actions[n] == UpdateAction::<E>::Finish(Ok(())),
        0 <= index < request.data@.len(),
    ensures
        exists|k: int|
            0 <= k < n && run.cursors[k].index == index && (
            #[trigger] run.events[k]) is MinimalStored,
{
    lemma_update_done(request, run, n, index);
}

} // verus!
