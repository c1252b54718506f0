//! Changing the flags of messages on request: what is to be done, message by message, and
//! when the cache follows the stores.
use crate::cache_laws::{has_level, holds};
use crate::flags::{
    clone_flags, edited_flags, is_edited, keywords, lemma_edited, lemma_same_keywords, lists,
    optionally_lists, same_flags, EnvelopeFlag, FlagEdit,
};
use crate::manager::EnvelopeFlagsManager;
use crate::state::{recorded, FlagsState};
use vstd::prelude::*;

verus! {

/// A request to change the flags of messages of a mailbox.
pub struct ModifyRequest {
    pub uids: Vec<u32>,
    pub account_id: u64,
    pub mailbox_id: u64,
    pub edit: FlagEdit,
}

/// What is awaited for the message at hand.
pub enum ModifyPhase {
    /// The message's envelope.
    Finding,
    /// The hash of its new flags.
    Hashing(Vec<EnvelopeFlag>),
    /// That the envelope store has the new flags, whose hash is given.
    StoringEnvelope(u64),
    /// That the minimal envelope store has the hash.
    StoringMinimal(u64),
    /// Nothing: the request is over.
    Stopped,
}

/// The message at hand, by its position in the request, and what is awaited for it.
pub struct ModifyCursor {
    pub index: usize,
    pub phase: ModifyPhase,
}

/// What has happened.
pub enum ModifyEvent<E> {
    /// The flags of the message, or that it is not in the store.
    Found(Option<Vec<EnvelopeFlag>>),
    Hashed(u64),
    EnvelopeStored,
    MinimalStored,
    /// A store has failed.
    Failed(E),
}

/// What is to be done next.
pub enum ModifyAction<E> {
    FindEnvelope(u32),
    HashFlags(Vec<EnvelopeFlag>),
    StoreEnvelope { uid: u32, flags: Vec<EnvelopeFlag>, flags_hash: u64 },
    StoreMinimal { uid: u32, flags_hash: u64 },
    Finish(Result<(), E>),
}

/// Whether the request goes on with the message at `index`, or is over when there is none.
pub open spec fn modify_goes_on<E>(
    request: ModifyRequest,
    index: int,
    after: ModifyCursor,
    action: ModifyAction<E>,
) -> bool {
    if index < request.uids@.len() {
        &&& after.index == index
        &&& after.phase is Finding
        &&& action == ModifyAction::<E>::FindEnvelope(request.uids@[index])
    } else {
        &&& after.phase is Stopped
        &&& action == ModifyAction::<E>::Finish(Ok(()))
    }
}

/// Whether an event is one of those that are awaited. Only the stores can fail.
pub open spec fn modify_awaits<E>(
    request: ModifyRequest,
    cursor: ModifyCursor,
    event: ModifyEvent<E>,
) -> bool {
    &&& cursor.index < request.uids@.len()
    &&& match cursor.phase {
        ModifyPhase::Finding => event is Found || event is Failed,
        ModifyPhase::Hashing(_) => event is Hashed,
        ModifyPhase::StoringEnvelope(_) => event is EnvelopeStored || event is Failed,
        ModifyPhase::StoringMinimal(_) => event is MinimalStored || event is Failed,
        ModifyPhase::Stopped => false,
    }
}

/// Whether `after` and `action` are what an awaited event leads to.
pub open spec fn modify_step<E>(
    request: ModifyRequest,
    before: ModifyCursor,
    event: ModifyEvent<E>,
    after: ModifyCursor,
    action: ModifyAction<E>,
) -> bool {
    let uid = request.uids@[before.index as int];
    match event {
        ModifyEvent::Found(None) => modify_goes_on(request, before.index + 1, after, action),
        ModifyEvent::Found(Some(current)) => {
            &&& after.index == before.index
            &&& after.phase matches ModifyPhase::Hashing(kept)
            &&& action matches ModifyAction::HashFlags(flags)
            &&& keywords(kept@) == keywords(flags@)
            &&& is_edited(keywords(current@), request.edit, keywords(flags@))
        },
        ModifyEvent::Hashed(flags_hash) => {
            &&& after.index == before.index
            &&& after.phase == ModifyPhase::StoringEnvelope(flags_hash)
            &&& before.phase matches ModifyPhase::Hashing(flags)
            &&& action == ModifyAction::<E>::StoreEnvelope { uid, flags, flags_hash }
        },
        ModifyEvent::EnvelopeStored => {
            &&& after.index == before.index
            &&& before.phase matches ModifyPhase::StoringEnvelope(flags_hash)
            &&& after.phase == ModifyPhase::StoringMinimal(flags_hash)
            &&& action == ModifyAction::<E>::StoreMinimal { uid, flags_hash }
        },
        ModifyEvent::MinimalStored => modify_goes_on(request, before.index + 1, after, action),
        ModifyEvent::Failed(error) => {
            &&& after.phase is Stopped
            &&& action == ModifyAction::<E>::Finish(Err(error))
        },
    }
}

/// The cache after an awaited event: the hash of the message at hand is recorded when both
/// stores have it, and nothing else changes.
pub open spec fn modify_state<E>(
    request: ModifyRequest,
    before: ModifyCursor,
    event: ModifyEvent<E>,
    state: FlagsState,
) -> FlagsState {
    match (before.phase, event) {
        (ModifyPhase::StoringMinimal(flags_hash), ModifyEvent::MinimalStored) => recorded(
            state,
            request.account_id,
            request.mailbox_id,
            request.uids@[before.index as int],
            flags_hash,
        ),
        _ => state,
    }
}

/// Goes on with the message at `index`, or ends the request when there is none.
fn modify_at<E>(request: &ModifyRequest, index: usize) -> (next: (ModifyCursor, ModifyAction<E>))
    ensures
        modify_goes_on(*request, index as int, next.0, next.1),
{
    if index < request.uids.len() {
        (
            ModifyCursor { index, phase: ModifyPhase::Finding },
            ModifyAction::FindEnvelope(request.uids[index]),
        )
    } else {
        (ModifyCursor { index, phase: ModifyPhase::Stopped }, ModifyAction::Finish(Ok(())))
    }
}

impl EnvelopeFlagsManager {
    /// Starts on a request, with its first message.
    pub fn begin_modify_flags<E>(request: &ModifyRequest) -> (next: (
        ModifyCursor,
        ModifyAction<E>,
    ))
        ensures
            modify_goes_on(*request, 0, next.0, next.1),
    {
        modify_at(request, 0)
    }

    /// Takes note of an event of a request, and tells what is to be done next.
    pub fn modify_flags<E>(
        &mut self,
        request: &ModifyRequest,
        cursor: ModifyCursor,
        event: ModifyEvent<E>,
    ) -> (next: (ModifyCursor, ModifyAction<E>))
        requires
            modify_awaits(*request, cursor, event),
        ensures
            modify_step(*request, cursor, event, next.0, next.1),
            final(self)@ == modify_state(*request, cursor, event, old(self)@),
    {
        let index: usize = cursor.index;
        let uid: u32 = request.uids[index];
        assert(index < request.uids.len());
        match (cursor.phase, event) {
            (ModifyPhase::Finding, ModifyEvent::Found(None)) => modify_at(request, index + 1),
            (ModifyPhase::Finding, ModifyEvent::Found(Some(current))) => {
                let flags = edited_flags(&current, &request.edit);
                let kept = clone_flags(&flags);
                (
                    ModifyCursor { index, phase: ModifyPhase::Hashing(kept) },
                    ModifyAction::HashFlags(flags),
                )
            },
            (ModifyPhase::Hashing(flags), ModifyEvent::Hashed(flags_hash)) => (
                ModifyCursor { index, phase: ModifyPhase::StoringEnvelope(flags_hash) },
                ModifyAction::StoreEnvelope { uid, flags, flags_hash },
            ),
            (ModifyPhase::StoringEnvelope(flags_hash), ModifyEvent::EnvelopeStored) => (
                ModifyCursor { index, phase: ModifyPhase::StoringMinimal(flags_hash) },
                ModifyAction::StoreMinimal { uid, flags_hash },
            ),
            (ModifyPhase::StoringMinimal(flags_hash), ModifyEvent::MinimalStored) => {
                self.update_flag_change(request.account_id, request.mailbox_id, uid, flags_hash);
                modify_at(request, index + 1)
            },
            (_, ModifyEvent::Failed(error)) => (
                ModifyCursor { index, phase: ModifyPhase::Stopped },
                ModifyAction::Finish(Err(error)),
            ),
            _ => vstd::pervasive::unreached(),
        }
    }
}

/// A request from its start on: the events that have happened, and the cursors, the actions
/// and the states of the cache before the first of them and after each.
pub struct ModifyRun<E> {
    pub events: Seq<ModifyEvent<E>>,
    pub cursors: Seq<ModifyCursor>,
    pub actions: Seq<ModifyAction<E>>,
    pub states: Seq<FlagsState>,
}

/// Whether a run is one of the given request.
pub open spec fn is_modify_run<E>(request: ModifyRequest, run: ModifyRun<E>) -> bool {
    &&& run.cursors.len() == run.events.len() + 1
    &&& run.actions.len() == run.events.len() + 1
    &&& run.states.len() == run.events.len() + 1
    &&& modify_goes_on(request, 0, run.cursors[0], run.actions[0])
    &&& forall|i: int|
        0 <= i < run.events.len() ==> {
            let event = #[trigger] run.events[i];
            &&& modify_awaits(request, run.cursors[i], event)
            &&& modify_step(request, run.cursors[i], event, run.cursors[i + 1], run.actions[i + 1])
            &&& run.states[i + 1] == modify_state(request, run.cursors[i], event, run.states[i])
        }
}

/// What has become of the messages of a request after the first `n` events, in the order of
/// the request: the hash that both stores have, or `None` for one that was not found.
pub open spec fn modify_outcomes<E>(run: ModifyRun<E>, n: nat) -> Seq<Option<u64>>
    decreases n,
{
    if n == 0 {
        seq![]
    } else {
        let earlier = modify_outcomes(run, (n - 1) as nat);
        match (run.cursors[n - 1].phase, run.events[n - 1]) {
            (_, ModifyEvent::Found(None)) => earlier.push(None),
            (ModifyPhase::StoringMinimal(flags_hash), ModifyEvent::MinimalStored) => earlier.push(
                Some(flags_hash),
            ),
            _ => earlier,
        }
    }
}

/// The cache after the hashes of the messages that were found were recorded, first to last.
pub open spec fn outcomes_recorded(
    request: ModifyRequest,
    outcomes: Seq<Option<u64>>,
    state: FlagsState,
) -> FlagsState
    decreases outcomes.len(),
{
    if outcomes.len() == 0 {
        state
    } else {
        let earlier = outcomes_recorded(request, outcomes.drop_last(), state);
        match outcomes.last() {
            Some(flags_hash) => recorded(
                earlier,
                request.account_id,
                request.mailbox_id,
                request.uids@[outcomes.len() - 1],
                flags_hash,
            ),
            None => earlier,
        }
    }
}

/// At any time of a request the cache is what it was at the start, with the hash of every
/// message recorded that both stores have. Messages are taken in the order of the request, and
/// the request ends well only when all of them are done.
pub proof fn law_modify_follows_the_stores<E>(request: ModifyRequest, run: ModifyRun<E>, n: nat)
    requires
        is_modify_run(request, run),
        n <= run.events.len(),
    ensures
        run.states[n as int] == outcomes_recorded(request, modify_outcomes(run, n), run.states[0]),
        !(run.cursors[n as int].phase is Stopped) ==> modify_outcomes(run, n).len()
            == run.cursors[n as int].index,
        run.actions[n as int] == ModifyAction::<E>::Finish(Ok(())) ==> modify_outcomes(run, n).len()
            == request.uids@.len(),
    decreases n,
{
    if n > 0 {
        let i = n - 1;
        law_modify_follows_the_stores(request, run, i as nat);
        let event = run.events[i];
        assert(modify_awaits(request, run.cursors[i], event));
        let earlier = modify_outcomes(run, i as nat);
        assert(earlier.push(None).drop_last() =~= earlier);
        if let ModifyPhase::StoringMinimal(flags_hash) = run.cursors[i].phase {
            assert(earlier.push(Some(flags_hash)).drop_last() =~= earlier);
        }
    }
}

/// A request ends with an error exactly when a store has failed, and with the error of that
/// store; the cache does not follow a message whose stores have failed.
pub proof fn law_modify_stops_at_failure<E>(request: ModifyRequest, run: ModifyRun<E>, i: int)
    requires
        is_modify_run(request, run),
        0 <= i < run.events.len(),
    ensures
        forall|error: E|
            run.actions[i + 1] == ModifyAction::<E>::Finish(Err(error)) <==> run.events[i]
                == ModifyEvent::Failed(error),
        run.events[i] is Failed ==> run.states[i + 1] == run.states[i] && i + 1
            == run.events.len(),
{
    let event = run.events[i];
    assert(modify_awaits(request, run.cursors[i], event));
    if event is Failed && i + 1 < run.events.len() {
        let next = run.events[i + 1];
        assert(modify_awaits(request, run.cursors[i + 1], next));
    }
}

/// How many events a message has behind it when this is awaited for it, at most.
spec fn modify_rank(phase: ModifyPhase) -> int {
    match phase {
        ModifyPhase::Finding => 0,
        ModifyPhase::Hashing(_) => 1,
        ModifyPhase::StoringEnvelope(_) => 2,
        ModifyPhase::StoringMinimal(_) => 3,
        ModifyPhase::Stopped => 0,
    }
}

/// Every message takes at most four events.
proof fn lemma_modify_progress<E>(request: ModifyRequest, run: ModifyRun<E>, n: int)
    requires
        is_modify_run(request, run),
        0 <= n <= run.events.len(),
    ensures
        n <= 4 * request.uids@.len(),
        !(run.cursors[n].phase is Stopped) ==> run.cursors[n].index < request.uids@.len() && n <= 4
            * run.cursors[n].index + modify_rank(run.cursors[n].phase),
    decreases n,
{
    if n > 0 {
        lemma_modify_progress(request, run, n - 1);
        assert(modify_awaits(request, run.cursors[n - 1], run.events[n - 1]));
    }
}

/// A request is over after at most four events for each of its messages.
pub proof fn law_modify_ends<E>(request: ModifyRequest, run: ModifyRun<E>)
    requires
        is_modify_run(request, run),
    ensures
        run.events.len() <= 4 * request.uids@.len(),
        run.events.len() == 4 * request.uids@.len() ==> run.actions.last() is Finish,
{
    let n = run.events.len() as int;
    lemma_modify_progress(request, run, n);
    if n > 0 {
        assert(modify_awaits(request, run.cursors[n - 1], run.events[n - 1]));
    }
}

/// For a message that is found, the flags that go into the envelope store are those that the
/// request makes of its flags, and one hash goes into both stores and then into the cache.
pub proof fn law_modify_stores_one_hash<E>(
    request: ModifyRequest,
    run: ModifyRun<E>,
    i: int,
    current: Vec<EnvelopeFlag>,
    flags_hash: u64,
)
    requires
        is_modify_run(request, run),
        0 <= i,
        i + 3 < run.events.len(),
        run.events[i] == ModifyEvent::<E>::Found(Some(current)),
        run.events[i + 1] == ModifyEvent::<E>::Hashed(flags_hash),
        run.events[i + 2] is EnvelopeStored,
        run.events[i + 3] is MinimalStored,
    ensures
        run.actions[i + 2] matches ModifyAction::StoreEnvelope { uid, flags, flags_hash: stored }
            && uid == request.uids@[run.cursors[i].index as int] && stored == flags_hash
            && is_edited(keywords(current@), request.edit, keywords(flags@)),
        run.actions[i + 3] == (ModifyAction::<E>::StoreMinimal {
            uid: request.uids@[run.cursors[i].index as int],
            flags_hash,
        }),
        run.states[i + 4] == recorded(
            run.states[i],
            request.account_id,
            request.mailbox_id,
            request.uids@[run.cursors[i].index as int],
            flags_hash,
        ),
{
    assert(modify_awaits(request, run.cursors[i], run.events[i]));
    assert(modify_awaits(request, run.cursors[i + 1], run.events[i + 1]));
    assert(modify_awaits(request, run.cursors[i + 2], run.events[i + 2]));
    assert(modify_awaits(request, run.cursors[i + 3], run.events[i + 3]));
}

/// A request begins with looking for its first message, and one without messages is over at
/// once.
pub proof fn law_modify_begins_with_the_first<E>(
    request: &ModifyRequest,
    next: (ModifyCursor, ModifyAction<E>),
)
    requires
        call_ensures(EnvelopeFlagsManager::begin_modify_flags::<E>, (request,), next),
    ensures
        request.uids@.len() > 0 ==> next.0.index == 0 && next.0.phase is Finding && next.1
            == ModifyAction::<E>::FindEnvelope(request.uids@[0]),
        request.uids@.len() == 0 ==> next.0.phase is Stopped && next.1
            == ModifyAction::<E>::Finish(Ok(())),
{
}

/// A message that is not found is passed over: the cache stays, and the next message is looked
/// for.
pub proof fn law_modify_passes_over_the_missing<E>(
    manager: &mut EnvelopeFlagsManager,
    request: &ModifyRequest,
    cursor: ModifyCursor,
    event: ModifyEvent<E>,
    next: (ModifyCursor, ModifyAction<E>),
)
    requires
        call_ensures(
            EnvelopeFlagsManager::modify_flags::<E>,
            (manager, request, cursor, event),
            next,
        ),
        event == ModifyEvent::<E>::Found(None),
    ensures
        final(manager)@ == old(manager)@,
        cursor.index + 1 < request.uids@.len() ==> next.0.index == cursor.index + 1
            && next.0.phase is Finding && next.1 == ModifyAction::<E>::FindEnvelope(
            request.uids@[cursor.index + 1],
        ),
        cursor.index + 1 >= request.uids@.len() ==> next.0.phase is Stopped && next.1
            == ModifyAction::<E>::Finish(Ok(())),
{
}

/// For a message that is found, the flags that are hashed are the overwriting list as it stands
/// or else, each once, those that were set or are to be added and are not to be removed; the
/// same flags are kept for the store. The cache stays.
pub proof fn law_modify_hashes_the_edited_flags<E>(
    manager: &mut EnvelopeFlagsManager,
    request: &ModifyRequest,
    cursor: ModifyCursor,
    event: ModifyEvent<E>,
    current: Vec<EnvelopeFlag>,
    next: (ModifyCursor, ModifyAction<E>),
)
    requires
        call_ensures(
            EnvelopeFlagsManager::modify_flags::<E>,
            (manager, request, cursor, event),
            next,
        ),
        event == ModifyEvent::<E>::Found(Some(current)),
    ensures
        final(manager)@ == old(manager)@,
        next.0.index == cursor.index,
        next.0.phase is Hashing,
        next.1 is HashFlags,
        same_flags(next.0.phase->Hashing_0@, next.1->HashFlags_0@),
        request.edit.overwrite matches Some(list) ==> same_flags(next.1->HashFlags_0@, list@),
        request.edit.overwrite is None ==> forall|text: Seq<char>| #[trigger]
            lists(next.1->HashFlags_0@, text) <==> (lists(current@, text) || optionally_lists(
                request.edit.added,
                text,
            )) && !optionally_lists(request.edit.removed, text),
        request.edit.overwrite is None ==> forall|i: int, j: int|
            0 <= i < j < next.1->HashFlags_0@.len() ==> (
            #[trigger] next.1->HashFlags_0@[i]).keyword@ != (
            #[trigger] next.1->HashFlags_0@[j]).keyword@,
{
    lemma_same_keywords(next.0.phase->Hashing_0@, next.1->HashFlags_0@);
    lemma_edited(current@, request.edit, next.1->HashFlags_0@);
}

/// The hash goes with the flags that were kept to the envelope store, and then to the minimal
/// envelope store, for the message at hand. The cache stays until both have it.
pub proof fn law_modify_stores_before_it_caches<E>(
    manager: &mut EnvelopeFlagsManager,
    request: &ModifyRequest,
    cursor: ModifyCursor,
    event: ModifyEvent<E>,
    flags: Vec<EnvelopeFlag>,
    flags_hash: u64,
    next: (ModifyCursor, ModifyAction<E>),
)
    requires
        call_ensures(
            EnvelopeFlagsManager::modify_flags::<E>,
            (manager, request, cursor, event),
            next,
        ),
        cursor.index < request.uids@.len(),
        (cursor.phase == ModifyPhase::Hashing(flags) && event == ModifyEvent::<E>::Hashed(
            flags_hash,
        )) || (cursor.phase == ModifyPhase::StoringEnvelope(flags_hash) && event is EnvelopeStored),
    ensures
        final(manager)@ == old(manager)@,
        next.0.index == cursor.index,
        event is Hashed ==> next.0.phase == ModifyPhase::StoringEnvelope(flags_hash) && next.1 == (
        ModifyAction::<E>::StoreEnvelope {
            uid: request.uids@[cursor.index as int],
            flags,
            flags_hash,
        }),
        event is EnvelopeStored ==> next.0.phase == ModifyPhase::StoringMinimal(flags_hash)
            && next.1 == (ModifyAction::<E>::StoreMinimal {
            uid: request.uids@[cursor.index as int],
            flags_hash,
        }),
{
}

/// Once both stores have the hash of the message at hand, the cache has it too, and is else as
/// it was; and the next message is looked for.
pub proof fn law_modify_caches_what_is_stored<E>(
    manager: &mut EnvelopeFlagsManager,
    request: &ModifyRequest,
    cursor: ModifyCursor,
    event: ModifyEvent<E>,
    flags_hash: u64,
    next: (ModifyCursor, ModifyAction<E>),
)
    requires
        call_ensures(
            EnvelopeFlagsManager::modify_flags::<E>,
            (manager, request, cursor, event),
            next,
        ),
        cursor.index < request.uids@.len(),
        cursor.phase == ModifyPhase::StoringMinimal(flags_hash),
        event is MinimalStored,
    ensures
        forall|a: u64, m: u64, u: u32, h: u64| #[trigger]
            holds(final(manager)@, a, m, u, h) <==> (if a == request.account_id && m
                == request.mailbox_id && u == request.uids@[cursor.index as int] {
                h == flags_hash
            } else {
                holds(old(manager)@, a, m, u, h)
            }),
        forall|a: u64, m: u64| #[trigger]
            has_level(final(manager)@, a, m) <==> has_level(old(manager)@, a, m) || (a
                == request.account_id && m == request.mailbox_id),
        forall|a: u64| #[trigger]
            final(manager)@.contains_key(a) <==> old(manager)@.contains_key(a) || a
                == request.account_id,
        cursor.index + 1 < request.uids@.len() ==> next.0.index == cursor.index + 1
            && next.0.phase is Finding && next.1 == ModifyAction::<E>::FindEnvelope(
            request.uids@[cursor.index + 1],
        ),
        cursor.index + 1 >= request.uids@.len() ==> next.0.phase is Stopped && next.1
            == ModifyAction::<E>::Finish(Ok(())),
{
}

/// A store that fails ends the request with its error, and the cache stays.
pub proof fn law_modify_hands_on_the_error<E>(
    manager: &mut EnvelopeFlagsManager,
    request: &ModifyRequest,
    cursor: ModifyCursor,
    event: ModifyEvent<E>,
    error: E,
    next: (ModifyCursor, ModifyAction<E>),
)
    requires
        call_ensures(
            EnvelopeFlagsManager::modify_flags::<E>,
            (manager, request, cursor, event),
            next,
        ),
        event == ModifyEvent::<E>::Failed(error),
    ensures
        final(manager)@ == old(manager)@,
        next.0.phase is Stopped,
        next.1 == ModifyAction::<E>::Finish(Err(error)),
{
}

/// Any request can be begun, and for any message of it every answer to what was asked is taken:
/// whatever was found and hashed, that a store has done its part, or with what error a store
/// has failed.
pub proof fn law_modify_takes_every_answer<E>(
    manager: &mut EnvelopeFlagsManager,
    request: &ModifyRequest,
    cursor: ModifyCursor,
    event: ModifyEvent<E>,
)
    ensures
        call_requires(EnvelopeFlagsManager::begin_modify_flags::<E>, (request,)),
        cursor.index < request.uids@.len() && ((cursor.phase is Finding && (event is Found
            || event is Failed)) || (cursor.phase is Hashing && event is Hashed) || (
        cursor.phase is StoringEnvelope && (event is EnvelopeStored || event is Failed)) || (
        cursor.phase is StoringMinimal && (event is MinimalStored || event is Failed)))
            ==> call_requires(
            EnvelopeFlagsManager::modify_flags::<E>,
            (manager, request, cursor, event),
        ),
{
}

/// In every run, what is asked for is what is awaited, for the message at the cursor.
proof fn lemma_modify_asks<E>(request: ModifyRequest, run: ModifyRun<E>, n: int)
    requires
        is_modify_run(request, run),
        0 <= n <= run.events.len(),
    ensures
        match run.actions[n] {
            ModifyAction::FindEnvelope(uid) => run.cursors[n].phase is Finding,
            ModifyAction::HashFlags(flags) => run.cursors[n].phase matches ModifyPhase::Hashing(
                kept,
            ) && same_flags(kept@, flags@),
            ModifyAction::StoreEnvelope { uid, flags, flags_hash } => run.cursors[n].phase
                == ModifyPhase::StoringEnvelope(flags_hash),
            ModifyAction::StoreMinimal { uid, flags_hash } => run.cursors[n].phase
                == ModifyPhase::StoringMinimal(flags_hash),
            ModifyAction::Finish(_) => run.cursors[n].phase is Stopped,
        },
        !(run.actions[n] is Finish) ==> run.cursors[n].index < request.uids@.len(),
        match run.actions[n] {
            ModifyAction::FindEnvelope(uid) => uid == request.uids@[run.cursors[n].index as int],
            ModifyAction::StoreEnvelope { uid, flags, flags_hash } => uid
                == request.uids@[run.cursors[n].index as int],
            ModifyAction::StoreMinimal { uid, flags_hash } => uid
                == request.uids@[run.cursors[n].index as int],
            _ => true,
        },
{
    if n > 0 {
        let event = run.events[n - 1];
        assert(modify_awaits(request, run.cursors[n - 1], event));
        if event is Found && run.actions[n] is HashFlags {
            lemma_same_keywords(
                run.cursors[n].phase->Hashing_0@,
                run.actions[n]->HashFlags_0@,
            );
        }
    }
}

/// In every run, flags are stored only with the hash that came of hashing those very flags, and
/// for the message whose flags they are; and the minimal envelope store gets that hash for that
/// message.
pub proof fn law_modify_stores_the_hash_of_the_flags<E>(
    request: ModifyRequest,
    run: ModifyRun<E>,
    n: int,
)
    requires
        is_modify_run(request, run),
        0 <= n <= run.events.len(),
    ensures
        run.actions[n] matches ModifyAction::StoreEnvelope { uid, flags, flags_hash } ==> {
            &&& n >= 1
            &&& run.events[n - 1] == ModifyEvent::<E>::Hashed(flags_hash)
            &&& run.actions[n - 1] matches ModifyAction::HashFlags(hashed)
            &&& same_flags(flags@, hashed@)
            &&& run.cursors[n].index == run.cursors[n - 1].index
            &&& uid == request.uids@[run.cursors[n].index as int]
        },
        run.actions[n] matches ModifyAction::StoreMinimal { uid, flags_hash } ==> {
            &&& n >= 1
            &&& run.events[n - 1] is EnvelopeStored
            &&& run.actions[n - 1] matches ModifyAction::StoreEnvelope {
                uid: stored_uid,
                flags,
                flags_hash: stored_hash,
            }
            &&& stored_uid == uid
            &&& stored_hash == flags_hash
        },
{
    if n > 0 {
        let event = run.events[n - 1];
        assert(modify_awaits(request, run.cursors[n - 1], event));
        lemma_modify_asks(request, run, n);
        lemma_modify_asks(request, run, n - 1);
    }
}

/// In every run, the cache changes only when the minimal envelope store has taken a hash, and
/// then by that hash for that message.
pub proof fn law_modify_run_caches_what_is_stored<E>(
    request: ModifyRequest,
    run: ModifyRun<E>,
    i: int,
)
    requires
        is_modify_run(request, run),
        0 <= i < run.events.len(),
    ensures
        !(run.events[i] is MinimalStored) ==> run.states[i + 1] == run.states[i],
        run.events[i] is MinimalStored ==> {
            &&& run.actions[i] matches ModifyAction::StoreMinimal { uid, flags_hash }
            &&& forall|a: u64, m: u64, u: u32, h: u64| #[trigger]
                holds(run.states[i + 1], a, m, u, h) <==> (if a == request.account_id && m
                    == request.mailbox_id && u == uid {
                    h == flags_hash
                } else {
                    holds(run.states[i], a, m, u, h)
                })
        },
{
    let event = run.events[i];
    assert(modify_awaits(request, run.cursors[i], event));
    lemma_modify_asks(request, run, i);
}

/// Every message before the one at the cursor is done.
proof fn lemma_modify_done<E>(request: ModifyRequest, run: ModifyRun<E>, n: int, index: int)
    requires
        is_modify_run(request, run),
        0 <= n <= run.events.len(),
        0 <= index < request.uids@.len(),
        run.actions[n] == ModifyAction::<E>::Finish(Ok(())) || (!(run.actions[n] is Finish) && index
            < run.cursors[n].index),
    ensures
        exists|k: int|
            0 <= k < n && run.cursors[k].index == index && (#[trigger] run.events[k]
                == ModifyEvent::<E>::Found(None) || run.events[k] is MinimalStored),
    decreases n,
{
    if n > 0 {
        let event = run.events[n - 1];
        assert(modify_awaits(request, run.cursors[n - 1], event));
        lemma_modify_asks(request, run, n);
        lemma_modify_asks(request, run, n - 1);
        if index < run.cursors[n - 1].index {
            lemma_modify_done(request, run, n - 1, index);
            let k = choose|k: int|
                0 <= k < n - 1 && run.cursors[k].index == index && (#[trigger] run.events[k]
                    == ModifyEvent::<E>::Found(None) || run.events[k] is MinimalStored);
            assert(run.events[k] == ModifyEvent::<E>::Found(None) || run.events[k] is MinimalStored);
        } else {
            assert(run.cursors[n - 1].index == index);
            assert(run.events[n - 1] == ModifyEvent::<E>::Found(None)
                || run.events[n - 1] is MinimalStored);
        }
    }
}

/// A run ends well only when every message of the request was not found or has gone into both
/// stores.
pub proof fn law_modify_leaves_no_message_out<E>(
    request: ModifyRequest,
    run: ModifyRun<E>,
    n: int,
    index: int,
)
    requires
        is_modify_run(request, run),
        0 <= n <= run.events.len(),
        run.actions[n] == ModifyAction::<E>::Finish(Ok(())),
        0 <= index < request.uids@.len(),
    ensures
        exists|k: int|
            0 <= k < n && run.cursors[k].index == index && (#[trigger] run.events[k]
                == ModifyEvent::<E>::Found(None) || run.events[k] is MinimalStored),
{
    lemma_modify_done(request, run, n, index);
}

} // verus!
