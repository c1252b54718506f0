//! The order in which the mail stores are cleaned, and when that stops.
use vstd::prelude::*;

verus! {

/// A mail store that keeps data of an account.
#[derive(Clone, Copy, Debug, PartialEq, Eq, Structural)]
pub enum Store {
    Envelopes,
    MinimalEnvelopes,
    Addresses,
    Threads,
}

/// How far the cleaning of the mail stores has come.
#[derive(Debug)]
pub enum StoreSweep<E> {
    /// The store to clean next.
    Cleaning(Store),
    /// The cleaning is over, with the error that stopped it if there was one.
    Finished(Result<(), E>),
}

/// The stores in the order in which they are cleaned.
pub open spec fn store_order() -> Seq<Store> {
    seq![Store::Envelopes, Store::MinimalEnvelopes, Store::Addresses, Store::Threads]
}

/// The sweep when the first `done` stores have been cleaned.
pub open spec fn sweep_at<E>(done: nat) -> StoreSweep<E> {
    if done < store_order().len() {
        StoreSweep::Cleaning(store_order()[done as int])
    } else {
        StoreSweep::Finished(Ok(()))
    }
}

/// The sweep after the store that was next has been cleaned, or has failed to be.
pub open spec fn sweep_next<E>(sweep: StoreSweep<E>, outcome: Result<(), E>) -> StoreSweep<E> {
    match (sweep, outcome) {
        (StoreSweep::Cleaning(store), Ok(_)) => sweep_at(
            (store_order().index_of(store) + 1) as nat,
        ),
        (StoreSweep::Cleaning(_), Err(error)) => StoreSweep::Finished(Err(error)),
        (StoreSweep::Finished(result), _) => StoreSweep::Finished(result),
    }
}

/// The sweep after a run of outcomes, from the start.
pub open spec fn sweep_after<E>(outcomes: Seq<Result<(), E>>) -> StoreSweep<E>
    decreases outcomes.len(),
{
    if outcomes.len() == 0 {
        sweep_at(0)
    } else {
        sweep_next(sweep_after(outcomes.drop_last()), outcomes.last())
    }
}

/// Each store stands once in the order.
proof fn lemma_store_order()
    ensures
        store_order().len() == 4,
        store_order().index_of(Store::Envelopes) == 0,
        store_order().index_of(Store::MinimalEnvelopes) == 1,
        store_order().index_of(Store::Addresses) == 2,
        store_order().index_of(Store::Threads) == 3,
{
    let order = store_order();
    assert(order[0] == Store::Envelopes);
    assert(order[1] == Store::MinimalEnvelopes);
    assert(order[2] == Store::Addresses);
    assert(order[3] == Store::Threads);
    assert(order.contains(Store::Envelopes));
    assert(order.contains(Store::MinimalEnvelopes));
    assert(order.contains(Store::Addresses));
    assert(order.contains(Store::Threads));
}

impl<E> StoreSweep<E> {
    /// The sweep before any store has been cleaned.
    pub fn start() -> (sweep: Self)
        ensures
            sweep == sweep_at::<E>(0),
    {
        StoreSweep::Cleaning(Store::Envelopes)
    }

    /// Takes note of the outcome of cleaning the store that was next.
    pub fn advance(self, outcome: Result<(), E>) -> (next: Self)
        ensures
            next == sweep_next(self, outcome),
    {
        proof {
            lemma_store_order();
        }
        match self {
            StoreSweep::Cleaning(store) => match outcome {
                Ok(_) => match store {
                    Store::Envelopes => StoreSweep::Cleaning(Store::MinimalEnvelopes),
                    Store::MinimalEnvelopes => StoreSweep::Cleaning(Store::Addresses),
                    Store::Addresses => StoreSweep::Cleaning(Store::Threads),
                    Store::Threads => StoreSweep::Finished(Ok(())),
                },
                Err(error) => StoreSweep::Finished(Err(error)),
            },
            StoreSweep::Finished(result) => StoreSweep::Finished(result),
        }
    }
}

/// As long as no store fails, the stores are cleaned one after the other in the order, and
/// the sweep succeeds once all of them have been.
pub proof fn law_sweep_cleans_in_order<E>(outcomes: Seq<Result<(), E>>)
    requires
        forall|i: int| 0 <= i < outcomes.len() ==> (#[trigger] outcomes[i]) is Ok,
    ensures
        sweep_after(outcomes) == sweep_at::<E>(outcomes.len()),
    decreases outcomes.len(),
{
    lemma_store_order();
    if outcomes.len() > 0 {
        assert forall|i: int| 0 <= i < outcomes.len() - 1 implies (
        #[trigger] outcomes.drop_last()[i]) is Ok by {
            assert(outcomes[i] is Ok);
        }
        law_sweep_cleans_in_order(outcomes.drop_last());
        assert(outcomes.last() is Ok);
    }
}

/// The first store that fails ends the sweep with its error: the stores behind it are never
/// reached, whatever follows.
pub proof fn law_sweep_stops_at_first_failure<E>(outcomes: Seq<Result<(), E>>, failed: int)
    requires
        0 <= failed < outcomes.len(),
        failed < store_order().len(),
        outcomes[failed] is Err,
        forall|i: int| 0 <= i < failed ==> (#[trigger] outcomes[i]) is Ok,
    ensures
        sweep_after(outcomes) == StoreSweep::<E>::Finished(outcomes[failed]),
    decreases outcomes.len(),
{
    lemma_store_order();
    let earlier = outcomes.drop_last();
    if failed == outcomes.len() - 1 {
        assert forall|i: int| 0 <= i < earlier.len() implies (#[trigger] earlier[i]) is Ok by {
            assert(outcomes[i] is Ok);
        }
        law_sweep_cleans_in_order(earlier);
    } else {
        assert forall|i: int| 0 <= i < failed implies (#[trigger] earlier[i]) is Ok by {
            assert(outcomes[i] is Ok);
        }
        law_sweep_stops_at_first_failure(earlier, failed);
    }
}

/// Of a sweep that has not failed, the outcomes so far are successes, up to the last store.
proof fn lemma_unfailed_sweep<E>(outcomes: Seq<Result<(), E>>)
    requires
        !(sweep_after(outcomes) matches StoreSweep::Finished(Err(_))),
    ensures
        forall|i: int|
            0 <= i < outcomes.len() && i < store_order().len() ==> (#[trigger] outcomes[i]) is Ok,
        sweep_after(outcomes) == sweep_at::<E>(outcomes.len()),
    decreases outcomes.len(),
{
    lemma_store_order();
    if outcomes.len() > 0 {
        let earlier = outcomes.drop_last();
        lemma_unfailed_sweep(earlier);
        assert forall|i: int|
            0 <= i < outcomes.len() && i < store_order().len() implies (
        #[trigger] outcomes[i]) is Ok by {
            if i < earlier.len() {
                assert(earlier[i] is Ok);
            }
        }
    }
}

/// A sweep succeeds only when every store has been cleaned.
pub proof fn law_sweep_success_needs_all_stores<E>(outcomes: Seq<Result<(), E>>)
    requires
        sweep_after(outcomes) == StoreSweep::<E>::Finished(Ok(())),
    ensures
        outcomes.len() >= store_order().len(),
        forall|i: int| 0 <= i < store_order().len() ==> (#[trigger] outcomes[i]) is Ok,
{
    lemma_store_order();
    lemma_unfailed_sweep(outcomes);
}

/// A sweep starts with the envelope store.
pub proof fn law_sweep_starts_with_the_envelopes<E>(sweep: StoreSweep<E>)
    requires
        call_ensures(StoreSweep::<E>::start, (), sweep),
    ensures
        sweep == StoreSweep::<E>::Cleaning(Store::Envelopes),
{
}

/// The envelope store is followed by the minimal envelope store, that by the addresses, those by
/// the threads, and those by success. A store that fails ends the sweep with its error, and a
/// sweep that is over stays as it ended.
pub proof fn law_sweep_takes_the_next_store<E>(
    sweep: StoreSweep<E>,
    outcome: Result<(), E>,
    next: StoreSweep<E>,
)
    requires
        call_ensures(StoreSweep::<E>::advance, (sweep, outcome), next),
    ensures
        sweep == StoreSweep::<E>::Cleaning(Store::Envelopes) && outcome is Ok ==> next
            == StoreSweep::<E>::Cleaning(Store::MinimalEnvelopes),
        sweep == StoreSweep::<E>::Cleaning(Store::MinimalEnvelopes) && outcome is Ok ==> next
            == StoreSweep::<E>::Cleaning(Store::Addresses),
        sweep == StoreSweep::<E>::Cleaning(Store::Addresses) && outcome is Ok ==> next
            == StoreSweep::<E>::Cleaning(Store::Threads),
        sweep == StoreSweep::<E>::Cleaning(Store::Threads) && outcome is Ok ==> next
            == StoreSweep::<E>::Finished(Ok(())),
        sweep is Cleaning && outcome is Err ==> next == StoreSweep::<E>::Finished(outcome),
        sweep is Finished ==> next == sweep,
{
    lemma_store_order();
}

/// A sweep can be started, and told of any outcome.
pub proof fn law_sweep_takes_any_outcome<E>(sweep: StoreSweep<E>, outcome: Result<(), E>)
    ensures
        call_requires(StoreSweep::<E>::start, ()),
        call_requires(StoreSweep::<E>::advance, (sweep, outcome)),
{
}

} // verus!
