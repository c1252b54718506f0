//! The running sync tasks of the accounts.
use crate::text::{decimal, decimal_text};
use dashmap::DashMap;
use vstd::prelude::*;

verus! {

/// What a map of tasks holds: the handle number of each account's task.
pub uninterp spec fn task_entries(map: DashMap<u64, u64>) -> Map<u64, u64>;

/// `DashMap::new`: an empty map of tasks.
#[verifier::external_body]
fn tasks_new() -> (map: DashMap<u64, u64>)
    ensures
        task_entries(map) == no_tasks(),
{
    DashMap::new()
}

/// `DashMap::insert`: `account_id` holds `handle` afterwards, other accounts are as before, and
/// the handle that was there is handed back.
#[verifier::external_body]
fn tasks_insert(map: &mut DashMap<u64, u64>, account_id: u64, handle: u64) -> (previous: Option<u64>)
    ensures
        task_entries(*final(map)) == task_entries(*old(map)).insert(account_id, handle),
        previous == task_entries(*old(map)).get(account_id),
{
    map.insert(account_id, handle)
}

/// `DashMap::remove`: `account_id` is gone afterwards, other accounts are as before, and the
/// entry that was there is handed back.
#[verifier::external_body]
fn tasks_remove(map: &mut DashMap<u64, u64>, account_id: u64) -> (removed: Option<(u64, u64)>)
    ensures
        task_entries(*final(map)) == task_entries(*old(map)).remove(account_id),
        removed is Some <==> task_entries(*old(map)).contains_key(account_id),
        removed matches Some(entry) ==> entry == (account_id, task_entries(*old(map))[account_id]),
{
    map.remove(&account_id)
}

/// No tasks.
pub open spec fn no_tasks() -> Map<u64, u64> {
    Map::empty()
}

/// The name of an account's sync task.
pub open spec fn task_name(account_id: u64, email: Seq<char>) -> Seq<char> {
    "account-sync-task-"@ + decimal(account_id as nat) + "-"@ + email
}

/// The sync task of each account, by the number of its handle.
pub struct AccountSyncTask {
    tasks: DashMap<u64, u64>,
}

impl View for AccountSyncTask {
    type V = Map<u64, u64>;

    closed spec fn view(&self) -> Map<u64, u64> {
        task_entries(self.tasks)
    }
}

impl AccountSyncTask {
    /// No tasks.
    pub fn new() -> (tasks: Self)
        ensures
            tasks@ == no_tasks(),
    {
        AccountSyncTask { tasks: tasks_new() }
    }

    /// The name under which an account's sync task is to be started.
    pub fn sync_task_name(account_id: u64, email: &str) -> (name: String)
        ensures
            name@ == task_name(account_id, email@),
    {
        let mut name = "account-sync-task-".to_string();
        name.append(decimal_text(account_id).as_str());
        name.append("-");
        name.append(email);
        name
    }

    /// Takes note of an account's sync task that has been started. The handle of an earlier
    /// task of the account is handed back: it is let go, and its task is not cancelled.
    pub fn start_account_sync_task(&mut self, account_id: u64, handle: u64) -> (previous: Option<
        u64,
    >)
        ensures
            final(self)@ == old(self)@.insert(account_id, handle),
            previous == old(self)@.get(account_id),
    {
        tasks_insert(&mut self.tasks, account_id, handle)
    }

    /// Forgets an account's sync task, and hands back its handle for the task to be
    /// cancelled; `None` when there is no such task.
    pub fn stop(&mut self, account_id: u64) -> (handle: Option<u64>)
        ensures
            final(self)@ == old(self)@.remove(account_id),
            handle == old(self)@.get(account_id),
    {
        match tasks_remove(&mut self.tasks, account_id) {
            Some((_, handle)) => Some(handle),
            None => None,
        }
    }
}

/// Stopping the task of an account hands back the handle that was last started for it, and
/// stopping again hands back nothing.
pub proof fn law_stop_undoes_start(tasks: Map<u64, u64>, account_id: u64, handle: u64)
    ensures
        tasks.insert(account_id, handle).get(account_id) == Some(handle),
        tasks.insert(account_id, handle).remove(account_id) == tasks.remove(account_id),
        tasks.insert(account_id, handle).remove(account_id).get(account_id) is None,
{
    assert(tasks.insert(account_id, handle).remove(account_id) =~= tasks.remove(account_id));
}

/// Starting or stopping the task of one account leaves those of the others alone.
pub proof fn law_tasks_are_separate(
    tasks: Map<u64, u64>,
    account_id: u64,
    handle: u64,
    other_id: u64,
)
    requires
        account_id != other_id,
    ensures
        tasks.insert(account_id, handle).get(other_id) == tasks.get(other_id),
        tasks.remove(account_id).get(other_id) == tasks.get(other_id),
{
}

/// At first there is no task to stop.
pub proof fn law_new_has_no_task(tasks: &mut AccountSyncTask, account_id: u64, handle: Option<u64>)
    requires
        call_ensures(AccountSyncTask::new, (), *tasks),
        call_ensures(AccountSyncTask::stop, (tasks, account_id), handle),
    ensures
        handle is None,
{
}

/// A task that was started is the one that is stopped, whatever was started before; the task of
/// any other account is the one that would have been stopped without the start.
pub proof fn law_stop_finds_the_last_start(
    tasks: &mut AccountSyncTask,
    account_id: u64,
    handle: u64,
    previous: Option<u64>,
    before: &mut AccountSyncTask,
    after: &mut AccountSyncTask,
    other_id: u64,
    stopped_before: Option<u64>,
    stopped_after: Option<u64>,
)
    requires
        *before == *tasks,
        *after == *final(tasks),
        call_ensures(
            AccountSyncTask::start_account_sync_task,
            (tasks, account_id, handle),
            previous,
        ),
        call_ensures(AccountSyncTask::stop, (before, other_id), stopped_before),
        call_ensures(AccountSyncTask::stop, (after, other_id), stopped_after),
    ensures
        other_id == account_id ==> stopped_after == Some(handle) && previous == stopped_before,
        other_id != account_id ==> stopped_after == stopped_before,
{
}

/// A task that was stopped cannot be stopped again; the task of any other account still can.
pub proof fn law_stop_forgets_one_task(
    tasks: &mut AccountSyncTask,
    account_id: u64,
    handle: Option<u64>,
    before: &mut AccountSyncTask,
    after: &mut AccountSyncTask,
    other_id: u64,
    stopped_before: Option<u64>,
    stopped_after: Option<u64>,
)
    requires
        *before == *tasks,
        *after == *final(tasks),
        call_ensures(AccountSyncTask::stop, (tasks, account_id), handle),
        call_ensures(AccountSyncTask::stop, (before, other_id), stopped_before),
        call_ensures(AccountSyncTask::stop, (after, other_id), stopped_after),
    ensures
        other_id == account_id ==> stopped_after is None && handle == stopped_before,
        other_id != account_id ==> stopped_after == stopped_before,
{
}

/// The name of a task tells the account's id in decimal and then its address.
pub proof fn law_task_name_tells_id_and_address(
    account_id: u64,
    email: &str,
    digits: String,
    name: String,
)
    requires
        call_ensures(decimal_text, (account_id,), digits),
        call_ensures(AccountSyncTask::sync_task_name, (account_id, email), name),
    ensures
        name@ == "account-sync-task-"@ + digits@ + "-"@ + email@,
{
}

/// Tasks can be named, started and stopped for any account.
pub proof fn law_tasks_take_any_account(
    tasks: &mut AccountSyncTask,
    account_id: u64,
    handle: u64,
    email: &str,
)
    ensures
        call_requires(AccountSyncTask::new, ()),
        call_requires(AccountSyncTask::sync_task_name, (account_id, email)),
        call_requires(
            AccountSyncTask::start_account_sync_task,
            (tasks, account_id, handle),
        ),
        call_requires(AccountSyncTask::stop, (tasks, account_id)),
{
}

} // verus!
