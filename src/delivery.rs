use crate::publish::same_tables;
use crate::store::{
    backoff_seconds, has_issue, is_ready, retried, task_matches, DeliveryTask, NewsletterIssue, Store,
};
use crate::subscriber_email::{is_valid_email, SubscriberEmail};
use vstd::prelude::*;

verus! {

/// A task that has failed more often than this is given up.
pub const MAX_RETRIES: u32 = 3;

/// What one pass of the delivery worker came to.
#[derive(Debug, Clone, Copy, PartialEq, Eq, Structural)]
pub enum ExecutionOutcome {
    TaskCompleted,
    TaskRetryScheduled,
    TaskSkipped,
    EmptyQueue,
}

/// A task is given up once it has been retried more than the cap allows.
pub open spec fn gives_up(n_retries: u32) -> bool {
    n_retries > MAX_RETRIES
}

/// What the worker does with a task it has dequeued, before looking up the
/// issue.
pub enum TaskPlan {
    /// Delete the task: it has failed too often.
    GiveUp,
    /// Leave the task: its stored email is not an address.
    Skip,
    /// Send the issue to this address.
    Send(SubscriberEmail),
}

/// Decides on a dequeued task from its count of retries and its email.
pub fn plan_task(n_retries: u32, subscriber_email: String) -> (r: TaskPlan)
    ensures
        gives_up(n_retries) ==> r is GiveUp,
        !gives_up(n_retries) && !is_valid_email(subscriber_email@) ==> r is Skip,
        !gives_up(n_retries) && is_valid_email(subscriber_email@) ==> (r matches TaskPlan::Send(e)
            && e@ == subscriber_email@),
{
    if n_retries > MAX_RETRIES {
        return TaskPlan::GiveUp;
    }
    match SubscriberEmail::parse(subscriber_email) {
        Ok(e) => TaskPlan::Send(e),
        Err(_) => TaskPlan::Skip,
    }
}

/// An email that the worker must hand to the gateway.
pub struct Delivery {
    /// Position of the locked task in the queue.
    pub position: usize,
    pub issue_id: u128,
    pub n_retries: u32,
    pub recipient: SubscriberEmail,
    pub subject: String,
    pub html_content: String,
    pub text_content: String,
}

/// What the worker does after dequeuing.
pub enum WorkerStep {
    /// The pass is over, with this outcome.
    Finished(ExecutionOutcome),
    /// Call the gateway with this email, then report back.
    Deliver(Delivery),
}

/// The issue of `issue_id`, where there is one.
pub open spec fn issue_index(rows: Seq<NewsletterIssue>, issue_id: u128) -> int {
    choose|i: int| 0 <= i < rows.len() && (#[trigger] rows[i]).issue_id == issue_id
}

/// What a pass does up to the gateway call, from store `s0` to store `s1`.
pub open spec fn start_task_post(s0: Store, now: u64, r: WorkerStep, s1: Store) -> bool {
    let tasks = s0.task_rows();
    if forall|j: int| 0 <= j < tasks.len() ==> !is_ready(#[trigger] tasks[j], now) {
        r == WorkerStep::Finished(ExecutionOutcome::EmptyQueue) && same_tables(s0, s1)
    } else {
        exists|i: int|
            0 <= i < tasks.len() && is_ready(#[trigger] tasks[i], now) && start_on(s0, i, r, s1)
    }
}

/// What a pass does with the ready task at position `i`.
pub open spec fn start_on(s0: Store, i: int, r: WorkerStep, s1: Store) -> bool {
    let t = s0.task_rows()[i];
    if gives_up(t.n_retries) {
        &&& r == WorkerStep::Finished(ExecutionOutcome::TaskCompleted)
        &&& s1.task_rows() == s0.task_rows().remove(i)
        &&& s1.idempotency_rows() == s0.idempotency_rows()
        &&& s1.issue_rows() == s0.issue_rows()
        &&& s1.subscription_rows() == s0.subscription_rows()
    } else if !is_valid_email(t.subscriber_email@) || !has_issue(s0.issue_rows(), t.issue_id) {
        r == WorkerStep::Finished(ExecutionOutcome::TaskSkipped) && same_tables(s0, s1)
    } else {
        let issue = s0.issue_rows()[issue_index(s0.issue_rows(), t.issue_id)];
        &&& same_tables(s0, s1)
        &&& r matches WorkerStep::Deliver(d) && {
            &&& d.position == i
            &&& d.issue_id == t.issue_id
            &&& d.n_retries == t.n_retries
            &&& d.recipient@ == t.subscriber_email@
            &&& d.subject@ == issue.title@
            &&& d.html_content@ == issue.html_content@
            &&& d.text_content@ == issue.text_content@
        }
    }
}

/// The task that a delivery was made for is still where it was, as the
/// worker's row lock keeps it.
pub open spec fn holds_task(s: Store, d: Delivery) -> bool {
    &&& d.position < s.task_rows().len()
    &&& task_matches(s.task_rows()[d.position as int], d.issue_id, d.recipient@)
    &&& s.task_rows()[d.position as int].n_retries == d.n_retries
    &&& !gives_up(d.n_retries)
}

/// Dequeues a ready task and decides what to do with it: give it up when it
/// has failed too often, skip it when its email or its issue is unusable,
/// or hand it to the gateway.
pub fn start_task(store: &mut Store, now: u64) -> (r: WorkerStep)
    requires
        old(store).wf(),
    ensures
        final(store).wf(),
        start_task_post(*old(store), now, r, *final(store)),
        r matches WorkerStep::Deliver(d) ==> holds_task(*final(store), d),
{
    let ghost s0 = *store;
    let i = match store.dequeue_task(now) {
        None => {
            return WorkerStep::Finished(ExecutionOutcome::EmptyQueue);
        },
        Some(i) => i,
    };
    let task: &DeliveryTask = &store.tasks()[i];
    let issue_id = task.issue_id;
    let n_retries = task.n_retries;
    match plan_task(n_retries, task.subscriber_email.clone()) {
        TaskPlan::GiveUp => {
            store.delete_task(i);
            assert(start_on(s0, i as int, WorkerStep::Finished(ExecutionOutcome::TaskCompleted), *store));
            WorkerStep::Finished(ExecutionOutcome::TaskCompleted)
        },
        TaskPlan::Skip => {
            assert(start_on(s0, i as int, WorkerStep::Finished(ExecutionOutcome::TaskSkipped), *store));
            WorkerStep::Finished(ExecutionOutcome::TaskSkipped)
        },
        TaskPlan::Send(recipient) => match store.find_issue(issue_id) {
            None => {
                assert(start_on(s0, i as int, WorkerStep::Finished(ExecutionOutcome::TaskSkipped), *store));
                WorkerStep::Finished(ExecutionOutcome::TaskSkipped)
            },
            Some(k) => {
                let issue = &store.issues()[k];
                proof {
                    let rows = store.issue_rows();
                    let c = issue_index(rows, issue_id);
                    if c != k {
                        assert(rows[c].issue_id != rows[k as int].issue_id);
                    }
                }
                let d = Delivery {
                    position: i,
                    issue_id,
                    n_retries,
                    recipient,
                    subject: issue.title.clone(),
                    html_content: issue.html_content.clone(),
                    text_content: issue.text_content.clone(),
                };
                let r = WorkerStep::Deliver(d);
                assert(start_on(s0, i as int, r, *store));
                r
            },
        },
    }
}

/// What reporting the gateway's answer does, from store `s0` to `s1`.
pub open spec fn finish_task_post(
    s0: Store,
    d: Delivery,
    sent: bool,
    now: u64,
    r: ExecutionOutcome,
    s1: Store,
) -> bool {
    &&& s1.idempotency_rows() == s0.idempotency_rows()
    &&& s1.issue_rows() == s0.issue_rows()
    &&& s1.subscription_rows() == s0.subscription_rows()
    &&& if sent {
        r == ExecutionOutcome::TaskCompleted && s1.task_rows() == s0.task_rows().remove(d.position as int)
    } else {
        r == ExecutionOutcome::TaskRetryScheduled && s1.task_rows() == s0.task_rows().update(
            d.position as int,
            retried(s0.task_rows()[d.position as int], now),
        )
    }
}

/// Reports the gateway's answer for a delivery: the task is deleted when the
/// email went out, and held back for another attempt when it did not.
pub fn finish_task(store: &mut Store, d: &Delivery, sent: bool, now: u64) -> (r: ExecutionOutcome)
    requires
        old(store).wf(),
        holds_task(*old(store), *d),
    ensures
        final(store).wf(),
        finish_task_post(*old(store), *d, sent, now, r, *final(store)),
{
    if sent {
        store.delete_task(d.position);
        ExecutionOutcome::TaskCompleted
    } else {
        store.retry_task(d.position, now);
        ExecutionOutcome::TaskRetryScheduled
    }
}

/// How long the worker sleeps after a pass, in milliseconds: 300 after a
/// delivery attempt, none after a skip, 10 s on an empty queue.
pub open spec fn pause_after(outcome: ExecutionOutcome) -> u64 {
    match outcome {
        ExecutionOutcome::TaskCompleted => 300,
        ExecutionOutcome::TaskRetryScheduled => 300,
        ExecutionOutcome::TaskSkipped => 0,
        ExecutionOutcome::EmptyQueue => 10_000,
    }
}

/// Milliseconds to sleep after a pass that ended with `outcome`.
pub fn pause_millis(outcome: ExecutionOutcome) -> (r: u64)
    ensures
        r == pause_after(outcome),
{
    match outcome {
        ExecutionOutcome::TaskCompleted => 300,
        ExecutionOutcome::TaskRetryScheduled => 300,
        ExecutionOutcome::TaskSkipped => 0,
        ExecutionOutcome::EmptyQueue => 10_000,
    }
}

/// Milliseconds to sleep after a pass that failed on the store.
pub const STORE_ERROR_PAUSE_MILLIS: u64 = 1_000;

/// The gateway calls made for one task that has failed `n` times so far,
/// when the gateway gives `answers` in turn (`true`: the email went out),
/// one worker pass per answer.
pub open spec fn attempts(n: nat, answers: Seq<bool>) -> nat
    decreases answers.len(),
{
    if answers.len() == 0 || gives_up(n as u32) || n > u32::MAX {
        0
    } else if answers[0] {
        1
    } else {
        1 + attempts(n + 1, answers.drop_first())
    }
}

/// Whether one of those calls delivers the email.
pub open spec fn delivered(n: nat, answers: Seq<bool>) -> bool
    decreases answers.len(),
{
    if answers.len() == 0 || gives_up(n as u32) || n > u32::MAX {
        false
    } else if answers[0] {
        true
    } else {
        delivered(n + 1, answers.drop_first())
    }
}

/// The holds, in seconds, that the task waits out before the call that
/// delivers it, or before it is given up.
pub open spec fn total_hold(n: nat, answers: Seq<bool>) -> nat
    decreases answers.len(),
{
    if answers.len() == 0 || gives_up(n as u32) || n > u32::MAX || answers[0] {
        0
    } else {
        backoff_seconds(n as u32) as nat + total_hold(n + 1, answers.drop_first())
    }
}

/// No task is handed to the gateway more than four times, whatever the
/// gateway answers: a task that has failed `n` times gets at most `4 - n`
/// more attempts.
pub proof fn lemma_bounded_attempts(n: nat, answers: Seq<bool>)
    requires
        n <= MAX_RETRIES + 1,
    ensures
        attempts(n, answers) <= MAX_RETRIES + 1 - n,
    decreases answers.len(),
{
    if answers.len() > 0 && !gives_up(n as u32) && !answers[0] {
        lemma_bounded_attempts(n + 1, answers.drop_first());
    }
}

/// A fresh task is delivered when the gateway accepts the email in any of
/// its first four attempts; by then it has waited at most 0 + 1 + 4 seconds
/// of holds, and every attempt was a gateway call.
pub proof fn lemma_delivered_within_cap(answers: Seq<bool>, k: int)
    requires
        0 <= k <= MAX_RETRIES,
        k < answers.len(),
        answers[k],
    ensures
        delivered(0, answers),
        total_hold(0, answers) <= 5,
        attempts(0, answers) >= 1,
{
    lemma_delivered_from(0, answers, k);
}

proof fn lemma_delivered_from(n: nat, answers: Seq<bool>, k: int)
    requires
        0 <= k,
        n + k <= MAX_RETRIES,
        k < answers.len(),
        answers[k],
    ensures
        delivered(n, answers),
        attempts(n, answers) >= 1,
        total_hold(n, answers) <= hold_budget(n) - hold_budget(n + k as nat),
    decreases k,
{
    if !answers[0] {
        assert(answers.drop_first()[k - 1] == answers[k]);
        lemma_delivered_from(n + 1, answers.drop_first(), k - 1);
        assert(n * n == backoff_seconds(n as u32)) by (nonlinear_arith)
            requires
                n <= 3,
        ;
    }
}

/// The holds of failures `n`, `n + 1`, ... up to the cap.
spec fn hold_budget(n: nat) -> int {
    if n == 0 {
        5
    } else if n == 1 {
        5
    } else if n == 2 {
        4
    } else {
        0
    }
}

} // verus!
