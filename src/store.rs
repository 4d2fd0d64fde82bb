use crate::response::SavedResponse;
use vstd::prelude::*;

verus! {

/// A row of the `idempotency` table. `response` is `None` while the
/// submission that created the row is in flight.
pub struct IdempotencyRecord {
    pub user_id: u128,
    pub key: String,
    pub created_at: u64,
    pub response: Option<SavedResponse>,
}

/// A row of the `newsletter_issues` table.
pub struct NewsletterIssue {
    pub issue_id: u128,
    pub title: String,
    pub text_content: String,
    pub html_content: String,
    pub published_at: u64,
}

/// A row of the `issue_delivery_queue` table.
pub struct DeliveryTask {
    pub issue_id: u128,
    pub subscriber_email: String,
    pub n_retries: u32,
    pub retry_after: Option<u64>,
}

#[derive(Debug, Clone, Copy, PartialEq, Eq, Structural)]
pub enum SubscriptionStatus {
    PendingConfirmation,
    Confirmed,
}

/// A row of the `subscriptions` table, as far as delivery reads it.
pub struct Subscription {
    pub email: String,
    pub status: SubscriptionStatus,
}

/// The relational store that the publish handler, the delivery worker and
/// the garbage collector share, one table per field.
pub struct Store {
    idempotency: Vec<IdempotencyRecord>,
    issues: Vec<NewsletterIssue>,
    queue: Vec<DeliveryTask>,
    subscriptions: Vec<Subscription>,
}

pub open spec fn idem_matches(r: IdempotencyRecord, user_id: u128, key: Seq<char>) -> bool {
    r.user_id == user_id && r.key@ == key
}

pub open spec fn has_idem(rows: Seq<IdempotencyRecord>, user_id: u128, key: Seq<char>) -> bool {
    exists|i: int| 0 <= i < rows.len() && idem_matches(#[trigger] rows[i], user_id, key)
}

/// `(user_id, key)` is the primary key of the idempotency table.
pub open spec fn idem_unique(rows: Seq<IdempotencyRecord>) -> bool {
    forall|i: int, j: int|
        0 <= i < rows.len() && 0 <= j < rows.len() && i != j ==> !idem_matches(
            #[trigger] rows[i],
            (#[trigger] rows[j]).user_id,
            rows[j].key@,
        )
}

pub open spec fn has_issue(rows: Seq<NewsletterIssue>, issue_id: u128) -> bool {
    exists|i: int| 0 <= i < rows.len() && (#[trigger] rows[i]).issue_id == issue_id
}

pub open spec fn issues_unique(rows: Seq<NewsletterIssue>) -> bool {
    forall|i: int, j: int|
        0 <= i < rows.len() && 0 <= j < rows.len() && i != j ==> (#[trigger] rows[i]).issue_id
            != (#[trigger] rows[j]).issue_id
}

pub open spec fn task_matches(t: DeliveryTask, issue_id: u128, email: Seq<char>) -> bool {
    t.issue_id == issue_id && t.subscriber_email@ == email
}

pub open spec fn has_task(rows: Seq<DeliveryTask>, issue_id: u128, email: Seq<char>) -> bool {
    exists|i: int| 0 <= i < rows.len() && task_matches(#[trigger] rows[i], issue_id, email)
}

/// `(issue_id, subscriber_email)` is the primary key of the delivery queue.
pub open spec fn tasks_unique(rows: Seq<DeliveryTask>) -> bool {
    forall|i: int, j: int|
        0 <= i < rows.len() && 0 <= j < rows.len() && i != j ==> !task_matches(
            #[trigger] rows[i],
            (#[trigger] rows[j]).issue_id,
            rows[j].subscriber_email@,
        )
}

/// Every queued task refers to an existing issue.
pub open spec fn tasks_have_issues(tasks: Seq<DeliveryTask>, issues: Seq<NewsletterIssue>) -> bool {
    forall|i: int| 0 <= i < tasks.len() ==> has_issue(issues, (#[trigger] tasks[i]).issue_id)
}

pub open spec fn emails_unique(rows: Seq<Subscription>) -> bool {
    forall|i: int, j: int|
        0 <= i < rows.len() && 0 <= j < rows.len() && i != j ==> (#[trigger] rows[i]).email@
            != (#[trigger] rows[j]).email@
}

/// A row has expired when it was created more than `hours` hours before `now`.
pub open spec fn is_expired(created_at: u64, now: u64, hours: u8) -> bool {
    (created_at as int) < now as int - hours as int * 3600
}

/// The rows that survive a garbage collection at `now`.
pub open spec fn kept_rows(rows: Seq<IdempotencyRecord>, now: u64, hours: u8) -> Seq<IdempotencyRecord>
    decreases rows.len(),
{
    if rows.len() == 0 {
        rows
    } else {
        let rest = kept_rows(rows.drop_last(), now, hours);
        if is_expired(rows.last().created_at, now, hours) {
            rest
        } else {
            rest.push(rows.last())
        }
    }
}

/// A fresh task: never attempted, ready at once.
pub open spec fn new_task(issue_id: u128, email: String) -> DeliveryTask {
    DeliveryTask { issue_id, subscriber_email: email, n_retries: 0, retry_after: None }
}

/// The tasks that publishing issue `issue_id` queues: one per confirmed
/// subscription, in the order of the subscriptions.
pub open spec fn confirmed_tasks(subs: Seq<Subscription>, issue_id: u128) -> Seq<DeliveryTask>
    decreases subs.len(),
{
    if subs.len() == 0 {
        Seq::empty()
    } else {
        let rest = confirmed_tasks(subs.drop_last(), issue_id);
        if subs.last().status == SubscriptionStatus::Confirmed {
            rest.push(new_task(issue_id, subs.last().email))
        } else {
            rest
        }
    }
}

/// A task may be attempted when it has no hold, or its hold has passed.
pub open spec fn is_ready(t: DeliveryTask, now: u64) -> bool {
    match t.retry_after {
        None => true,
        Some(after) => now > after,
    }
}

/// The hold after a failed attempt: the square of the retries counted before
/// it, in seconds.
pub open spec fn backoff_seconds(n_retries: u32) -> int {
    n_retries * n_retries
}

/// The hold, in seconds, after a failed attempt of a task that had been
/// retried `n_retries` times before.
pub fn backoff_delay(n_retries: u32) -> (r: u64)
    ensures
        r == backoff_seconds(n_retries),
{
    assert(n_retries as int * n_retries as int <= 0xffff_ffff * 0xffff_ffff) by (nonlinear_arith)
        requires
            n_retries <= 0xffff_ffff,
    ;
    n_retries as u64 * n_retries as u64
}

/// `now` plus `delay`, held at the largest timestamp.
pub open spec fn later(now: u64, delay: int) -> u64 {
    if now + delay > u64::MAX {
        u64::MAX
    } else {
        (now + delay) as u64
    }
}

/// A task after one more failed attempt at `now`.
pub open spec fn retried(t: DeliveryTask, now: u64) -> DeliveryTask {
    DeliveryTask {
        issue_id: t.issue_id,
        subscriber_email: t.subscriber_email,
        n_retries: (t.n_retries + 1) as u32,
        retry_after: Some(later(now, backoff_seconds(t.n_retries))),
    }
}

/// What publishing queues: fresh tasks of that issue, one for each confirmed
/// subscription and for nothing else, with distinct emails when the
/// subscriptions have them.
pub proof fn lemma_confirmed_tasks(subs: Seq<Subscription>, issue_id: u128)
    ensures
        forall|k: int|
            0 <= k < confirmed_tasks(subs, issue_id).len() ==> {
                let t = #[trigger] confirmed_tasks(subs, issue_id)[k];
                &&& t.issue_id == issue_id
                &&& t.n_retries == 0
                &&& t.retry_after is None
                &&& exists|j: int|
                    0 <= j < subs.len() && (#[trigger] subs[j]).email == t.subscriber_email
                        && subs[j].status == SubscriptionStatus::Confirmed
            },
        forall|j: int|
            0 <= j < subs.len() && (#[trigger] subs[j]).status == SubscriptionStatus::Confirmed
                ==> has_task(confirmed_tasks(subs, issue_id), issue_id, subs[j].email@),
        emails_unique(subs) ==> tasks_unique(confirmed_tasks(subs, issue_id)),
    decreases subs.len(),
{
    if subs.len() > 0 {
        let front = subs.drop_last();
        lemma_confirmed_tasks(front, issue_id);
        let rest = confirmed_tasks(front, issue_id);
        let ct = confirmed_tasks(subs, issue_id);
        let last = subs.last();
        assert forall|k: int| 0 <= k < rest.len() implies exists|j: int|
            0 <= j < subs.len() && (#[trigger] subs[j]).email == (#[trigger] rest[k]).subscriber_email
                && subs[j].status == SubscriptionStatus::Confirmed by {
            let j = choose|j: int|
                0 <= j < front.len() && (#[trigger] front[j]).email == rest[k].subscriber_email
                    && front[j].status == SubscriptionStatus::Confirmed;
            assert(subs[j] == front[j]);
        }
        assert forall|j: int|
            0 <= j < subs.len() && (#[trigger] subs[j]).status == SubscriptionStatus::Confirmed
                implies has_task(ct, issue_id, subs[j].email@) by {
            if j < front.len() {
                assert(subs[j] == front[j]);
                let k = choose|k: int| 0 <= k < rest.len() && task_matches(#[trigger] rest[k], issue_id, front[j].email@);
                assert(task_matches(ct[k], issue_id, subs[j].email@));
            } else {
                assert(task_matches(ct[rest.len() as int], issue_id, subs[j].email@));
            }
        }
        if last.status == SubscriptionStatus::Confirmed {
            assert(ct[rest.len() as int].subscriber_email == subs[subs.len() - 1].email);
        }
        if emails_unique(subs) {
            assert(emails_unique(front)) by {
                assert forall|a: int, b: int|
                    0 <= a < front.len() && 0 <= b < front.len() && a != b implies (#[trigger] front[a]).email@
                    != (#[trigger] front[b]).email@ by {
                    assert(front[a] == subs[a] && front[b] == subs[b]);
                }
            }
            assert forall|a: int, b: int|
                0 <= a < ct.len() && 0 <= b < ct.len() && a != b implies !task_matches(
                #[trigger] ct[a],
                (#[trigger] ct[b]).issue_id,
                ct[b].subscriber_email@,
            ) by {
                if a < rest.len() && b < rest.len() {
                    assert(ct[a] == rest[a] && ct[b] == rest[b]);
                } else if a < rest.len() {
                    let j = choose|j: int|
                        0 <= j < front.len() && (#[trigger] front[j]).email == rest[a].subscriber_email
                            && front[j].status == SubscriptionStatus::Confirmed;
                    assert(subs[j] == front[j]);
                    assert(ct[a] == rest[a]);
                } else if b < rest.len() {
                    let j = choose|j: int|
                        0 <= j < front.len() && (#[trigger] front[j]).email == rest[b].subscriber_email
                            && front[j].status == SubscriptionStatus::Confirmed;
                    assert(subs[j] == front[j]);
                    assert(ct[b] == rest[b]);
                }
            }
        }
    }
}

/// Whatever is kept was in the input, in the same relative order, so
/// distinct keys stay distinct.
proof fn lemma_kept_rows_unique(rows: Seq<IdempotencyRecord>, now: u64, hours: u8)
    requires
        idem_unique(rows),
    ensures
        idem_unique(kept_rows(rows, now, hours)),
        forall|i: int|
            0 <= i < kept_rows(rows, now, hours).len() ==> rows.contains(
                #[trigger] kept_rows(rows, now, hours)[i],
            ),
    decreases rows.len(),
{
    if rows.len() > 0 {
        let front = rows.drop_last();
        assert(idem_unique(front)) by {
            assert forall|i: int, j: int|
                0 <= i < front.len() && 0 <= j < front.len() && i != j implies !idem_matches(
                #[trigger] front[i],
                (#[trigger] front[j]).user_id,
                front[j].key@,
            ) by {
                assert(front[i] == rows[i] && front[j] == rows[j]);
            }
        }
        lemma_kept_rows_unique(front, now, hours);
        let rest = kept_rows(front, now, hours);
        assert forall|i: int| 0 <= i < rest.len() implies rows.contains(#[trigger] rest[i]) by {
            let j = choose|j: int| 0 <= j < front.len() && front[j] == rest[i];
            assert(rows[j] == rest[i]);
        }
        if !is_expired(rows.last().created_at, now, hours) {
            let kept = rest.push(rows.last());
            assert forall|i: int| 0 <= i < kept.len() implies rows.contains(#[trigger] kept[i]) by {
                if i == rest.len() {
                    assert(rows[rows.len() - 1] == kept[i]);
                } else {
                    assert(kept[i] == rest[i]);
                }
            }
            assert forall|i: int, j: int|
                0 <= i < kept.len() && 0 <= j < kept.len() && i != j implies !idem_matches(
                #[trigger] kept[i],
                (#[trigger] kept[j]).user_id,
                kept[j].key@,
            ) by {
                if i == rest.len() {
                    let b = choose|b: int| 0 <= b < front.len() && front[b] == rest[j];
                    assert(rows[b] == kept[j]);
                    assert(!idem_matches(rows[rows.len() - 1], rows[b].user_id, rows[b].key@));
                } else if j == rest.len() {
                    let a = choose|a: int| 0 <= a < front.len() && front[a] == rest[i];
                    assert(rows[a] == kept[i]);
                    assert(!idem_matches(rows[a], rows[rows.len() - 1].user_id, rows[rows.len() - 1].key@));
                } else {
                    assert(kept[i] == rest[i] && kept[j] == rest[j]);
                }
            }
        }
    }
}

/// Garbage collection keeps exactly the rows that have not expired: none
/// created more than `hours` hours before `now` remains, and none created
/// since is removed.
pub proof fn lemma_gc_correct(rows: Seq<IdempotencyRecord>, now: u64, hours: u8)
    ensures
        forall|i: int|
            0 <= i < kept_rows(rows, now, hours).len() ==> !is_expired(
                (#[trigger] kept_rows(rows, now, hours)[i]).created_at,
                now,
                hours,
            ) && rows.contains(kept_rows(rows, now, hours)[i]),
        forall|i: int|
            0 <= i < rows.len() && !is_expired((#[trigger] rows[i]).created_at, now, hours)
                ==> kept_rows(rows, now, hours).contains(rows[i]),
    decreases rows.len(),
{
    if rows.len() > 0 {
        let front = rows.drop_last();
        lemma_gc_correct(front, now, hours);
        let rest = kept_rows(front, now, hours);
        let kept = kept_rows(rows, now, hours);
        assert forall|i: int| 0 <= i < kept.len() implies !is_expired(
            (#[trigger] kept[i]).created_at,
            now,
            hours,
        ) && rows.contains(kept[i]) by {
            if i < rest.len() {
                assert(kept[i] == rest[i]);
                let j = choose|j: int| 0 <= j < front.len() && front[j] == rest[i];
                assert(rows[j] == kept[i]);
            } else {
                assert(kept[i] == rows[rows.len() - 1]);
            }
        }
        assert forall|i: int|
            0 <= i < rows.len() && !is_expired((#[trigger] rows[i]).created_at, now, hours) implies kept.contains(
            rows[i],
        ) by {
            if i < front.len() {
                assert(front[i] == rows[i]);
                let j = choose|j: int| 0 <= j < rest.len() && rest[j] == front[i];
                if is_expired(rows.last().created_at, now, hours) {
                    assert(kept[j] == rows[i]);
                } else {
                    assert(kept[j] == rows[i]);
                }
            } else {
                assert(kept[kept.len() - 1] == rows[i]);
            }
        }
    }
}

impl Store {
    pub closed spec fn idempotency_rows(&self) -> Seq<IdempotencyRecord> {
        self.idempotency@
    }

    pub closed spec fn issue_rows(&self) -> Seq<NewsletterIssue> {
        self.issues@
    }

    pub closed spec fn task_rows(&self) -> Seq<DeliveryTask> {
        self.queue@
    }

    pub closed spec fn subscription_rows(&self) -> Seq<Subscription> {
        self.subscriptions@
    }

    /// The store's invariants: every primary key is unique, and every task
    /// refers to an existing issue.
    pub open spec fn wf(&self) -> bool {
        &&& idem_unique(self.idempotency_rows())
        &&& issues_unique(self.issue_rows())
        &&& tasks_unique(self.task_rows())
        &&& tasks_have_issues(self.task_rows(), self.issue_rows())
        &&& emails_unique(self.subscription_rows())
    }

    pub fn new() -> (r: Store)
        ensures
            r.wf(),
            r.idempotency_rows().len() == 0,
            r.issue_rows().len() == 0,
            r.task_rows().len() == 0,
            r.subscription_rows().len() == 0,
    {
        Store { idempotency: Vec::new(), issues: Vec::new(), queue: Vec::new(), subscriptions: Vec::new() }
    }

    pub fn idempotency_records(&self) -> (r: &Vec<IdempotencyRecord>)
        ensures
            r@ == self.idempotency_rows(),
    {
        &self.idempotency
    }

    pub fn issues(&self) -> (r: &Vec<NewsletterIssue>)
        ensures
            r@ == self.issue_rows(),
    {
        &self.issues
    }

    pub fn tasks(&self) -> (r: &Vec<DeliveryTask>)
        ensures
            r@ == self.task_rows(),
    {
        &self.queue
    }

    pub fn subscriptions(&self) -> (r: &Vec<Subscription>)
        ensures
            r@ == self.subscription_rows(),
    {
        &self.subscriptions
    }

    /// The position of the idempotency row of `(user_id, key)`, if any.
    pub fn find_idempotency(&self, user_id: u128, key: &String) -> (r: Option<usize>)
        ensures
            r is None <==> !has_idem(self.idempotency_rows(), user_id, key@),
            r matches Some(i) ==> i < self.idempotency_rows().len() && idem_matches(
                self.idempotency_rows()[i as int],
                user_id,
                key@,
            ),
    {
        let mut i: usize = 0;
        while i < self.idempotency.len()
            invariant
                i <= self.idempotency@.len(),
                forall|j: int| 0 <= j < i ==> !idem_matches(#[trigger] self.idempotency@[j], user_id, key@),
            decreases self.idempotency@.len() - i,
        {
            let r = &self.idempotency[i];
            if r.user_id == user_id && r.key == *key {
                return Some(i);
            }
            i = i + 1;
        }
        None
    }

    /// `INSERT ... ON CONFLICT DO NOTHING` on the idempotency table: a new
    /// in-flight row for `(user_id, key)` unless one is there already.
    pub fn try_insert_idempotency(&mut self, user_id: u128, key: &String, now: u64) -> (inserted: bool)
        requires
            old(self).wf(),
        ensures
            final(self).wf(),
            inserted == !has_idem(old(self).idempotency_rows(), user_id, key@),
            has_idem(final(self).idempotency_rows(), user_id, key@),
            !inserted ==> final(self).idempotency_rows() == old(self).idempotency_rows(),
            inserted ==> final(self).idempotency_rows().len() == old(self).idempotency_rows().len() + 1,
            inserted ==> final(self).idempotency_rows().drop_last() == old(self).idempotency_rows(),
            inserted ==> ({
                let r = final(self).idempotency_rows().last();
                &&& idem_matches(r, user_id, key@)
                &&& r.created_at == now
                &&& r.response is None
            }),
            final(self).issue_rows() == old(self).issue_rows(),
            final(self).task_rows() == old(self).task_rows(),
            final(self).subscription_rows() == old(self).subscription_rows(),
    {
        match self.find_idempotency(user_id, key) {
            Some(_) => false,
            None => {
                let ghost before = self.idempotency@;
                self.idempotency.push(
                    IdempotencyRecord { user_id, key: key.clone(), created_at: now, response: None },
                );
                assert(self.idempotency@.drop_last() =~= before);
                assert(idem_matches(self.idempotency@[before.len() as int], user_id, key@));
                true
            },
        }
    }

    /// Fills in the response of the row of `(user_id, key)`. Refused when no
    /// such row exists.
    pub fn save_response(&mut self, user_id: u128, key: &String, response: SavedResponse) -> (saved: bool)
        requires
            old(self).wf(),
        ensures
            final(self).wf(),
            saved == has_idem(old(self).idempotency_rows(), user_id, key@),
            !saved ==> final(self).idempotency_rows() == old(self).idempotency_rows(),
            saved ==> exists|i: int|
                0 <= i < old(self).idempotency_rows().len() && idem_matches(
                    #[trigger] old(self).idempotency_rows()[i],
                    user_id,
                    key@,
                ) && final(self).idempotency_rows() == old(self).idempotency_rows().update(
                    i,
                    IdempotencyRecord {
                        user_id: old(self).idempotency_rows()[i].user_id,
                        key: old(self).idempotency_rows()[i].key,
                        created_at: old(self).idempotency_rows()[i].created_at,
                        response: Some(response),
                    },
                ),
            final(self).issue_rows() == old(self).issue_rows(),
            final(self).task_rows() == old(self).task_rows(),
            final(self).subscription_rows() == old(self).subscription_rows(),
    {
        match self.find_idempotency(user_id, key) {
            None => false,
            Some(i) => {
                let ghost before = self.idempotency@;
                let old_row = self.idempotency.remove(i);
                let row = IdempotencyRecord {
                    user_id: old_row.user_id,
                    key: old_row.key,
                    created_at: old_row.created_at,
                    response: Some(response),
                };
                self.idempotency.insert(i, row);
                assert(self.idempotency@ =~= before.update(i as int, row));
                assert forall|a: int, b: int|
                    0 <= a < self.idempotency@.len() && 0 <= b < self.idempotency@.len() && a != b
                        implies !idem_matches(
                        #[trigger] self.idempotency@[a],
                        (#[trigger] self.idempotency@[b]).user_id,
                        self.idempotency@[b].key@,
                    ) by {
                    assert(!idem_matches(before[a], before[b].user_id, before[b].key@));
                }
                true
            },
        }
    }

    /// Removes the row of `(user_id, key)`, as a rolled-back submission leaves
    /// none behind.
    pub fn remove_idempotency(&mut self, user_id: u128, key: &String)
        requires
            old(self).wf(),
        ensures
            final(self).wf(),
            !has_idem(final(self).idempotency_rows(), user_id, key@),
            forall|u: u128, k: Seq<char>|
                !(u == user_id && k == key@) ==> (has_idem(final(self).idempotency_rows(), u, k)
                    == has_idem(old(self).idempotency_rows(), u, k)),
            final(self).issue_rows() == old(self).issue_rows(),
            final(self).task_rows() == old(self).task_rows(),
            final(self).subscription_rows() == old(self).subscription_rows(),
    {
        match self.find_idempotency(user_id, key) {
            None => {},
            Some(i) => {
                let ghost before = self.idempotency@;
                self.idempotency.remove(i);
                assert(self.idempotency@ =~= before.remove(i as int));
                assert forall|j: int| 0 <= j < self.idempotency@.len() implies !idem_matches(
                    #[trigger] self.idempotency@[j],
                    user_id,
                    key@,
                ) by {
                    if j < i {
                        assert(!idem_matches(before[j], before[i as int].user_id, before[i as int].key@));
                    } else {
                        assert(!idem_matches(before[j + 1], before[i as int].user_id, before[i as int].key@));
                    }
                }
                assert forall|u: u128, k: Seq<char>|
                    !(u == user_id && k == key@) implies (has_idem(self.idempotency@, u, k) == has_idem(
                        before,
                        u,
                        k,
                    )) by {
                    if has_idem(before, u, k) {
                        let j = choose|j: int| 0 <= j < before.len() && idem_matches(#[trigger] before[j], u, k);
                        if j < i {
                            assert(idem_matches(self.idempotency@[j], u, k));
                        } else {
                            assert(j != i);
                            assert(idem_matches(self.idempotency@[j - 1], u, k));
                        }
                    }
                    if has_idem(self.idempotency@, u, k) {
                        let j = choose|j: int|
                            0 <= j < self.idempotency@.len() && idem_matches(#[trigger] self.idempotency@[j], u, k);
                        if j < i {
                            assert(idem_matches(before[j], u, k));
                        } else {
                            assert(idem_matches(before[j + 1], u, k));
                        }
                    }
                }
            },
        }
    }

    /// Whether a row created at `created_at` has expired at `now`.
    pub fn expired(created_at: u64, now: u64, hours: u8) -> (r: bool)
        ensures
            r == is_expired(created_at, now, hours),
    {
        let span: u64 = hours as u64 * 3600;
        now >= span && created_at < now - span
    }

    /// Deletes every idempotency row created more than `hours` hours before
    /// `now`, and returns how many rows it deleted.
    pub fn delete_expired_idempotency_key(&mut self, now: u64, hours: u8) -> (deleted: u64)
        requires
            old(self).wf(),
        ensures
            final(self).wf(),
            final(self).idempotency_rows() == kept_rows(old(self).idempotency_rows(), now, hours),
            deleted == old(self).idempotency_rows().len() - final(self).idempotency_rows().len(),
            final(self).issue_rows() == old(self).issue_rows(),
            final(self).task_rows() == old(self).task_rows(),
            final(self).subscription_rows() == old(self).subscription_rows(),
    {
        let ghost orig = self.idempotency@;
        let n0 = self.idempotency.len();
        let mut i: usize = 0;
        let ghost mut k: int = 0;
        let mut deleted: u64 = 0;
        while i < self.idempotency.len()
            invariant
                0 <= k <= orig.len(),
                orig.len() == n0,
                i <= self.idempotency@.len(),
                self.idempotency@.subrange(0, i as int) == kept_rows(orig.subrange(0, k), now, hours),
                self.idempotency@.subrange(i as int, self.idempotency@.len() as int) == orig.subrange(
                    k,
                    orig.len() as int,
                ),
                deleted == k - i,
                self.issues@ == old(self).issues@,
                self.queue@ == old(self).queue@,
                self.subscriptions@ == old(self).subscriptions@,
            decreases self.idempotency@.len() - i,
        {
            let ghost cur = self.idempotency@;
            assert(cur.subrange(i as int, cur.len() as int).len() == orig.len() - k);
            assert(cur[i as int] == cur.subrange(i as int, cur.len() as int)[0]);
            assert(orig.subrange(0, k + 1).drop_last() =~= orig.subrange(0, k));
            if Self::expired(self.idempotency[i].created_at, now, hours) {
                self.idempotency.remove(i);
                deleted = deleted + 1;
                assert(self.idempotency@.subrange(0, i as int) =~= cur.subrange(0, i as int));
                assert(self.idempotency@.subrange(i as int, self.idempotency@.len() as int) =~= cur.subrange(
                    i + 1,
                    cur.len() as int,
                ));
            } else {
                i = i + 1;
                assert(self.idempotency@.subrange(0, i as int) =~= cur.subrange(0, i - 1).push(cur[i - 1]));
            }
            proof {
                k = k + 1;
            }
            assert(orig.subrange(k, orig.len() as int) =~= orig.subrange(k - 1, orig.len() as int).drop_first());
            assert(self.idempotency@.subrange(i as int, self.idempotency@.len() as int) =~= orig.subrange(
                k,
                orig.len() as int,
            ));
        }
        assert(orig.subrange(0, k) =~= orig);
        assert(self.idempotency@ =~= self.idempotency@.subrange(0, i as int));
        proof {
            lemma_kept_rows_unique(orig, now, hours);
        }
        deleted
    }

    /// The position of the issue `issue_id`, if any.
    pub fn find_issue(&self, issue_id: u128) -> (r: Option<usize>)
        ensures
            r is None <==> !has_issue(self.issue_rows(), issue_id),
            r matches Some(i) ==> i < self.issue_rows().len() && self.issue_rows()[i as int].issue_id
                == issue_id,
    {
        let mut i: usize = 0;
        while i < self.issues.len()
            invariant
                i <= self.issues@.len(),
                forall|j: int| 0 <= j < i ==> (#[trigger] self.issues@[j]).issue_id != issue_id,
            decreases self.issues@.len() - i,
        {
            if self.issues[i].issue_id == issue_id {
                return Some(i);
            }
            i = i + 1;
        }
        None
    }

    /// Inserts an issue. Refused when its id is taken.
    pub fn insert_issue(&mut self, issue: NewsletterIssue) -> (inserted: bool)
        requires
            old(self).wf(),
        ensures
            final(self).wf(),
            inserted == !has_issue(old(self).issue_rows(), issue.issue_id),
            inserted ==> final(self).issue_rows() == old(self).issue_rows().push(issue),
            !inserted ==> final(self).issue_rows() == old(self).issue_rows(),
            final(self).idempotency_rows() == old(self).idempotency_rows(),
            final(self).task_rows() == old(self).task_rows(),
            final(self).subscription_rows() == old(self).subscription_rows(),
    {
        match self.find_issue(issue.issue_id) {
            Some(_) => false,
            None => {
                let ghost before = self.issues@;
                self.issues.push(issue);
                assert forall|t: int| 0 <= t < self.queue@.len() implies has_issue(
                    self.issues@,
                    (#[trigger] self.queue@[t]).issue_id,
                ) by {
                    let j = choose|j: int| 0 <= j < before.len() && (#[trigger] before[j]).issue_id == self.queue@[t].issue_id;
                    assert(self.issues@[j] == before[j]);
                }
                true
            },
        }
    }

    /// The position of the subscription of `email`, if any.
    pub fn find_subscription(&self, email: &String) -> (r: Option<usize>)
        ensures
            r is None <==> forall|j: int|
                0 <= j < self.subscription_rows().len() ==> (#[trigger] self.subscription_rows()[j]).email@ != email@,
            r matches Some(i) ==> i < self.subscription_rows().len() && self.subscription_rows()[i as int].email@
                == email@,
    {
        let mut i: usize = 0;
        while i < self.subscriptions.len()
            invariant
                i <= self.subscriptions@.len(),
                forall|j: int| 0 <= j < i ==> (#[trigger] self.subscriptions@[j]).email@ != email@,
            decreases self.subscriptions@.len() - i,
        {
            if self.subscriptions[i].email == *email {
                return Some(i);
            }
            i = i + 1;
        }
        None
    }

    /// Adds a subscription. Refused when `email` already has one.
    pub fn add_subscription(&mut self, email: String, status: SubscriptionStatus) -> (added: bool)
        requires
            old(self).wf(),
        ensures
            final(self).wf(),
            added == forall|j: int|
                0 <= j < old(self).subscription_rows().len() ==> (#[trigger] old(self).subscription_rows()[j]).email@
                    != email@,
            added ==> final(self).subscription_rows() == old(self).subscription_rows().push(
                Subscription { email, status },
            ),
            !added ==> final(self).subscription_rows() == old(self).subscription_rows(),
            final(self).idempotency_rows() == old(self).idempotency_rows(),
            final(self).issue_rows() == old(self).issue_rows(),
            final(self).task_rows() == old(self).task_rows(),
    {
        match self.find_subscription(&email) {
            Some(_) => false,
            None => {
                self.subscriptions.push(Subscription { email, status });
                true
            },
        }
    }

    /// Queues one task of issue `issue_id` for every confirmed subscription:
    /// `INSERT INTO issue_delivery_queue SELECT ... WHERE status = 'confirmed'`.
    pub fn enqueue_delivery_tasks(&mut self, issue_id: u128)
        requires
            old(self).wf(),
            has_issue(old(self).issue_rows(), issue_id),
            forall|t: int|
                0 <= t < old(self).task_rows().len() ==> (#[trigger] old(self).task_rows()[t]).issue_id
                    != issue_id,
        ensures
            final(self).wf(),
            final(self).task_rows() == old(self).task_rows() + confirmed_tasks(
                old(self).subscription_rows(),
                issue_id,
            ),
            final(self).idempotency_rows() == old(self).idempotency_rows(),
            final(self).issue_rows() == old(self).issue_rows(),
            final(self).subscription_rows() == old(self).subscription_rows(),
    {
        let ghost before = self.queue@;
        let ghost subs = self.subscriptions@;
        let mut i: usize = 0;
        while i < self.subscriptions.len()
            invariant
                i <= subs.len(),
                subs == self.subscriptions@,
                self.queue@ == before + confirmed_tasks(subs.subrange(0, i as int), issue_id),
                self.idempotency@ == old(self).idempotency@,
                self.issues@ == old(self).issues@,
            decreases subs.len() - i,
        {
            assert(subs.subrange(0, i + 1).drop_last() =~= subs.subrange(0, i as int));
            if self.subscriptions[i].status == SubscriptionStatus::Confirmed {
                let email = self.subscriptions[i].email.clone();
                self.queue.push(DeliveryTask { issue_id, subscriber_email: email, n_retries: 0, retry_after: None });
            }
            i = i + 1;
            assert(self.queue@ =~= before + confirmed_tasks(subs.subrange(0, i as int), issue_id));
        }
        assert(subs.subrange(0, i as int) =~= subs);
        proof {
            let added = confirmed_tasks(subs, issue_id);
            lemma_confirmed_tasks(subs, issue_id);
            let q = self.queue@;
            assert forall|a: int, b: int|
                0 <= a < q.len() && 0 <= b < q.len() && a != b implies !task_matches(
                #[trigger] q[a],
                (#[trigger] q[b]).issue_id,
                q[b].subscriber_email@,
            ) by {
                if a < before.len() && b < before.len() {
                    assert(q[a] == before[a] && q[b] == before[b]);
                } else if a >= before.len() && b >= before.len() {
                    assert(q[a] == added[a - before.len()] && q[b] == added[b - before.len()]);
                } else if a < before.len() {
                    assert(q[a] == before[a] && q[b] == added[b - before.len()]);
                } else {
                    assert(q[b] == before[b] && q[a] == added[a - before.len()]);
                }
            }
            assert forall|t: int| 0 <= t < q.len() implies has_issue(self.issues@, (#[trigger] q[t]).issue_id) by {
                if t < before.len() {
                    assert(q[t] == before[t]);
                } else {
                    assert(q[t] == added[t - before.len()]);
                }
            }
        }
    }

    /// The position of a task that may be attempted at `now`, if any:
    /// `WHERE retry_after IS NULL OR now() > retry_after LIMIT 1`.
    pub fn dequeue_task(&self, now: u64) -> (r: Option<usize>)
        ensures
            r is None <==> forall|j: int|
                0 <= j < self.task_rows().len() ==> !is_ready(#[trigger] self.task_rows()[j], now),
            r matches Some(i) ==> i < self.task_rows().len() && is_ready(self.task_rows()[i as int], now),
    {
        let mut i: usize = 0;
        while i < self.queue.len()
            invariant
                i <= self.queue@.len(),
                forall|j: int| 0 <= j < i ==> !is_ready(#[trigger] self.queue@[j], now),
            decreases self.queue@.len() - i,
        {
            let ready = match self.queue[i].retry_after {
                None => true,
                Some(t) => now > t,
            };
            if ready {
                assert(is_ready(self.task_rows()[i as int], now));
                return Some(i);
            }
            i = i + 1;
        }
        None
    }

    /// Deletes the task at position `i`.
    pub fn delete_task(&mut self, i: usize)
        requires
            old(self).wf(),
            i < old(self).task_rows().len(),
        ensures
            final(self).wf(),
            final(self).task_rows() == old(self).task_rows().remove(i as int),
            final(self).idempotency_rows() == old(self).idempotency_rows(),
            final(self).issue_rows() == old(self).issue_rows(),
            final(self).subscription_rows() == old(self).subscription_rows(),
    {
        let ghost before = self.queue@;
        self.queue.remove(i);
        proof {
            let q = self.queue@;
            assert(q =~= before.remove(i as int));
            assert forall|a: int, b: int|
                0 <= a < q.len() && 0 <= b < q.len() && a != b implies !task_matches(
                #[trigger] q[a],
                (#[trigger] q[b]).issue_id,
                q[b].subscriber_email@,
            ) by {
                let a0 = if a < i { a } else { a + 1 };
                let b0 = if b < i { b } else { b + 1 };
                assert(q[a] == before[a0] && q[b] == before[b0]);
            }
            assert forall|t: int| 0 <= t < q.len() implies has_issue(self.issues@, (#[trigger] q[t]).issue_id) by {
                let t0 = if t < i { t } else { t + 1 };
                assert(q[t] == before[t0]);
            }
        }
    }

    /// Counts one more failed attempt of the task at position `i` and holds it
    /// back for the square of its previous count of retries, in seconds.
    pub fn retry_task(&mut self, i: usize, now: u64)
        requires
            old(self).wf(),
            i < old(self).task_rows().len(),
            old(self).task_rows()[i as int].n_retries < u32::MAX,
        ensures
            final(self).wf(),
            final(self).task_rows() == old(self).task_rows().update(
                i as int,
                retried(old(self).task_rows()[i as int], now),
            ),
            final(self).idempotency_rows() == old(self).idempotency_rows(),
            final(self).issue_rows() == old(self).issue_rows(),
            final(self).subscription_rows() == old(self).subscription_rows(),
    {
        let ghost before = self.queue@;
        let t = self.queue.remove(i);
        let n = t.n_retries;
        let delay = backoff_delay(n);
        let row = DeliveryTask {
            issue_id: t.issue_id,
            subscriber_email: t.subscriber_email,
            n_retries: n + 1,
            retry_after: Some(now.saturating_add(delay)),
        };
        self.queue.insert(i, row);
        proof {
            let q = self.queue@;
            assert(q =~= before.update(i as int, retried(before[i as int], now)));
            assert forall|a: int, b: int|
                0 <= a < q.len() && 0 <= b < q.len() && a != b implies !task_matches(
                #[trigger] q[a],
                (#[trigger] q[b]).issue_id,
                q[b].subscriber_email@,
            ) by {
                assert(!task_matches(before[a], before[b].issue_id, before[b].subscriber_email@));
            }
            assert forall|t: int| 0 <= t < q.len() implies has_issue(self.issues@, (#[trigger] q[t]).issue_id) by {
                assert(has_issue(self.issues@, before[t].issue_id));
            }
        }
    }
}

} // verus!
