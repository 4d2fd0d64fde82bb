use crate::key::{is_valid_key, IdempotencyKey, KeyError};
use crate::response::{ResponseView, SavedResponse, SEE_OTHER};
use crate::store::{
    confirmed_tasks, has_idem, has_issue, idem_matches, idem_unique, lemma_confirmed_tasks,
    task_matches, IdempotencyRecord, NewsletterIssue, Store, SubscriptionStatus,
};
use vstd::prelude::*;
use vstd::string::*;

verus! {

/// The publish form, as the HTTP layer hands it over.
pub struct FormData {
    pub title: String,
    pub text_content: String,
    pub html_content: String,
    pub idempotency_key: String,
}

/// Why a submission was not published.
#[derive(Debug, Clone, Copy, PartialEq, Eq, Structural)]
pub enum PublishError {
    /// The idempotency key was refused; the caller answers 400.
    InvalidKey(KeyError),
    /// A submission with the same key is still being processed; the store
    /// makes the caller wait for it.
    InFlight,
    /// The freshly drawn issue id was taken; nothing was kept.
    IssueIdTaken,
    /// The idempotency row of the submission was gone before its response
    /// could be saved.
    MissingRecord,
}

/// The right to finish the submission that created an in-flight idempotency
/// row. It is used up by finishing.
pub struct PublishTransaction {
    user_id: u128,
    key: IdempotencyKey,
}

impl PublishTransaction {
    pub closed spec fn user_id(&self) -> u128 {
        self.user_id
    }

    pub closed spec fn key(&self) -> Seq<char> {
        self.key@
    }
}

/// What a submission does after the idempotency check.
pub enum NextAction {
    /// This submission owns the key: go on and publish.
    StartProcessing(PublishTransaction),
    /// The key was used before: send this saved response again.
    ReturnSavedResponse(SavedResponse),
    /// Another submission owns the key and has not finished.
    AwaitCompletion,
}

/// Position of the idempotency row of `(user_id, key)`.
pub open spec fn idem_index(rows: Seq<IdempotencyRecord>, user_id: u128, key: Seq<char>) -> int {
    choose|i: int| 0 <= i < rows.len() && idem_matches(#[trigger] rows[i], user_id, key)
}

/// The idempotency row of `(user_id, key)`, where there is one.
pub open spec fn idem_row(rows: Seq<IdempotencyRecord>, user_id: u128, key: Seq<char>) -> IdempotencyRecord {
    rows[idem_index(rows, user_id, key)]
}

/// The four tables of `a` and `b` hold the same rows.
pub open spec fn same_tables(a: Store, b: Store) -> bool {
    &&& a.idempotency_rows() == b.idempotency_rows()
    &&& a.issue_rows() == b.issue_rows()
    &&& a.task_rows() == b.task_rows()
    &&& a.subscription_rows() == b.subscription_rows()
}

/// The response that a successful publish sends: a 303 to the newsletters page.
pub open spec fn is_published_response(r: ResponseView) -> bool {
    &&& r.status_code == SEE_OTHER
    &&& r.headers.len() == 1
    &&& r.headers[0].0 == "location"@
    &&& r.headers[0].1 == "/admin/newsletters".spec_bytes()
    &&& r.body.len() == 0
}

/// What the idempotency check does, from store `s0` to store `s1`.
pub open spec fn try_processing_post(
    s0: Store,
    user_id: u128,
    key: Seq<char>,
    now: u64,
    r: NextAction,
    s1: Store,
) -> bool {
    if !has_idem(s0.idempotency_rows(), user_id, key) {
        &&& r matches NextAction::StartProcessing(tx) && tx.user_id() == user_id && tx.key() == key
        &&& s1.idempotency_rows().drop_last() == s0.idempotency_rows()
        &&& s1.idempotency_rows().len() == s0.idempotency_rows().len() + 1
        &&& idem_matches(s1.idempotency_rows().last(), user_id, key)
        &&& s1.idempotency_rows().last().created_at == now
        &&& s1.idempotency_rows().last().response is None
        &&& s1.issue_rows() == s0.issue_rows()
        &&& s1.task_rows() == s0.task_rows()
        &&& s1.subscription_rows() == s0.subscription_rows()
    } else {
        &&& same_tables(s0, s1)
        &&& match idem_row(s0.idempotency_rows(), user_id, key).response {
            Some(saved) => r matches NextAction::ReturnSavedResponse(resp) && resp@ == saved@,
            None => r is AwaitCompletion,
        }
    }
}

/// The issue row that a publish writes.
pub open spec fn issue_of(issue_id: u128, form: FormData, now: u64) -> NewsletterIssue {
    NewsletterIssue {
        issue_id,
        title: form.title,
        text_content: form.text_content,
        html_content: form.html_content,
        published_at: now,
    }
}

/// What finishing a submission does, from store `s0` to store `s1`: record
/// the issue, queue its tasks and complete the idempotency row, all at once,
/// or nothing at all.
pub open spec fn finish_post(
    s0: Store,
    user_id: u128,
    key: Seq<char>,
    issue: NewsletterIssue,
    r: Result<SavedResponse, PublishError>,
    s1: Store,
) -> bool {
    let rows0 = s0.idempotency_rows();
    if !has_idem(rows0, user_id, key) || idem_row(rows0, user_id, key).response is Some {
        r == Err::<SavedResponse, PublishError>(PublishError::MissingRecord) && same_tables(s0, s1)
    } else if has_issue(s0.issue_rows(), issue.issue_id) {
        &&& r == Err::<SavedResponse, PublishError>(PublishError::IssueIdTaken)
        &&& !has_idem(s1.idempotency_rows(), user_id, key)
        &&& forall|u: u128, k: Seq<char>|
            !(u == user_id && k == key) ==> (has_idem(s1.idempotency_rows(), u, k) == has_idem(
                rows0,
                u,
                k,
            ))
        &&& s1.issue_rows() == s0.issue_rows()
        &&& s1.task_rows() == s0.task_rows()
        &&& s1.subscription_rows() == s0.subscription_rows()
    } else {
        &&& r matches Ok(resp) && is_published_response(resp@)
        &&& s1.issue_rows() == s0.issue_rows().push(issue)
        &&& s1.task_rows() == s0.task_rows() + confirmed_tasks(s0.subscription_rows(), issue.issue_id)
        &&& s1.subscription_rows() == s0.subscription_rows()
        &&& s1.idempotency_rows().len() == rows0.len()
        &&& forall|i: int|
            0 <= i < rows0.len() && i != idem_index(rows0, user_id, key) ==> s1.idempotency_rows()[i]
                == #[trigger] rows0[i]
        &&& {
            let row = s1.idempotency_rows()[idem_index(rows0, user_id, key)];
            &&& row.user_id == user_id
            &&& row.key == idem_row(rows0, user_id, key).key
            &&& row.created_at == idem_row(rows0, user_id, key).created_at
            &&& row.response matches Some(saved) && r matches Ok(resp) && saved@ == resp@
        }
    }
}

/// In a store whose keys are unique, the row found for a key is the row.
proof fn lemma_idem_index(rows: Seq<IdempotencyRecord>, user_id: u128, key: Seq<char>, i: int)
    requires
        idem_unique(rows),
        0 <= i < rows.len(),
        idem_matches(rows[i], user_id, key),
    ensures
        idem_index(rows, user_id, key) == i,
{
    let j = idem_index(rows, user_id, key);
    if j != i {
        assert(!idem_matches(rows[j], rows[i].user_id, rows[i].key@));
    }
}

/// The idempotency check: claims `key` for this submission, or reports the
/// response that an earlier submission saved, or that one is in flight.
pub fn try_processing(store: &mut Store, key: IdempotencyKey, user_id: u128, now: u64) -> (r: NextAction)
    requires
        old(store).wf(),
    ensures
        final(store).wf(),
        try_processing_post(*old(store), user_id, key@, now, r, *final(store)),
{
    let ghost k = key@;
    let key_text = key.into_string();
    if store.try_insert_idempotency(user_id, &key_text, now) {
        let key = IdempotencyKey::from_valid(key_text);
        NextAction::StartProcessing(PublishTransaction { user_id, key })
    } else {
        let i = store.find_idempotency(user_id, &key_text).unwrap();
        proof {
            lemma_idem_index(store.idempotency_rows(), user_id, k, i as int);
        }
        match &store.idempotency_records()[i].response {
            Some(saved) => NextAction::ReturnSavedResponse(saved.duplicate()),
            None => NextAction::AwaitCompletion,
        }
    }
}

/// Relies on `uuid::Uuid::new_v4`: a random version 4 identifier, as an
/// integer. Nothing is promised of its value.
#[verifier::external_body]
fn new_issue_id() -> u128 {
    uuid::Uuid::new_v4().as_u128()
}

/// Records the issue, queues one task per confirmed subscriber and saves the
/// 303 response under the transaction's key, or leaves no trace of the
/// submission at all.
pub fn finish_publish(
    store: &mut Store,
    tx: PublishTransaction,
    form: FormData,
    issue_id: u128,
    now: u64,
) -> (r: Result<SavedResponse, PublishError>)
    requires
        old(store).wf(),
    ensures
        final(store).wf(),
        finish_post(*old(store), tx.user_id(), tx.key(), issue_of(issue_id, form, now), r, *final(store)),
{
    let ghost s0 = *store;
    let ghost issue_spec = issue_of(issue_id, form, now);
    let user_id = tx.user_id;
    let key_text = tx.key.into_string();
    let found = store.find_idempotency(user_id, &key_text);
    let i = match found {
        None => {
            return Err(PublishError::MissingRecord);
        },
        Some(i) => i,
    };
    proof {
        lemma_idem_index(store.idempotency_rows(), user_id, key_text@, i as int);
    }
    if store.idempotency_records()[i].response.is_some() {
        return Err(PublishError::MissingRecord);
    }
    let issue = NewsletterIssue {
        issue_id,
        title: form.title,
        text_content: form.text_content,
        html_content: form.html_content,
        published_at: now,
    };
    if !store.insert_issue(issue) {
        store.remove_idempotency(user_id, &key_text);
        return Err(PublishError::IssueIdTaken);
    }
    assert(store.issue_rows()[store.issue_rows().len() - 1].issue_id == issue_id);
    assert forall|t: int| 0 <= t < store.task_rows().len() implies (#[trigger] store.task_rows()[t]).issue_id
        != issue_id by {
        assert(has_issue(s0.issue_rows(), s0.task_rows()[t].issue_id));
    }
    store.enqueue_delivery_tasks(issue_id);
    let response = SavedResponse::see_other("/admin/newsletters");
    let sent = response.duplicate();
    let ghost s2 = *store;
    let saved = store.save_response(user_id, &key_text, response);
    proof {
        let rows = s2.idempotency_rows();
        let j = choose|j: int|
            0 <= j < rows.len() && idem_matches(#[trigger] rows[j], user_id, key_text@)
                && store.idempotency_rows() == rows.update(
                j,
                IdempotencyRecord {
                    user_id: rows[j].user_id,
                    key: rows[j].key,
                    created_at: rows[j].created_at,
                    response: Some(response),
                },
            );
        lemma_idem_index(rows, user_id, key_text@, j);
    }
    Ok(sent)
}

/// The error that a refused key gives.
pub open spec fn key_error(key: Seq<char>) -> KeyError {
    if key.len() == 0 {
        KeyError::Empty
    } else {
        KeyError::TooLong
    }
}

/// A submission that owns its key has claimed the key's row, in flight,
/// from `s0` to `s1`.
pub open spec fn claimed(s0: Store, user_id: u128, key: Seq<char>, now: u64, s1: Store) -> bool {
    &&& s1.idempotency_rows().drop_last() == s0.idempotency_rows()
    &&& s1.idempotency_rows().len() == s0.idempotency_rows().len() + 1
    &&& idem_matches(s1.idempotency_rows().last(), user_id, key)
    &&& s1.idempotency_rows().last().created_at == now
    &&& s1.idempotency_rows().last().response is None
    &&& s1.issue_rows() == s0.issue_rows()
    &&& s1.task_rows() == s0.task_rows()
    &&& s1.subscription_rows() == s0.subscription_rows()
}

/// What a whole submission does, from store `s0` to store `s1`.
pub open spec fn publish_post(
    s0: Store,
    user_id: u128,
    form: FormData,
    now: u64,
    r: Result<SavedResponse, PublishError>,
    s1: Store,
) -> bool {
    let key = form.idempotency_key@;
    if !is_valid_key(key) {
        r == Err::<SavedResponse, PublishError>(PublishError::InvalidKey(key_error(key))) && same_tables(
            s0,
            s1,
        )
    } else if has_idem(s0.idempotency_rows(), user_id, key) {
        &&& same_tables(s0, s1)
        &&& match idem_row(s0.idempotency_rows(), user_id, key).response {
            Some(saved) => r matches Ok(resp) && resp@ == saved@,
            None => r == Err::<SavedResponse, PublishError>(PublishError::InFlight),
        }
    } else {
        exists|issue_id: u128, mid: Store|
            #![trigger claimed(s0, user_id, key, now, mid), issue_of(issue_id, form, now)]
            mid.wf() && claimed(s0, user_id, key, now, mid) && finish_post(
                mid,
                user_id,
                key,
                issue_of(issue_id, form, now),
                r,
                s1,
            )
    }
}

/// Publishes a newsletter issue for the author `user_id`: validates the key,
/// replays the saved response of a key used before, and otherwise records
/// the issue under a fresh id, queues one delivery task per confirmed
/// subscriber and saves the 303 response, in one step.
pub fn publish_newsletter(store: &mut Store, user_id: u128, form: FormData, now: u64) -> (r: Result<
    SavedResponse,
    PublishError,
>)
    requires
        old(store).wf(),
    ensures
        final(store).wf(),
        publish_post(*old(store), user_id, form, now, r, *final(store)),
{
    let ghost s0 = *store;
    let ghost f = form;
    let FormData { title, text_content, html_content, idempotency_key } = form;
    let key = match IdempotencyKey::parse(idempotency_key) {
        Ok(k) => k,
        Err(e) => {
            return Err(PublishError::InvalidKey(e));
        },
    };
    match try_processing(store, key, user_id, now) {
        NextAction::ReturnSavedResponse(resp) => Ok(resp),
        NextAction::AwaitCompletion => Err(PublishError::InFlight),
        NextAction::StartProcessing(tx) => {
            let ghost mid = *store;
            let issue_id = new_issue_id();
            let rest = FormData { title, text_content, html_content, idempotency_key: String::new() };
            let r = finish_publish(store, tx, rest, issue_id, now);
            assert(issue_of(issue_id, rest, now) == issue_of(issue_id, f, now));
            assert(claimed(s0, user_id, f.idempotency_key@, now, mid));
            r
        },
    }
}

/// Submitting twice under one key: when the first submission published,
/// the second one, whatever its form holds, gets the first one's response
/// back byte for byte and changes nothing, so it queues nothing for the
/// gateway.
pub proof fn lemma_publish_idempotent(
    s0: Store,
    s1: Store,
    s2: Store,
    user_id: u128,
    first: FormData,
    second: FormData,
    now1: u64,
    now2: u64,
    r1: Result<SavedResponse, PublishError>,
    r2: Result<SavedResponse, PublishError>,
)
    requires
        s0.wf(),
        s1.wf(),
        publish_post(s0, user_id, first, now1, r1, s1),
        publish_post(s1, user_id, second, now2, r2, s2),
        second.idempotency_key@ == first.idempotency_key@,
        r1 is Ok,
    ensures
        r2 matches Ok(b) && r1 matches Ok(a) && b@ == a@,
        same_tables(s1, s2),
{
    let key = first.idempotency_key@;
    if !has_idem(s0.idempotency_rows(), user_id, key) {
        let (issue_id, mid) = choose|issue_id: u128, mid: Store|
            #![trigger claimed(s0, user_id, key, now1, mid), issue_of(issue_id, first, now1)]
            mid.wf() && claimed(s0, user_id, key, now1, mid) && finish_post(
                mid,
                user_id,
                key,
                issue_of(issue_id, first, now1),
                r1,
                s1,
            );
        let rows0 = mid.idempotency_rows();
        assert(idem_matches(rows0[rows0.len() - 1], user_id, key));
        let i = idem_index(rows0, user_id, key);
        assert(idem_matches(s1.idempotency_rows()[i], user_id, key));
        lemma_idem_index(s1.idempotency_rows(), user_id, key, i);
    }
}

/// Two overlapping submissions of one key: at most one of them claims the
/// key and goes on to queue tasks; when the first has claimed it, the
/// second is made to wait and changes nothing.
pub proof fn lemma_one_claim_per_key(
    s0: Store,
    s1: Store,
    s2: Store,
    user_id: u128,
    key: Seq<char>,
    now_a: u64,
    now_b: u64,
    a: NextAction,
    b: NextAction,
)
    requires
        s0.wf(),
        s1.wf(),
        try_processing_post(s0, user_id, key, now_a, a, s1),
        try_processing_post(s1, user_id, key, now_b, b, s2),
    ensures
        !(a is StartProcessing && b is StartProcessing),
        a is StartProcessing ==> b is AwaitCompletion && same_tables(s1, s2),
{
    if a is StartProcessing && !has_idem(s0.idempotency_rows(), user_id, key) {
        let rows = s1.idempotency_rows();
        assert(idem_matches(rows[rows.len() - 1], user_id, key));
        lemma_idem_index(rows, user_id, key, rows.len() - 1);
    }
}

/// The submission that waited on a key, asking again after the owner of the
/// key published, is handed the owner's response byte for byte and changes
/// nothing: the owner's tasks are the only ones queued.
pub proof fn lemma_waiting_submission_replays(
    s2: Store,
    s3: Store,
    s4: Store,
    user_id: u128,
    key: Seq<char>,
    issue: NewsletterIssue,
    done: Result<SavedResponse, PublishError>,
    now: u64,
    c: NextAction,
)
    requires
        s2.wf(),
        s3.wf(),
        finish_post(s2, user_id, key, issue, done, s3),
        done is Ok,
        try_processing_post(s3, user_id, key, now, c, s4),
    ensures
        c matches NextAction::ReturnSavedResponse(resp) && done matches Ok(x) && resp@ == x@,
        same_tables(s3, s4),
{
    let rows = s2.idempotency_rows();
    let i = idem_index(rows, user_id, key);
    assert(idem_matches(s3.idempotency_rows()[i], user_id, key));
    lemma_idem_index(s3.idempotency_rows(), user_id, key, i);
}

/// Publishing under a new key queues, for the new issue, one fresh task
/// (never attempted, ready at once) for every subscriber who was confirmed
/// at that moment.
pub proof fn lemma_confirmed_subscribers_queued(
    s0: Store,
    s1: Store,
    user_id: u128,
    form: FormData,
    now: u64,
    r: Result<SavedResponse, PublishError>,
)
    requires
        s0.wf(),
        publish_post(s0, user_id, form, now, r, s1),
        r is Ok,
        !has_idem(s0.idempotency_rows(), user_id, form.idempotency_key@),
    ensures
        exists|issue_id: u128|
            #![trigger has_issue(s1.issue_rows(), issue_id)]
            has_issue(s1.issue_rows(), issue_id) && !has_issue(s0.issue_rows(), issue_id) && forall|j: int|
                0 <= j < s0.subscription_rows().len() && (#[trigger] s0.subscription_rows()[j]).status
                    == SubscriptionStatus::Confirmed ==> exists|t: int|
                    0 <= t < s1.task_rows().len() && task_matches(
                        #[trigger] s1.task_rows()[t],
                        issue_id,
                        s0.subscription_rows()[j].email@,
                    ) && s1.task_rows()[t].n_retries == 0 && s1.task_rows()[t].retry_after is None,
{
    let key = form.idempotency_key@;
    let (issue_id, mid) = choose|issue_id: u128, mid: Store|
        #![trigger claimed(s0, user_id, key, now, mid), issue_of(issue_id, form, now)]
        mid.wf() && claimed(s0, user_id, key, now, mid) && finish_post(
            mid,
            user_id,
            key,
            issue_of(issue_id, form, now),
            r,
            s1,
        );
    let rows0 = mid.idempotency_rows();
    assert(idem_matches(rows0[rows0.len() - 1], user_id, key));
    let subs = s0.subscription_rows();
    let ct = confirmed_tasks(subs, issue_id);
    let before = mid.task_rows();
    lemma_confirmed_tasks(subs, issue_id);
    assert(s1.issue_rows()[s1.issue_rows().len() - 1].issue_id == issue_id);
    assert(has_issue(s1.issue_rows(), issue_id));
    assert(!has_issue(s0.issue_rows(), issue_id));
    assert forall|j: int|
        0 <= j < subs.len() && (#[trigger] subs[j]).status == SubscriptionStatus::Confirmed implies exists|t: int|
        0 <= t < s1.task_rows().len() && task_matches(#[trigger] s1.task_rows()[t], issue_id, subs[j].email@)
            && s1.task_rows()[t].n_retries == 0 && s1.task_rows()[t].retry_after is None by {
        let k = choose|k: int| 0 <= k < ct.len() && task_matches(#[trigger] ct[k], issue_id, subs[j].email@);
        assert(s1.task_rows()[before.len() + k] == ct[k]);
    }
}

} // verus!
