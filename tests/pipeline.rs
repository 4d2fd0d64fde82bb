use zero2prod::delivery::{finish_task, pause_millis, start_task, ExecutionOutcome, WorkerStep, MAX_RETRIES};
use zero2prod::key::{IdempotencyKey, KeyError};
use zero2prod::publish::{publish_newsletter, try_processing, finish_publish, FormData, NextAction, PublishError};
use zero2prod::response::SavedResponse;
use zero2prod::store::{Store, SubscriptionStatus};

const HOUR: u64 = 3600;

/// One gateway call, as the fake gateway records it.
#[derive(Debug, Clone, PartialEq)]
struct Call {
    to: String,
    subject: String,
    html: String,
    text: String,
}

fn form(key: &str) -> FormData {
    FormData {
        title: "t".to_string(),
        text_content: "b".to_string(),
        html_content: "<p>b</p>".to_string(),
        idempotency_key: key.to_string(),
    }
}

fn store_with(subscribers: &[(&str, SubscriptionStatus)]) -> Store {
    let mut store = Store::new();
    for (email, status) in subscribers {
        assert!(store.add_subscription(email.to_string(), *status));
    }
    store
}

/// Runs one worker pass; `answer` decides whether the gateway accepts a call.
fn pass(store: &mut Store, now: u64, calls: &mut Vec<Call>, answer: bool) -> ExecutionOutcome {
    match start_task(store, now) {
        WorkerStep::Finished(outcome) => outcome,
        WorkerStep::Deliver(d) => {
            calls.push(Call {
                to: d.recipient.to_string(),
                subject: d.subject.clone(),
                html: d.html_content.clone(),
                text: d.text_content.clone(),
            });
            finish_task(store, &d, answer, now)
        }
    }
}

/// Runs passes, always answering `answer`, until the queue has nothing ready.
fn drain(store: &mut Store, now: u64, calls: &mut Vec<Call>, answer: bool) {
    while pass(store, now, calls, answer) != ExecutionOutcome::EmptyQueue {}
}

fn is_redirect_to_newsletters(r: &SavedResponse) {
    assert_eq!(r.status_code, 303);
    assert_eq!(r.headers.len(), 1);
    assert_eq!(r.headers[0].name, "location");
    assert_eq!(r.headers[0].value, b"/admin/newsletters".to_vec());
    assert!(r.body.is_empty());
}

fn same_response(a: &SavedResponse, b: &SavedResponse) -> bool {
    a.status_code == b.status_code
        && a.body == b.body
        && a.headers.len() == b.headers.len()
        && a.headers.iter().zip(b.headers.iter()).all(|(x, y)| x.name == y.name && x.value == y.value)
}

#[test]
fn happy_path_delivers_one_email() {
    let mut store = store_with(&[("a@x.io", SubscriptionStatus::Confirmed)]);
    let r = publish_newsletter(&mut store, 1, form("k1"), 1000).ok().unwrap();
    is_redirect_to_newsletters(&r);
    assert_eq!(store.tasks().len(), 1);
    let mut calls = vec![];
    drain(&mut store, 1000, &mut calls, true);
    assert_eq!(
        calls,
        vec![Call {
            to: "a@x.io".to_string(),
            subject: "t".to_string(),
            html: "<p>b</p>".to_string(),
            text: "b".to_string(),
        }]
    );
    assert!(store.tasks().is_empty());
}

#[test]
fn newsletter_creation_is_idempotent() {
    let mut store = store_with(&[("a@x.io", SubscriptionStatus::Confirmed)]);
    let first = publish_newsletter(&mut store, 1, form("k1"), 1000).ok().unwrap();
    let mut calls = vec![];
    drain(&mut store, 1000, &mut calls, true);
    let second = publish_newsletter(&mut store, 1, form("k1"), 1005).ok().unwrap();
    assert!(same_response(&first, &second));
    is_redirect_to_newsletters(&second);
    drain(&mut store, 1005, &mut calls, true);
    assert_eq!(calls.len(), 1);
    assert_eq!(store.issues().len(), 1);
    assert_eq!(store.idempotency_records().len(), 1);
}

#[test]
fn same_key_of_another_user_publishes_again() {
    let mut store = store_with(&[("a@x.io", SubscriptionStatus::Confirmed)]);
    publish_newsletter(&mut store, 1, form("k1"), 1000).ok().unwrap();
    publish_newsletter(&mut store, 2, form("k1"), 1000).ok().unwrap();
    assert_eq!(store.issues().len(), 2);
    assert_eq!(store.tasks().len(), 2);
}

#[test]
fn concurrent_form_submission_is_handled_gracefully() {
    let mut store = store_with(&[
        ("a@x.io", SubscriptionStatus::Confirmed),
        ("b@x.io", SubscriptionStatus::Confirmed),
    ]);
    let key = || IdempotencyKey::parse("k2".to_string()).ok().unwrap();
    let first = try_processing(&mut store, key(), 1, 1000);
    let second = try_processing(&mut store, key(), 1, 1000);
    assert!(matches!(second, NextAction::AwaitCompletion));
    let tx = match first {
        NextAction::StartProcessing(tx) => tx,
        _ => panic!("the first submission must own the key"),
    };
    let published = finish_publish(&mut store, tx, form("k2"), 77, 1000).ok().unwrap();
    let replayed = match try_processing(&mut store, key(), 1, 1001) {
        NextAction::ReturnSavedResponse(r) => r,
        _ => panic!("the waiting submission must get the saved response"),
    };
    assert!(same_response(&published, &replayed));
    assert_eq!(store.tasks().len(), 2);
    let mut calls = vec![];
    drain(&mut store, 1001, &mut calls, true);
    let mut recipients: Vec<String> = calls.iter().map(|c| c.to.clone()).collect();
    recipients.sort();
    assert_eq!(recipients, vec!["a@x.io".to_string(), "b@x.io".to_string()]);
}

#[test]
fn in_flight_key_is_reported() {
    let mut store = store_with(&[]);
    let key = IdempotencyKey::parse("k3".to_string()).ok().unwrap();
    let _owner = try_processing(&mut store, key, 1, 1000);
    assert_eq!(publish_newsletter(&mut store, 1, form("k3"), 1000).err(), Some(PublishError::InFlight));
}

#[test]
fn taken_issue_id_leaves_no_trace() {
    let mut store = store_with(&[("a@x.io", SubscriptionStatus::Confirmed)]);
    let key = || IdempotencyKey::parse("k4".to_string()).ok().unwrap();
    let tx = match try_processing(&mut store, key(), 1, 1000) {
        NextAction::StartProcessing(tx) => tx,
        _ => panic!("fresh key"),
    };
    finish_publish(&mut store, tx, form("k4"), 5, 1000).ok().unwrap();
    let other = || IdempotencyKey::parse("k5".to_string()).ok().unwrap();
    let tx = match try_processing(&mut store, other(), 1, 1000) {
        NextAction::StartProcessing(tx) => tx,
        _ => panic!("fresh key"),
    };
    assert_eq!(finish_publish(&mut store, tx, form("k5"), 5, 1000).err(), Some(PublishError::IssueIdTaken));
    assert_eq!(store.idempotency_records().len(), 1);
    assert_eq!(store.issues().len(), 1);
    assert_eq!(store.tasks().len(), 1);
    assert!(matches!(try_processing(&mut store, other(), 1, 1001), NextAction::StartProcessing(_)));
}

#[test]
fn invalid_keys_are_rejected() {
    let mut store = store_with(&[("a@x.io", SubscriptionStatus::Confirmed)]);
    assert_eq!(
        publish_newsletter(&mut store, 1, form(""), 1000).err(),
        Some(PublishError::InvalidKey(KeyError::Empty))
    );
    assert_eq!(
        publish_newsletter(&mut store, 1, form(&"k".repeat(50)), 1000).err(),
        Some(PublishError::InvalidKey(KeyError::TooLong))
    );
    assert!(publish_newsletter(&mut store, 1, form(&"k".repeat(49)), 1000).is_ok());
    assert!(store.idempotency_records().len() == 1);
}

#[test]
fn key_length_is_counted_in_characters() {
    assert!(IdempotencyKey::parse("é".repeat(49)).is_ok());
    assert_eq!(IdempotencyKey::parse("é".repeat(50)).err(), Some(KeyError::TooLong));
    assert_eq!(IdempotencyKey::parse(String::new()).err(), Some(KeyError::Empty));
    assert_eq!(IdempotencyKey::parse("abc".to_string()).ok().unwrap().as_str(), "abc");
}

#[test]
fn news_letters_are_not_delivered_to_unconfirmed_subscribers() {
    let mut store = store_with(&[("p@x.io", SubscriptionStatus::PendingConfirmation)]);
    publish_newsletter(&mut store, 1, form("k1"), 1000).ok().unwrap();
    let mut calls = vec![];
    drain(&mut store, 1000, &mut calls, true);
    assert!(calls.is_empty());
}

#[test]
fn newsletters_are_delivered_to_confirmed_subscribers() {
    let mut store = store_with(&[
        ("p@x.io", SubscriptionStatus::PendingConfirmation),
        ("c@x.io", SubscriptionStatus::Confirmed),
    ]);
    publish_newsletter(&mut store, 1, form("k1"), 1000).ok().unwrap();
    let mut calls = vec![];
    drain(&mut store, 1000, &mut calls, true);
    assert_eq!(calls.len(), 1);
    assert_eq!(calls[0].to, "c@x.io");
}

#[test]
fn transient_errors_get_retried() {
    let mut store = store_with(&[("a@x.io", SubscriptionStatus::Confirmed)]);
    publish_newsletter(&mut store, 1, form("k1"), 1000).ok().unwrap();
    let mut calls = vec![];
    assert_eq!(pass(&mut store, 1000, &mut calls, false), ExecutionOutcome::TaskRetryScheduled);
    assert_eq!(store.tasks()[0].n_retries, 1);
    // The first retry is held back for 0 seconds: it is ready one second later.
    assert_eq!(store.tasks()[0].retry_after, Some(1000));
    assert_eq!(pass(&mut store, 1000, &mut calls, true), ExecutionOutcome::EmptyQueue);
    assert_eq!(pass(&mut store, 1001, &mut calls, true), ExecutionOutcome::TaskCompleted);
    assert_eq!(calls.len(), 2);
    assert!(store.tasks().is_empty());
}

#[test]
fn retry_cap_gives_up_after_four_attempts() {
    let mut store = store_with(&[("a@x.io", SubscriptionStatus::Confirmed)]);
    publish_newsletter(&mut store, 1, form("k1"), 1000).ok().unwrap();
    let mut calls = vec![];
    let mut now = 1000;
    let mut holds = vec![];
    loop {
        let outcome = pass(&mut store, now, &mut calls, false);
        if outcome == ExecutionOutcome::TaskRetryScheduled {
            holds.push(store.tasks()[0].retry_after.unwrap() - now);
        }
        if store.tasks().is_empty() {
            break;
        }
        now += 60;
    }
    assert_eq!(calls.len(), (MAX_RETRIES + 1) as usize);
    assert_eq!(holds, vec![0, 1, 4, 9]);
}

#[test]
fn old_idempotency_key_is_cleaned_up() {
    let now = 100 * HOUR;
    let mut store = store_with(&[]);
    for (key, created_at) in [("old1", now - 49 * HOUR), ("old2", now - 49 * HOUR), ("new", now)] {
        let k = IdempotencyKey::parse(key.to_string()).ok().unwrap();
        assert!(matches!(try_processing(&mut store, k, 1, created_at), NextAction::StartProcessing(_)));
    }
    assert_eq!(store.delete_expired_idempotency_key(now, 48), 2);
    assert_eq!(store.idempotency_records().len(), 1);
    assert_eq!(store.idempotency_records()[0].key, "new");
}

#[test]
fn gc_keeps_rows_exactly_at_the_boundary() {
    let now = 100 * HOUR;
    let mut store = store_with(&[]);
    for (key, created_at) in [("edge", now - 48 * HOUR), ("past", now - 48 * HOUR - 1)] {
        let k = IdempotencyKey::parse(key.to_string()).ok().unwrap();
        try_processing(&mut store, k, 1, created_at);
    }
    assert_eq!(store.delete_expired_idempotency_key(now, 48), 1);
    assert_eq!(store.idempotency_records()[0].key, "edge");
    // Nothing has expired yet when fewer than `hours` hours have passed at all.
    assert_eq!(store.delete_expired_idempotency_key(HOUR, 48), 0);
}

#[test]
fn invalid_stored_email_is_skipped_and_kept() {
    let mut store = store_with(&[("not-an-email", SubscriptionStatus::Confirmed)]);
    publish_newsletter(&mut store, 1, form("k1"), 1000).ok().unwrap();
    let mut calls = vec![];
    assert_eq!(pass(&mut store, 1000, &mut calls, true), ExecutionOutcome::TaskSkipped);
    assert_eq!(store.tasks().len(), 1);
    assert!(calls.is_empty());
}

#[test]
fn worker_pauses() {
    assert_eq!(pause_millis(ExecutionOutcome::TaskCompleted), 300);
    assert_eq!(pause_millis(ExecutionOutcome::TaskRetryScheduled), 300);
    assert_eq!(pause_millis(ExecutionOutcome::TaskSkipped), 0);
    assert_eq!(pause_millis(ExecutionOutcome::EmptyQueue), 10_000);
}

#[test]
fn duplicate_subscription_is_refused() {
    let mut store = store_with(&[("a@x.io", SubscriptionStatus::Confirmed)]);
    assert!(!store.add_subscription("a@x.io".to_string(), SubscriptionStatus::PendingConfirmation));
    assert_eq!(store.subscriptions().len(), 1);
}
