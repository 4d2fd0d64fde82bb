use zero2prod::configuration::{push_decimal, ApplicationSettings, Environment};
use zero2prod::email::{email_url, SendEmailRequest};
use zero2prod::errors::{error_chain_fmt, report_exit, TaskExit};
use zero2prod::subscriber_email::SubscriberEmail;
use zero2prod::subscriptions::{confirmation_bodies, confirmation_link, generate_subscription_token};

#[test]
fn address_joins_host_and_port() {
    let s = ApplicationSettings { host: "127.0.0.1".to_string(), port: 8000, base_url: String::new() };
    assert_eq!(s.addr(), "127.0.0.1:8000");
    let s = ApplicationSettings { host: "h".to_string(), port: 0, base_url: String::new() };
    assert_eq!(s.addr(), "h:0");
    let mut t = String::new();
    push_decimal(&mut t, 65535);
    assert_eq!(t, "65535");
}

#[test]
fn environments() {
    assert_eq!(Environment::Local.as_str(), "local");
    assert_eq!(Environment::Production.as_str(), "production");
    assert_eq!(Environment::parse("local".to_string()).ok(), Some(Environment::Local));
    assert_eq!(Environment::parse("production".to_string()).ok(), Some(Environment::Production));
    assert_eq!(
        Environment::parse("staging".to_string()).err().unwrap(),
        "staging is not valid env variable, \n Help: Use either `local` or `production`"
    );
}

#[test]
fn error_chain_lists_causes() {
    let chain = error_chain_fmt(&vec!["outer".to_string(), "middle".to_string(), "root".to_string()]);
    assert_eq!(chain, "outer\n\nCaused by:\n\tmiddle\nCaused by:\n\troot\n");
    assert_eq!(error_chain_fmt(&vec!["alone".to_string()]), "alone\n\n");
}

#[test]
fn exits_are_reported() {
    assert_eq!(report_exit("API", TaskExit::Completed), (false, "API task completed successfully.".to_string()));
    assert_eq!(report_exit("API", TaskExit::Failed), (true, "API task failed".to_string()));
    assert_eq!(report_exit("API", TaskExit::Aborted), (true, "API task failed to complete".to_string()));
}

#[test]
fn gateway_request() {
    assert_eq!(email_url("http://localhost:1234"), "http://localhost:1234/email");
    let from = SubscriberEmail::parse("from@x.io".to_string()).unwrap();
    let to = SubscriberEmail::parse("to@x.io".to_string()).unwrap();
    let r = SendEmailRequest::new(&from, &to, "s", "<p>h</p>", "t");
    assert_eq!((r.from.as_str(), r.to.as_str()), ("from@x.io", "to@x.io"));
    assert_eq!((r.subject.as_str(), r.html_body.as_str(), r.text_body.as_str()), ("s", "<p>h</p>", "t"));
}

#[test]
fn subscription_tokens_are_alphanumeric() {
    let a = generate_subscription_token();
    let b = generate_subscription_token();
    assert_eq!(a.chars().count(), 25);
    assert!(a.chars().all(|c| c.is_ascii_alphanumeric()));
    assert_ne!(a, b);
}

#[test]
fn confirmation_email_holds_the_link() {
    let link = confirmation_link("http://127.0.0.1", "abc");
    assert_eq!(link, "http://127.0.0.1/subscriptions/confirm?subscription_token=abc");
    let (html, text) = confirmation_bodies(&link);
    assert!(html.contains("href=\"http://127.0.0.1/subscriptions/confirm?subscription_token=abc\""));
    assert_eq!(text, "Welcome to our newsletter!\nVisit http://127.0.0.1/subscriptions/confirm?subscription_token=abc to confirm your subscription.");
}
