use crate::subscriber_email::{is_valid_email, SubscriberEmail};
use crate::subscriber_name::{is_valid_name, SubscriberName};
use crate::text::{push_char, push_str};
use rand::Rng;
use vstd::prelude::*;

verus! {

/// The subscribe form, as the HTTP layer hands it over.
pub struct FormData {
    pub email: String,
    pub name: String,
}

/// A subscriber whose name and email passed validation.
pub struct NewSubscriber {
    pub email: SubscriberEmail,
    pub name: SubscriberName,
}

impl NewSubscriber {
    /// Validates the name, then the email; the first refusal is the error.
    pub fn parse(form: FormData) -> (r: Result<NewSubscriber, String>)
        ensures
            !is_valid_name(form.name@) ==> (r matches Err(m) && m@ == form.name@
                + " is not a valid subscriber name."@),
            is_valid_name(form.name@) && !is_valid_email(form.email@) ==> (r matches Err(m) && m@
                == form.email@),
            is_valid_name(form.name@) && is_valid_email(form.email@) ==> (r matches Ok(s) && s.name@
                == form.name@ && s.email@ == form.email@),
    {
        let name = SubscriberName::parse(form.name)?;
        let email = SubscriberEmail::parse(form.email)?;
        Ok(NewSubscriber { email, name })
    }
}

/// Characters of a subscription token.
pub open spec fn is_ascii_alphanumeric(c: char) -> bool {
    ('a' <= c <= 'z') || ('A' <= c <= 'Z') || ('0' <= c <= '9')
}

/// Relies on rand's `Alphanumeric` distribution, sampled with the thread's
/// generator: a random ASCII letter or digit.
#[verifier::external_body]
fn random_alphanumeric() -> (c: char)
    ensures
        is_ascii_alphanumeric(c),
{
    char::from(rand::thread_rng().sample(rand::distributions::Alphanumeric))
}

/// Characters in a subscription token.
pub const SUBSCRIPTION_TOKEN_LENGTH: usize = 25;

/// A fresh random token of 25 ASCII letters and digits.
pub fn generate_subscription_token() -> (r: String)
    ensures
        r@.len() == SUBSCRIPTION_TOKEN_LENGTH,
        forall|i: int| 0 <= i < r@.len() ==> is_ascii_alphanumeric(#[trigger] r@[i]),
{
    let mut r = String::new();
    let mut i: usize = 0;
    while i < SUBSCRIPTION_TOKEN_LENGTH
        invariant
            i <= SUBSCRIPTION_TOKEN_LENGTH,
            r@.len() == i,
            forall|j: int| 0 <= j < r@.len() ==> is_ascii_alphanumeric(#[trigger] r@[j]),
        decreases SUBSCRIPTION_TOKEN_LENGTH - i,
    {
        let c = random_alphanumeric();
        push_char(&mut r, c);
        i = i + 1;
    }
    r
}

/// The link that confirms a subscription.
pub open spec fn confirmation_link_of(base_url: Seq<char>, token: Seq<char>) -> Seq<char> {
    base_url + "/subscriptions/confirm?subscription_token="@ + token
}

pub fn confirmation_link(base_url: &str, token: &str) -> (r: String)
    ensures
        r@ == confirmation_link_of(base_url@, token@),
{
    let mut r = String::from_str(base_url);
    push_str(&mut r, "/subscriptions/confirm?subscription_token=");
    push_str(&mut r, token);
    r
}

/// Subject of the confirmation email.
pub const CONFIRMATION_SUBJECT: &'static str = "Welcome!";

/// The HTML and plain-text bodies of the confirmation email for `link`.
pub fn confirmation_bodies(link: &str) -> (r: (String, String))
    ensures
        r.0@ == "Welcome to our newsletter!<br />Click <a href=\""@ + link@
            + "\">here</a> to confirm your subscription."@,
        r.1@ == "Welcome to our newsletter!\nVisit "@ + link@ + " to confirm your subscription."@,
{
    let mut html = String::from_str("Welcome to our newsletter!<br />Click <a href=\"");
    push_str(&mut html, link);
    push_str(&mut html, "\">here</a> to confirm your subscription.");
    let mut text = String::from_str("Welcome to our newsletter!\nVisit ");
    push_str(&mut text, link);
    push_str(&mut text, " to confirm your subscription.");
    (html, text)
}

} // verus!
