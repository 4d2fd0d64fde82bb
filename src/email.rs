use crate::subscriber_email::SubscriberEmail;
use crate::text::push_str;
use vstd::prelude::*;

verus! {

/// The gateway's endpoint for sending one email.
pub fn email_url(base_url: &str) -> (r: String)
    ensures
        r@ == base_url@ + "/email"@,
{
    let mut r = String::from_str(base_url);
    push_str(&mut r, "/email");
    r
}

/// The body of a send request, field for field as the gateway names them
/// (`From`, `To`, `Subject`, `HtmlBody`, `TextBody`).
pub struct SendEmailRequest {
    pub from: String,
    pub to: String,
    pub subject: String,
    pub html_body: String,
    pub text_body: String,
}

impl SendEmailRequest {
    pub fn new(
        sender: &SubscriberEmail,
        recipient: &SubscriberEmail,
        subject: &str,
        html_content: &str,
        text_content: &str,
    ) -> (r: SendEmailRequest)
        ensures
            r.from@ == sender@,
            r.to@ == recipient@,
            r.subject@ == subject@,
            r.html_body@ == html_content@,
            r.text_body@ == text_content@,
    {
        SendEmailRequest {
            from: sender.to_string(),
            to: recipient.to_string(),
            subject: String::from_str(subject),
            html_body: String::from_str(html_content),
            text_body: String::from_str(text_content),
        }
    }
}

} // verus!
