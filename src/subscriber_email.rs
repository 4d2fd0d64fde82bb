use validator::ValidateEmail;
use vstd::prelude::*;

verus! {

/// Whether `s` is an email address, by the HTML5 rules that validator
/// implements.
pub uninterp spec fn is_valid_email(s: Seq<char>) -> bool;

/// Relies on validator's `ValidateEmail::validate_email` on `&str`, whose
/// answer depends on the text alone.
#[verifier::external_body]
fn validate_email(s: &str) -> (r: bool)
    ensures
        r == is_valid_email(s@),
{
    s.validate_email()
}

/// A subscriber's email address that passed validation.
#[derive(Clone, Debug)]
pub struct SubscriberEmail {
    email: String,
}

impl View for SubscriberEmail {
    type V = Seq<char>;

    closed spec fn view(&self) -> Seq<char> {
        self.email@
    }
}

impl SubscriberEmail {
    pub closed spec fn wf(&self) -> bool {
        is_valid_email(self.email@)
    }

    /// Accepts `s` when it is an email address; hands it back otherwise.
    pub fn parse(s: String) -> (r: Result<SubscriberEmail, String>)
        ensures
            r is Ok <==> is_valid_email(s@),
            r matches Ok(e) ==> e@ == s@ && e.wf(),
            r matches Err(t) ==> t@ == s@,
    {
        if validate_email(s.as_str()) {
            Ok(SubscriberEmail { email: s })
        } else {
            Err(s)
        }
    }

    pub fn as_str(&self) -> (r: &str)
        ensures
            r@ == self@,
    {
        self.email.as_str()
    }

    /// The address as text.
    pub fn to_string(&self) -> (r: String)
        ensures
            r@ == self@,
    {
        self.email.clone()
    }
}

} // verus!
