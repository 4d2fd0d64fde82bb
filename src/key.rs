use vstd::prelude::*;
use vstd::string::*;

verus! {

/// Longest accepted idempotency key, in characters, is one less than this.
pub const KEY_LENGTH_LIMIT: usize = 50;

/// A key is accepted when it is not empty and shorter than the limit.
pub open spec fn is_valid_key(s: Seq<char>) -> bool {
    0 < s.len() && s.len() < KEY_LENGTH_LIMIT
}

/// A client-chosen string that bounds a single logical submission.
#[derive(Debug)]
pub struct IdempotencyKey {
    key: String,
}

/// Why a candidate idempotency key was refused.
#[derive(Debug, Clone, Copy, PartialEq, Eq, Structural)]
pub enum KeyError {
    Empty,
    TooLong,
}

impl View for IdempotencyKey {
    type V = Seq<char>;

    closed spec fn view(&self) -> Seq<char> {
        self.key@
    }
}

impl IdempotencyKey {
    pub closed spec fn wf(&self) -> bool {
        is_valid_key(self.key@)
    }

    /// Accepts `s` when it is non-empty and shorter than fifty characters.
    pub fn parse(s: String) -> (r: Result<IdempotencyKey, KeyError>)
        ensures
            r is Ok <==> is_valid_key(s@),
            r matches Ok(k) ==> k@ == s@ && k.wf(),
            s@.len() == 0 ==> r == Err::<IdempotencyKey, KeyError>(KeyError::Empty),
            s@.len() >= KEY_LENGTH_LIMIT ==> r == Err::<IdempotencyKey, KeyError>(KeyError::TooLong),
    {
        let n = s.as_str().unicode_len();
        if n == 0 {
            Err(KeyError::Empty)
        } else if n >= KEY_LENGTH_LIMIT {
            Err(KeyError::TooLong)
        } else {
            Ok(IdempotencyKey { key: s })
        }
    }

    /// Rebuilds a key from text that was a key before.
    pub(crate) fn from_valid(s: String) -> (r: IdempotencyKey)
        ensures
            r@ == s@,
    {
        IdempotencyKey { key: s }
    }

    pub fn as_str(&self) -> (r: &str)
        ensures
            r@ == self@,
    {
        self.key.as_str()
    }

    pub fn into_string(self) -> (r: String)
        ensures
            r@ == self@,
    {
        self.key
    }
}

impl KeyError {
    /// What a refused key is told.
    pub fn message(&self) -> (r: &'static str)
        ensures
            r@ == "The idempotency key must be not empty and less than 50 characters long."@,
    {
        "The idempotency key must be not empty and less than 50 characters long."
    }
}

} // verus!
