use crate::subscriber_name::{is_white_space, white_space};
use base64::Engine;
use vstd::prelude::*;
use vstd::string::*;
use vstd::utf8::*;

verus! {

/// `s` without its leading white space.
pub open spec fn trim_start(s: Seq<char>) -> Seq<char>
    decreases s.len(),
{
    if s.len() > 0 && is_white_space(s[0]) {
        trim_start(s.drop_first())
    } else {
        s
    }
}

/// `a` and `b` are the same character once ASCII letters are lower-cased.
pub open spec fn same_ignoring_ascii_case(a: char, b: char) -> bool {
    ||| a == b
    ||| 'A' <= a <= 'Z' && b as u32 == a as u32 + 32
    ||| 'A' <= b <= 'Z' && a as u32 == b as u32 + 32
}

/// `s` starts with `prefix`, ignoring ASCII case.
pub open spec fn starts_with_ignoring_case(s: Seq<char>, prefix: Seq<char>) -> bool {
    &&& prefix.len() <= s.len()
    &&& forall|k: int| 0 <= k < prefix.len() ==> same_ignoring_ascii_case(#[trigger] s[k], prefix[k])
}

fn same_char_ignoring_ascii_case(a: char, b: char) -> (r: bool)
    ensures
        r == same_ignoring_ascii_case(a, b),
{
    let x = a as u32;
    let y = b as u32;
    x == y || ('A' <= a && a <= 'Z' && y == x + 32) || ('A' <= b && b <= 'Z' && x == y + 32)
}

/// Removes leading white space from `s`, then `prefix` in any ASCII case;
/// `None` when what is left does not start with `prefix`.
pub fn strip_prefix_case_insensitive<'a>(s: &'a str, prefix: &str) -> (r: Option<&'a str>)
    ensures
        r is Some <==> starts_with_ignoring_case(trim_start(s@), prefix@),
        r matches Some(rest) ==> rest@ == trim_start(s@).subrange(
            prefix@.len() as int,
            trim_start(s@).len() as int,
        ),
{
    let n = s.unicode_len();
    let mut i: usize = 0;
    assert(s@.subrange(0, n as int) =~= s@);
    while i < n && white_space(s.get_char(i))
        invariant
            n == s@.len(),
            i <= n,
            trim_start(s@) == trim_start(s@.subrange(i as int, n as int)),
        decreases n - i,
    {
        assert(s@.subrange(i as int, n as int).drop_first() =~= s@.subrange(i + 1, n as int));
        i = i + 1;
    }
    let ghost t = s@.subrange(i as int, n as int);
    assert(trim_start(t) == t);
    let p = prefix.unicode_len();
    if n - i < p {
        return None;
    }
    let mut k: usize = 0;
    while k < p
        invariant
            p == prefix@.len(),
            i + p <= n,
            n == s@.len(),
            t == s@.subrange(i as int, n as int),
            trim_start(s@) == t,
            k <= p,
            forall|j: int| 0 <= j < k ==> same_ignoring_ascii_case(#[trigger] t[j], prefix@[j]),
        decreases p - k,
    {
        if !same_char_ignoring_ascii_case(s.get_char(i + k), prefix.get_char(k)) {
            assert(!same_ignoring_ascii_case(t[k as int], prefix@[k as int]));
            return None;
        }
        k = k + 1;
    }
    let rest = s.substring_char(i + p, n);
    assert(rest@ =~= t.subrange(p as int, t.len() as int));
    Some(rest)
}

/// What Basic authentication carries: a user name and a password.
pub struct Credentials {
    pub username: String,
    pub password: String,
}

/// Why an `Authorization` header gave no credentials.
#[derive(Debug, Clone, Copy, PartialEq, Eq, Structural)]
pub enum BasicAuthError {
    MissingHeader,
    NotBasic,
    InvalidBase64,
    NotUtf8,
    MissingPassword,
}

/// What the standard base64 alphabet, with padding, decodes `s` to; `None`
/// when `s` is not such an encoding.
pub uninterp spec fn base64_decoded(s: Seq<char>) -> Option<Seq<u8>>;

/// Relies on base64's `STANDARD.decode`, whose result depends on the input
/// alone.
#[verifier::external_body]
fn decode_base64(s: &str) -> (r: Option<Vec<u8>>)
    ensures
        match r {
            Some(v) => base64_decoded(s@) == Some(v@),
            None => base64_decoded(s@) is None,
        },
{
    base64::engine::general_purpose::STANDARD.decode(s).ok()
}

/// Relies on `String::from_utf8`: the text that the bytes encode, refused
/// when they are not UTF-8.
#[verifier::external_body]
fn utf8_to_string(b: Vec<u8>) -> (r: Option<String>)
    ensures
        r is Some <==> valid_utf8(b@),
        r matches Some(s) ==> s@ == decode_utf8(b@),
{
    String::from_utf8(b).ok()
}

/// Position of the first `c` in `s`, if any.
pub open spec fn first_index_of(s: Seq<char>, c: char, i: int) -> bool {
    0 <= i < s.len() && s[i] == c && forall|j: int| 0 <= j < i ==> s[j] != c
}

/// The user name and password that `decoded` holds: the text before and
/// after its first colon.
pub open spec fn split_credentials(decoded: Seq<char>) -> Option<(Seq<char>, Seq<char>)> {
    if exists|i: int| first_index_of(decoded, ':', i) {
        let i = choose|i: int| first_index_of(decoded, ':', i);
        Some((decoded.subrange(0, i), decoded.subrange(i + 1, decoded.len() as int)))
    } else {
        None
    }
}

/// What the Basic `Authorization` header `header` yields.
pub open spec fn basic_credentials(header: Seq<char>) -> Result<(Seq<char>, Seq<char>), BasicAuthError> {
    let t = trim_start(header);
    if !starts_with_ignoring_case(t, "Basic "@) {
        Err(BasicAuthError::NotBasic)
    } else {
        match base64_decoded(t.subrange(6, t.len() as int)) {
            None => Err(BasicAuthError::InvalidBase64),
            Some(bytes) => if !valid_utf8(bytes) {
                Err(BasicAuthError::NotUtf8)
            } else {
                match split_credentials(decode_utf8(bytes)) {
                    None => Err(BasicAuthError::MissingPassword),
                    Some(pair) => Ok(pair),
                }
            },
        }
    }
}

/// Reads the credentials of a Basic `Authorization` header: the scheme,
/// in any case, then base64 of `user:password`.
pub fn basic_authentication(header: Option<&str>) -> (r: Result<Credentials, BasicAuthError>)
    ensures
        header is None ==> r == Err::<Credentials, BasicAuthError>(BasicAuthError::MissingHeader),
        header matches Some(h) ==> match basic_credentials(h@) {
            Ok(pair) => r matches Ok(c) && c.username@ == pair.0 && c.password@ == pair.1,
            Err(e) => r == Err::<Credentials, BasicAuthError>(e),
        },
{
    let h = match header {
        None => {
            return Err(BasicAuthError::MissingHeader);
        },
        Some(h) => h,
    };
    proof {
        reveal_strlit("Basic ");
    }
    let encoded = match strip_prefix_case_insensitive(h, "Basic ") {
        None => {
            return Err(BasicAuthError::NotBasic);
        },
        Some(e) => e,
    };
    let bytes = match decode_base64(encoded) {
        None => {
            return Err(BasicAuthError::InvalidBase64);
        },
        Some(b) => b,
    };
    let decoded = match utf8_to_string(bytes) {
        None => {
            return Err(BasicAuthError::NotUtf8);
        },
        Some(d) => d,
    };
    let n = decoded.as_str().unicode_len();
    let mut i: usize = 0;
    while i < n && decoded.as_str().get_char(i) != ':'
        invariant
            n == decoded@.len(),
            i <= n,
            forall|j: int| 0 <= j < i ==> decoded@[j] != ':',
        decreases n - i,
    {
        i = i + 1;
    }
    if i == n {
        assert forall|x: int| !first_index_of(decoded@, ':', x) by {}
        return Err(BasicAuthError::MissingPassword);
    }
    assert(first_index_of(decoded@, ':', i as int));
    proof {
        let c = choose|x: int| first_index_of(decoded@, ':', x);
        if c < i {
        } else if c > i {
            assert(decoded@[i as int] == ':');
        }
    }
    let username = decoded.as_str().substring_char(0, i).to_owned();
    let password = decoded.as_str().substring_char(i + 1, n).to_owned();
    Ok(Credentials { username, password })
}

} // verus!
