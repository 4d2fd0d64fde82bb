use crate::text::push_str;
use unicode_segmentation::UnicodeSegmentation;
use vstd::prelude::*;
use vstd::string::*;

verus! {

/// Most grapheme clusters a name may have.
pub const MAX_NAME_GRAPHEMES: usize = 256;

/// How many extended grapheme clusters `s` has, by Unicode's segmentation
/// rules.
pub uninterp spec fn grapheme_count(s: Seq<char>) -> nat;

/// Relies on unicode-segmentation's `graphemes(true)`, counted: the number of
/// extended grapheme clusters, which depends on the text alone.
#[verifier::external_body]
pub(crate) fn count_graphemes(s: &str) -> (r: usize)
    ensures
        r as nat == grapheme_count(s@),
{
    s.graphemes(true).count()
}

/// The characters with Unicode's White_Space property.
pub open spec fn is_white_space(c: char) -> bool {
    ||| '\u{9}' <= c <= '\u{d}'
    ||| c == ' '
    ||| c == '\u{85}'
    ||| c == '\u{a0}'
    ||| c == '\u{1680}'
    ||| '\u{2000}' <= c <= '\u{200a}'
    ||| c == '\u{2028}'
    ||| c == '\u{2029}'
    ||| c == '\u{202f}'
    ||| c == '\u{205f}'
    ||| c == '\u{3000}'
}

/// Nothing but white space (or nothing at all).
pub open spec fn is_blank(s: Seq<char>) -> bool {
    forall|i: int| 0 <= i < s.len() ==> is_white_space(#[trigger] s[i])
}

/// Characters that a name may not hold.
pub open spec fn is_forbidden(c: char) -> bool {
    c == '/' || c == '(' || c == ')' || c == '"' || c == '<' || c == '>' || c == '\\' || c == '{'
        || c == '}'
}

/// A name is accepted when it is not blank, has at most 256 grapheme
/// clusters and no forbidden character.
pub open spec fn is_valid_name(s: Seq<char>) -> bool {
    &&& !is_blank(s)
    &&& grapheme_count(s) <= MAX_NAME_GRAPHEMES
    &&& forall|i: int| 0 <= i < s.len() ==> !is_forbidden(#[trigger] s[i])
}

pub fn white_space(c: char) -> (r: bool)
    ensures
        r == is_white_space(c),
{
    ('\u{9}' <= c && c <= '\u{d}') || c == ' ' || c == '\u{85}' || c == '\u{a0}' || c == '\u{1680}'
        || ('\u{2000}' <= c && c <= '\u{200a}') || c == '\u{2028}' || c == '\u{2029}' || c == '\u{202f}'
        || c == '\u{205f}' || c == '\u{3000}'
}

pub fn forbidden(c: char) -> (r: bool)
    ensures
        r == is_forbidden(c),
{
    c == '/' || c == '(' || c == ')' || c == '"' || c == '<' || c == '>' || c == '\\' || c == '{'
        || c == '}'
}

/// A subscriber's name that passed validation.
#[derive(Debug)]
pub struct SubscriberName {
    name: String,
}

impl View for SubscriberName {
    type V = Seq<char>;

    closed spec fn view(&self) -> Seq<char> {
        self.name@
    }
}

impl SubscriberName {
    /// Accepts `s` when it is a valid name; otherwise says why not.
    pub fn parse(s: String) -> (r: Result<SubscriberName, String>)
        ensures
            r is Ok <==> is_valid_name(s@),
            r matches Ok(n) ==> n@ == s@,
            r matches Err(m) ==> m@ == s@ + " is not a valid subscriber name."@,
    {
        if !Self::is_valid_name(s.as_str()) {
            let mut m = s;
            push_str(&mut m, " is not a valid subscriber name.");
            Err(m)
        } else {
            Ok(SubscriberName { name: s })
        }
    }

    fn is_valid_name(s: &str) -> (r: bool)
        ensures
            r == is_valid_name(s@),
    {
        let n = s.unicode_len();
        let mut blank = true;
        let mut clean = true;
        let mut i: usize = 0;
        while i < n
            invariant
                n == s@.len(),
                i <= n,
                blank == forall|j: int| 0 <= j < i ==> is_white_space(#[trigger] s@[j]),
                clean == forall|j: int| 0 <= j < i ==> !is_forbidden(#[trigger] s@[j]),
            decreases n - i,
        {
            let c = s.get_char(i);
            if !white_space(c) {
                blank = false;
            }
            if forbidden(c) {
                clean = false;
            }
            i = i + 1;
        }
        let too_long = count_graphemes(s) > MAX_NAME_GRAPHEMES;
        !(too_long || blank || !clean)
    }

    pub fn as_str(&self) -> (r: &str)
        ensures
            r@ == self@,
    {
        self.name.as_str()
    }
}

} // verus!
