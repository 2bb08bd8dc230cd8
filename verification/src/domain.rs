//! Subscriber-facing domain types: the validated subscriber name.

use vstd::prelude::*;
use vstd::string::StrSliceExecFns;
use vstd::string::StringExecFns;
use unicode_segmentation::UnicodeSegmentation;

verus! {

/// The number of extended grapheme clusters of a string, as
/// unicode_segmentation's `graphemes` iterator yields them. A function of
/// the characters alone.
pub uninterp spec fn grapheme_count(s: Seq<char>) -> nat;

/// Relies on unicode_segmentation's `str::graphemes` with extended grapheme
/// clusters, counting what the iterator yields.
#[verifier::external_body]
fn count_graphemes(s: &str) -> (n: usize)
    ensures
        n == grapheme_count(s@),
{
    s.graphemes(true).count()
}

/// `c` carries the Unicode White_Space property, as `char::is_whitespace`
/// classifies it.
pub open spec fn is_whitespace_char(c: char) -> bool {
    ||| c as u32 == 0x20
    ||| (0x9 <= c as u32 && c as u32 <= 0xD)
    ||| c as u32 == 0x85
    ||| c as u32 == 0xA0
    ||| c as u32 == 0x1680
    ||| (0x2000 <= c as u32 && c as u32 <= 0x200A)
    ||| c as u32 == 0x2028
    ||| c as u32 == 0x2029
    ||| c as u32 == 0x202F
    ||| c as u32 == 0x205F
    ||| c as u32 == 0x3000
}

/// The string is empty or consists of whitespace alone: what trimming it
/// would reduce to nothing.
pub open spec fn all_whitespace(s: Seq<char>) -> bool {
    forall|i: int| 0 <= i < s.len() ==> is_whitespace_char(#[trigger] s[i])
}

/// Characters a subscriber name must not contain.
pub open spec fn forbidden_char(c: char) -> bool {
    c == '/' || c == '(' || c == ')' || c == '"' || c == '<' || c == '>' || c == '\\' || c == '{'
        || c == '}'
}

/// Some character of the string is forbidden.
pub open spec fn has_forbidden_char(s: Seq<char>) -> bool {
    exists|i: int| 0 <= i < s.len() && forbidden_char(#[trigger] s[i])
}

/// A valid subscriber name: not empty or whitespace-only, at most 256
/// graphemes, and free of forbidden characters.
pub open spec fn spec_valid_name(s: Seq<char>) -> bool {
    !all_whitespace(s) && grapheme_count(s) <= 256 && !has_forbidden_char(s)
}

/// Executable check matching [`is_whitespace_char`].
fn ws_char(c: char) -> (b: bool)
    ensures
        b == is_whitespace_char(c),
{
    let u = c as u32;
    u == 0x20 || (0x9 <= u && u <= 0xD) || u == 0x85 || u == 0xA0 || u == 0x1680 || (0x2000 <= u
        && u <= 0x200A) || u == 0x2028 || u == 0x2029 || u == 0x202F || u == 0x205F || u == 0x3000
}

/// Executable check matching [`forbidden_char`].
fn bad_char(c: char) -> (b: bool)
    ensures
        b == forbidden_char(c),
{
    c == '/' || c == '(' || c == ')' || c == '"' || c == '<' || c == '>' || c == '\\' || c == '{'
        || c == '}'
}

/// A subscriber's display name that passed validation.
#[derive(Debug)]
pub struct SubscriberName(String);

impl View for SubscriberName {
    type V = Seq<char>;

    closed spec fn view(&self) -> Seq<char> {
        self.0@
    }
}

impl SubscriberName {
    /// Parse and validate a subscriber name: the input is returned wrapped
    /// exactly when it is a valid name, and otherwise rejected with a
    /// message naming it.
    pub fn parse(s: String) -> (r: Result<SubscriberName, String>)
        ensures
            spec_valid_name(s@) ==> (r matches Ok(name) && name@ == s@),
            !spec_valid_name(s@) ==> (r matches Err(e) && e@ == s@
                + " is not a valid subscriber name"@),
    {
        let st = s.as_str();
        let n = st.unicode_len();

        let mut is_empty_or_whitespace = true;
        let mut i: usize = 0;
        while i < n
            invariant
                n == st@.len(),
                st@ == s@,
                i <= n,
                is_empty_or_whitespace <==> (forall|j: int|
                    0 <= j < i ==> is_whitespace_char(#[trigger] s@[j])),
            decreases n - i,
        {
            if !ws_char(st.get_char(i)) {
                is_empty_or_whitespace = false;
            }
            i = i + 1;
        }

        let is_too_long = count_graphemes(st) > 256;

        let mut contains_forbidden_characters = false;
        let mut k: usize = 0;
        while k < n
            invariant
                n == st@.len(),
                st@ == s@,
                k <= n,
                contains_forbidden_characters <==> (exists|j: int|
                    0 <= j < k && forbidden_char(#[trigger] s@[j])),
            decreases n - k,
        {
            if bad_char(st.get_char(k)) {
                contains_forbidden_characters = true;
            }
            k = k + 1;
        }

        if is_empty_or_whitespace || is_too_long || contains_forbidden_characters {
            let mut e = s;
            e.append(" is not a valid subscriber name");
            Err(e)
        } else {
            Ok(SubscriberName(s))
        }
    }

    /// The validated name, as the string it wraps.
    pub fn as_ref(&self) -> (r: &str)
        ensures
            r@ == self@,
    {
        self.0.as_str()
    }
}

} // verus!
