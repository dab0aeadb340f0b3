//! Character-level helpers on strings.

use vstd::prelude::*;

verus! {

/// Appends one character to a string, through `String::push`.
/// Claimed of std: the string afterwards is the old one followed by `c`.
#[verifier::external_body]
pub(crate) fn push_char(s: &mut String, c: char)
    ensures
        final(s)@ == old(s)@.push(c),
{
    s.push(c)
}

/// The characters of `s`, in order.
pub fn chars_of(s: &str) -> (v: Vec<char>)
    ensures
        v@ == s@,
{
    broadcast use vstd::string::group_string_axioms;
    let mut v: Vec<char> = Vec::new();
    for c in it: s.chars()
        invariant
            v@ == it.seq().take(it.index()),
    {
        v.push(c);
    }
    v
}

/// Whether `c` has the Unicode `White_Space` property: U+0009 to U+000D,
/// U+0020, U+0085, U+00A0, U+1680, U+2000 to U+200A, U+2028, U+2029, U+202F,
/// U+205F and U+3000.
pub open spec fn char_is_whitespace(c: char) -> bool {
    let n = c as int;
    ||| 0x9 <= n <= 0xD
    ||| n == 0x20
    ||| n == 0x85
    ||| n == 0xA0
    ||| n == 0x1680
    ||| 0x2000 <= n <= 0x200A
    ||| n == 0x2028
    ||| n == 0x2029
    ||| n == 0x202F
    ||| n == 0x205F
    ||| n == 0x3000
}

/// Calls `char::is_whitespace`, which std documents as true exactly of the
/// characters with the Unicode `White_Space` property; claimed here: the
/// result is `char_is_whitespace(c)`, that property's list of code points.
#[verifier::external_body]
fn is_whitespace_char(c: char) -> (res: bool)
    ensures
        res == char_is_whitespace(c),
{
    c.is_whitespace()
}

/// Every character of `s` is whitespace (so `s` is empty once trimmed).
pub open spec fn is_blank(s: Seq<char>) -> bool {
    forall|i: int| 0 <= i < s.len() ==> char_is_whitespace(#[trigger] s[i])
}

/// Whether `s` is empty or holds only whitespace.
pub fn blank(s: &str) -> (res: bool)
    ensures
        res == is_blank(s@),
{
    let cs = chars_of(s);
    for i in 0..cs.len()
        invariant
            cs@ == s@,
            forall|j: int| 0 <= j < i ==> char_is_whitespace(#[trigger] s@[j]),
    {
        if !is_whitespace_char(cs[i]) {
            return false;
        }
    }
    true
}

} // verus!
