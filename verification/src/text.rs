//! Text: lower case and substrings.

use vstd::prelude::*;
use vstd::utf8::is_ascii_chars;

verus! {

/// What `str::to_lowercase` makes of a text.
pub uninterp spec fn lowercase(text: Seq<char>) -> Seq<char>;

/// The lower case of an ASCII letter; any other character is its own.
pub open spec fn ascii_lowercase(c: char) -> char {
    if 'A' <= c && c <= 'Z' {
        ((c as u32) + 32) as char
    } else {
        c
    }
}

/// `str::to_lowercase` of std. Its result depends on the text alone; on a text
/// of ASCII characters, the letters `A` to `Z` become `a` to `z` and nothing
/// else changes.
pub assume_specification[ str::to_lowercase ](s: &str) -> (res: String)
    ensures
        res@ == lowercase(s@),
        is_ascii_chars(s@) ==> res@ == s@.map_values(|c: char| ascii_lowercase(c)),
;

/// `needle` stands in `text` at index `at`.
pub open spec fn occurs_at(text: Seq<char>, needle: Seq<char>, at: int) -> bool {
    0 <= at <= text.len() - needle.len() && text.subrange(at, at + needle.len()) == needle
}

/// `needle` stands somewhere in `text`.
pub open spec fn contains_text(text: Seq<char>, needle: Seq<char>) -> bool {
    exists|at: int| occurs_at(text, needle, at)
}

/// The characters of a text.
fn chars_of(text: &str) -> (res: Vec<char>)
    ensures
        res@ == text@,
{
    let mut chars: Vec<char> = Vec::new();
    for c in it: text.chars()
        invariant
            chars@ == text@.take(it.index() as int),
            it.seq() == text@,
    {
        chars.push(c);
        assert(chars@ =~= text@.take(it.index() + 1));
    }
    assert(text@.take(text@.len() as int) =~= text@);
    chars
}

/// Whether `needle` stands somewhere in `text`.
pub fn contains(text: &str, needle: &str) -> (res: bool)
    ensures
        res == contains_text(text@, needle@),
{
    let hay = chars_of(text);
    let pat = chars_of(needle);
    if pat.len() > hay.len() {
        return false;
    }
    let mut at: usize = 0;
    while at <= hay.len() - pat.len()
        invariant
            at <= hay@.len() - pat@.len() + 1,
            hay@ == text@,
            pat@ == needle@,
            pat@.len() <= hay@.len(),
            forall|k: int| 0 <= k < at ==> !#[trigger] occurs_at(text@, needle@, k),
        decreases hay@.len() - at,
    {
        let mut n: usize = 0;
        while n < pat.len() && hay[at + n] == pat[n]
            invariant
                n <= pat@.len(),
                at <= hay.len() - pat.len(),
                forall|k: int| 0 <= k < n ==> hay@[at + k] == #[trigger] pat@[k],
            decreases pat@.len() - n,
        {
            n = n + 1;
        }
        if n == pat.len() {
            assert(text@.subrange(at as int, at + needle@.len()) =~= needle@);
            assert(occurs_at(text@, needle@, at as int));
            return true;
        }
        proof {
            if occurs_at(text@, needle@, at as int) {
                assert(text@.subrange(at as int, at + needle@.len())[n as int] == hay@[at + n]);
            }
        }
        at = at + 1;
    }
    false
}

} // verus!
