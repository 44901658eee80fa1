//! Text primitives that the matcher is built on.

use vstd::prelude::*;

verus! {

/// The lower-case form of a text, as the standard library's
/// `str::to_lowercase` computes it from the Unicode tables.
pub uninterp spec fn lowercase_of(s: Seq<char>) -> Seq<char>;

/// Calls `str::to_lowercase`.  The contract only names the result: the same
/// text always has the same lower-case form, which `lowercase_of` stands for.
#[verifier::external_body]
pub(crate) fn to_lowercase(s: &str) -> (lowered: String)
    ensures
        lowered@ == lowercase_of(s@),
{
    s.to_lowercase()
}

/// `needle` stands in `hay` at position `at`.
pub open spec fn occurs_at(needle: Seq<char>, hay: Seq<char>, at: int) -> bool {
    &&& 0 <= at
    &&& at + needle.len() <= hay.len()
    &&& hay.subrange(at, at + needle.len()) == needle
}

/// `needle` stands somewhere in `hay`, as a run of consecutive characters.
pub open spec fn is_substring(needle: Seq<char>, hay: Seq<char>) -> bool {
    exists|at: int| occurs_at(needle, hay, at)
}

/// The characters of a text, one by one.
pub fn chars_of(s: &str) -> (chars: Vec<char>)
    ensures
        chars@ == s@,
{
    let mut chars: Vec<char> = Vec::new();
    for c in it: s.chars()
        invariant
            chars@ == it.seq().take(it.index() as int),
            it.seq() == s@,
    {
        chars.push(c);
    }
    chars
}

/// Whether `needle` stands in `hay` at position `at`.
fn stands_at(hay: &Vec<char>, needle: &Vec<char>, at: usize) -> (ok: bool)
    requires
        at + needle.len() <= hay.len(),
    ensures
        ok == occurs_at(needle@, hay@, at as int),
{
    let mut k: usize = 0;
    while k < needle.len()
        invariant
            0 <= k <= needle.len(),
            at + needle.len() <= hay.len(),
            forall|j: int| 0 <= j < k ==> hay@[at + j] == needle@[j],
        decreases needle.len() - k,
    {
        if hay[at + k] != needle[k] {
            assert(hay@.subrange(at as int, at + needle.len())[k as int] != needle@[k as int]);
            return false;
        }
        k = k + 1;
    }
    assert(hay@.subrange(at as int, at + needle.len()) =~= needle@);
    true
}

/// Whether `needle` stands somewhere in `hay`, as a run of consecutive
/// characters.  Every position is tried in turn.
pub fn contains_chars(hay: &Vec<char>, needle: &Vec<char>) -> (found: bool)
    ensures
        found == is_substring(needle@, hay@),
{
    if needle.len() > hay.len() {
        return false;
    }
    let last: usize = hay.len() - needle.len();
    let mut at: usize = 0;
    while at < last
        invariant
            0 <= at <= last,
            last == hay.len() - needle.len(),
            forall|a: int| 0 <= a < at ==> !occurs_at(needle@, hay@, a),
        decreases last - at,
    {
        if stands_at(hay, needle, at) {
            return true;
        }
        at = at + 1;
    }
    if stands_at(hay, needle, last) {
        return true;
    }
    assert forall|a: int| !occurs_at(needle@, hay@, a) by {
        if 0 <= a && a + needle.len() <= hay.len() {
            assert(a <= last);
        }
    }
    false
}

/// Whether the text `needle` stands somewhere in the text `hay`.
pub fn contains_str(hay: &str, needle: &str) -> (found: bool)
    ensures
        found == is_substring(needle@, hay@),
{
    let hay_chars = chars_of(hay);
    let needle_chars = chars_of(needle);
    contains_chars(&hay_chars, &needle_chars)
}

/// The views of a list of values, item by item.
pub open spec fn views<T: View>(v: Seq<T>) -> Seq<T::V> {
    Seq::new(v.len(), |i: int| v[i]@)
}

/// A text holds the character `c` exactly when the one-character text `c`
/// is a substring of it.
pub proof fn lemma_single_char_substring(c: char, hay: Seq<char>)
    ensures
        is_substring(seq![c], hay) <==> hay.contains(c),
{
    if is_substring(seq![c], hay) {
        let at = choose|at: int| occurs_at(seq![c], hay, at);
        assert(hay.subrange(at, at + 1)[0] == c);
        assert(hay[at] == c);
    }
    if hay.contains(c) {
        let at = choose|at: int| 0 <= at < hay.len() && hay[at] == c;
        assert(hay.subrange(at, at + 1) =~= seq![c]);
        assert(occurs_at(seq![c], hay, at));
    }
}

/// Whether `text` holds the character `@`.
pub fn has_at_sign(text: &str) -> (found: bool)
    ensures
        found == text@.contains('@'),
{
    proof {
        reveal_strlit("@");
        assert("@"@ =~= seq!['@']);
        lemma_single_char_substring('@', text@);
    }
    contains_str(text, "@")
}

/// The text in an option, or the empty text.
pub fn text_or_empty(text: Option<String>) -> (shown: String)
    ensures
        shown@ == match text {
            Some(t) => t@,
            None => Seq::<char>::empty(),
        },
{
    match text {
        Some(t) => t,
        None => String::new(),
    }
}

} // verus!
