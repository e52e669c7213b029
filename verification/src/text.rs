//! Strings as sequences of characters: the bridge between `str` values and
//! the character vectors that the ordering and naming rules work on.

use vstd::prelude::*;

verus! {

/// The character sequences of a list of strings, in order.
pub open spec fn views_of(strings: Seq<String>) -> Seq<Seq<char>> {
    Seq::new(strings.len(), |i: int| strings[i]@)
}

/// The character sequence of an optional string.
pub open spec fn text_of(text: Option<&str>) -> Option<Seq<char>> {
    match text {
        Some(s) => Some(s@),
        None => None,
    }
}

/// The character sequence of an optional string that is owned.
pub open spec fn text_in(text: Option<String>) -> Option<Seq<char>> {
    match text {
        Some(s) => Some(s@),
        None => None,
    }
}

/// The characters of `s`, in order.
pub fn chars_of(s: &str) -> (chars: Vec<char>)
    ensures
        chars@ == s@,
{
    let mut chars: Vec<char> = Vec::new();
    for c in it: s.chars()
        invariant
            it.seq() == s@,
            chars@ == it.seq().take(it.index()),
    {
        chars.push(c);
    }
    chars
}

/// The lowercase form of a string, as `str::to_lowercase` gives it. It
/// follows Unicode's lowercase mappings, under which a character may become
/// several, so the result may be longer than the string.
pub uninterp spec fn lowercase_of(s: Seq<char>) -> Seq<char>;

/// Folds the case of `s` with `str::to_lowercase`. Nothing is proved of the
/// mapping itself: the result is known only as `lowercase_of(s@)`.
#[verifier::external_body]
pub(crate) fn to_lowercase(s: &str) -> (lowered: String)
    ensures
        lowered@ == lowercase_of(s@),
{
    s.to_lowercase()
}

/// Appends one character to a string, with `String::push`.
#[verifier::external_body]
pub(crate) fn push_char(s: &mut String, c: char)
    ensures
        final(s)@ == old(s)@.push(c),
{
    s.push(c)
}

/// The string made of the characters of `chars` from `from` up to `to`.
pub fn string_of(chars: &[char], from: usize, to: usize) -> (s: String)
    requires
        from <= to <= chars.len(),
    ensures
        s@ == chars@.subrange(from as int, to as int),
{
    let mut s = String::new();
    let mut i: usize = from;
    while i < to
        invariant
            from <= i <= to <= chars.len(),
            s@ == chars@.subrange(from as int, i as int),
        decreases to - i,
    {
        push_char(&mut s, chars[i]);
        assert(chars@.subrange(from as int, i as int).push(chars@[i as int]) =~= chars@.subrange(
            from as int,
            i as int + 1,
        ));
        i = i + 1;
    }
    s
}

/// Whether `chars` spells exactly `literal`.
pub fn spells(chars: &[char], literal: &str) -> (same: bool)
    ensures
        same == (chars@ == literal@),
{
    let wanted = chars_of(literal);
    if chars.len() != wanted.len() {
        return false;
    }
    let mut i: usize = 0;
    while i < chars.len()
        invariant
            i <= chars.len(),
            chars.len() == wanted.len(),
            wanted@ == literal@,
            forall|k: int| 0 <= k < i ==> chars@[k] == wanted@[k],
        decreases chars.len() - i,
    {
        if chars[i] != wanted[i] {
            return false;
        }
        i = i + 1;
    }
    assert(chars@ =~= wanted@);
    true
}

/// Whether `name` starts with `prefix`.
pub open spec fn starts_with(name: Seq<char>, prefix: Seq<char>) -> bool {
    prefix.len() <= name.len() && name.take(prefix.len() as int) == prefix
}

/// Whether `name` starts with `prefix`.
pub fn has_prefix(name: &str, prefix: &str) -> (found: bool)
    ensures
        found == starts_with(name@, prefix@),
{
    let chars = chars_of(name);
    let wanted = chars_of(prefix);
    if wanted.len() > chars.len() {
        return false;
    }
    let mut i: usize = 0;
    while i < wanted.len()
        invariant
            i <= wanted.len() <= chars.len(),
            chars@ == name@,
            wanted@ == prefix@,
            forall|k: int| 0 <= k < i ==> chars@[k] == wanted@[k],
        decreases wanted.len() - i,
    {
        if chars[i] != wanted[i] {
            assert(chars@.take(wanted@.len() as int)[i as int] == chars@[i as int]);
            assert(name@.take(prefix@.len() as int) != prefix@);
            return false;
        }
        i = i + 1;
    }
    assert(chars@.take(wanted@.len() as int) =~= wanted@);
    true
}

} // verus!
