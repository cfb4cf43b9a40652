//! Small operations on text that the rest of the library builds on.

use vstd::prelude::*;
use vstd::string::*;

verus! {

/// Appends one character to a string. Calls `String::push`, which the
/// standard library documents as appending the given `char` to the end of
/// the string; the contract says that and nothing more.
#[verifier::external_body]
pub(crate) fn push_char(s: &mut String, c: char)
    ensures
        final(s)@ == old(s)@.push(c),
{
    s.push(c);
}

/// Whether the character is white space: one of the 25 characters that
/// have the Unicode property `White_Space`.
pub open spec fn char_is_whitespace(c: char) -> bool {
    ||| '\u{9}' <= c && c <= '\u{d}'
    ||| c == ' '
    ||| c == '\u{85}'
    ||| c == '\u{a0}'
    ||| c == '\u{1680}'
    ||| '\u{2000}' <= c && c <= '\u{200a}'
    ||| c == '\u{2028}'
    ||| c == '\u{2029}'
    ||| c == '\u{202f}'
    ||| c == '\u{205f}'
    ||| c == '\u{3000}'
}

/// Asks `char::is_whitespace`, which the standard library documents as
/// telling whether the character has the Unicode property `White_Space`.
/// The contract names the characters that have it.
#[verifier::external_body]
pub(crate) fn is_whitespace(c: char) -> (b: bool)
    ensures
        b == char_is_whitespace(c),
{
    c.is_whitespace()
}

/// A text of white space only; the empty text is one.
pub open spec fn blank(s: Seq<char>) -> bool {
    forall|i: int| 0 <= i < s.len() ==> char_is_whitespace(#[trigger] s[i])
}

/// Whether nothing would be left of the text once the white space at its
/// ends is taken off.
pub fn is_blank(s: &str) -> (b: bool)
    ensures
        b == blank(s@),
{
    for c in it: s.chars()
        invariant
            it.seq() == s@,
            blank(s@.subrange(0, it.index() as int)),
    {
        if !is_whitespace(c) {
            assert(s@[it.index() as int] == c);
            return false;
        }
        assert forall|i: int| 0 <= i < it.index() + 1 implies char_is_whitespace(
            #[trigger] s@.subrange(0, it.index() + 1)[i],
        ) by {
            if i < it.index() {
                assert(s@.subrange(0, it.index() as int)[i] == s@[i]);
            }
        }
    }
    assert(s@.subrange(0, s@.len() as int) =~= s@);
    true
}

/// The views of a sequence of strings.
pub open spec fn views(v: Seq<String>) -> Seq<Seq<char>> {
    Seq::new(v.len(), |i: int| v[i]@)
}

/// The views of a sequence of string slices.
pub open spec fn slice_views(v: Seq<&str>) -> Seq<Seq<char>> {
    Seq::new(v.len(), |i: int| v[i]@)
}

/// The view of an optional string.
pub open spec fn opt_view(o: Option<String>) -> Option<Seq<char>> {
    match o {
        Some(s) => Some(s@),
        None => None,
    }
}

/// A copy of an optional string.
pub fn clone_opt(o: &Option<String>) -> (r: Option<String>)
    ensures
        opt_view(r) == opt_view(*o),
{
    match o {
        Some(s) => Some(s.clone()),
        None => None,
    }
}

/// The parts with the separator between neighbours.
pub open spec fn joined(parts: Seq<Seq<char>>, separator: char) -> Seq<char>
    decreases parts.len(),
{
    if parts.len() == 0 {
        Seq::<char>::empty()
    } else if parts.len() == 1 {
        parts[0]
    } else {
        joined(parts.drop_last(), separator).push(separator) + parts.last()
    }
}

/// Joins the parts with the separator between neighbours.
pub fn join_strs(parts: &Vec<&str>, separator: char) -> (s: String)
    ensures
        s@ == joined(slice_views(parts@), separator),
{
    let mut s = String::new();
    let mut i: usize = 0;
    assert(slice_views(parts@).subrange(0, 0) =~= Seq::<Seq<char>>::empty());
    while i < parts.len()
        invariant
            i <= parts.len(),
            s@ == joined(slice_views(parts@).subrange(0, i as int), separator),
        decreases parts.len() - i,
    {
        let ghost done = slice_views(parts@).subrange(0, i as int);
        let ghost next = slice_views(parts@).subrange(0, i + 1);
        assert(next.drop_last() =~= done);
        assert(next.last() == parts@[i as int]@);
        if i > 0 {
            push_char(&mut s, separator);
        }
        s.append(parts[i]);
        assert(s@ =~= joined(next, separator));
        i = i + 1;
    }
    assert(slice_views(parts@).subrange(0, i as int) =~= slice_views(parts@));
    s
}

/// Joins the parts with the separator between neighbours.
pub fn join_strings(parts: &Vec<String>, separator: char) -> (s: String)
    ensures
        s@ == joined(views(parts@), separator),
{
    let mut borrowed: Vec<&str> = Vec::new();
    let mut i: usize = 0;
    while i < parts.len()
        invariant
            i <= parts.len(),
            borrowed@.len() == i,
            forall|j: int| 0 <= j < i ==> borrowed@[j]@ == parts@[j]@,
        decreases parts.len() - i,
    {
        borrowed.push(parts[i].as_str());
        i = i + 1;
    }
    assert(slice_views(borrowed@) =~= views(parts@));
    join_strs(&borrowed, separator)
}

} // verus!
