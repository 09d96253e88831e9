//! Strings as sequences of characters.
use vstd::prelude::*;

verus! {

/// `String::push` of the standard library: the character is put behind the
/// characters that the string holds.
pub assume_specification[ String::push ](s: &mut String, c: char)
    ensures
        final(s)@ == old(s)@.push(c),
;

/// `text` begins with `prefix`.
pub open spec fn has_prefix(text: Seq<char>, prefix: Seq<char>) -> bool {
    &&& prefix.len() <= text.len()
    &&& text.take(prefix.len() as int) == prefix
}

/// The characters of `text`, in order.
pub fn to_chars(text: &str) -> (chars: Vec<char>)
    ensures
        chars@ == text@,
{
    let mut chars: Vec<char> = Vec::new();
    for c in iter: text.chars()
        invariant
            iter.seq() == text@,
            chars@ == text@.take(iter.index()),
    {
        chars.push(c);
    }
    chars
}

/// Puts `chars` behind the characters of `text`.
pub fn push_chars(text: &mut String, chars: &Vec<char>)
    ensures
        final(text)@ == old(text)@ + chars@,
{
    let ghost start = text@;
    for i in 0..chars.len()
        invariant
            text@ == start + chars@.take(i as int),
    {
        text.push(chars[i]);
    }
}

/// Whether `text` begins with `prefix`.
pub fn starts_with(text: &str, prefix: &str) -> (found: bool)
    ensures
        found == has_prefix(text@, prefix@),
{
    let text_chars = to_chars(text);
    let prefix_chars = to_chars(prefix);
    if prefix_chars.len() > text_chars.len() {
        return false;
    }
    for i in 0..prefix_chars.len()
        invariant
            text_chars@ == text@,
            prefix_chars@ == prefix@,
            prefix_chars.len() <= text_chars.len(),
            forall|j: int| 0 <= j < i ==> text@[j] == prefix@[j],
    {
        if text_chars[i] != prefix_chars[i] {
            assert(text@.take(prefix@.len() as int)[i as int] != prefix@[i as int]);
            return false;
        }
    }
    assert(text@.take(prefix@.len() as int) =~= prefix@);
    true
}

/// A text begins with another exactly where it is at least as long and has the
/// same characters at the other's positions.
pub proof fn law_prefix_by_characters(text: Seq<char>, prefix: Seq<char>)
    ensures
        has_prefix(text, prefix) <==> prefix.len() <= text.len() && forall|i: int|
            0 <= i < prefix.len() ==> #[trigger] text[i] == prefix[i],
{
    if prefix.len() <= text.len() {
        let front = text.take(prefix.len() as int);
        if has_prefix(text, prefix) {
            assert forall|i: int| 0 <= i < prefix.len() implies #[trigger] text[i]
                == prefix[i] by {
                assert(front[i] == prefix[i]);
            }
        }
        if forall|i: int| 0 <= i < prefix.len() ==> #[trigger] text[i] == prefix[i] {
            assert(front =~= prefix);
        }
    }
}

} // verus!
