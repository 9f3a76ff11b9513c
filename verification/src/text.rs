//! Editing helpers for ASCII text lines.
//!
//! The input history edits lines in place. `String` has no vstd specification
//! for character insertion and removal, so the two operations the editor
//! needs are trusted wrappers; on all-ASCII content a byte index is a
//! character index, which is what their contracts state.

use vstd::prelude::*;

verus! {

use vstd::utf8::is_ascii_chars;

/// Relies on `String::insert`: inserts the character at the byte index,
/// which on all-ASCII content is the character index; panics past the end.
#[verifier::external_body]
pub fn string_insert_char(s: &mut String, index: usize, ch: char)
    requires
        is_ascii_chars(old(s)@),
        '\0' <= ch <= '\u{7f}',
        index <= old(s)@.len(),
    ensures
        final(s)@ == old(s)@.insert(index as int, ch),
{
    s.insert(index, ch);
}

/// Relies on `String::remove`: removes the character at the byte index,
/// which on all-ASCII content is the character index; panics past the end.
#[verifier::external_body]
pub fn string_remove_char(s: &mut String, index: usize) -> (r: char)
    requires
        is_ascii_chars(old(s)@),
        index < old(s)@.len(),
    ensures
        r == old(s)@[index as int],
        final(s)@ == old(s)@.remove(index as int),
{
    s.remove(index)
}

} // verus!
