//! Media types of the audio formats a show can publish.
//!
//! Format identifiers are matched whatever the case of their letters. Only the ASCII
//! capital letters are lowered for that: no character beyond ASCII has a letter of the
//! known identifiers as its lower-case form.

use vstd::prelude::*;

verus! {

/// The lower-case form of an ASCII capital letter; every other character is itself.
pub open spec fn ascii_lower(c: char) -> char {
    if 'A' <= c && c <= 'Z' {
        ((c as u8) + 32) as char
    } else {
        c
    }
}

/// A format identifier with its ASCII capital letters in lower case.
pub open spec fn lowered(format: Seq<char>) -> Seq<char> {
    Seq::new(format.len(), |i: int| ascii_lower(format[i]))
}

/// The media type of a format identifier, whatever the case of its letters; empty for an
/// identifier that is not known.
pub open spec fn mime_type_of(format: Seq<char>) -> Seq<char> {
    let l = lowered(format);
    if l == seq!['m', 'p', '3'] {
        "audio/mpeg"@
    } else if l == seq!['m', '4', 'a'] {
        "audio/mp4"@
    } else if l == seq!['f', 'l', 'a', 'c'] {
        "audio/flac"@
    } else {
        ""@
    }
}

/// Lower-case form of one character, for ASCII capital letters only.
pub fn lower_char(c: char) -> (r: char)
    ensures
        r == ascii_lower(c),
{
    if 'A' <= c && c <= 'Z' {
        ((c as u8) + 32) as char
    } else {
        c
    }
}

/// Whether `format`, with its ASCII capital letters in lower case, spells `word`.
fn spells(format: &str, word: &Vec<char>) -> (r: bool)
    ensures
        r == (lowered(format@) == word@),
{
    let n = format.unicode_len();
    if n != word.len() {
        return false;
    }
    let mut i: usize = 0;
    while i < n
        invariant
            i <= n,
            n == format@.len(),
            n == word@.len(),
            forall|j: int| 0 <= j < i ==> ascii_lower(format@[j]) == word@[j],
        decreases n - i,
    {
        if lower_char(format.get_char(i)) != word[i] {
            assert(lowered(format@)[i as int] != word@[i as int]);
            return false;
        }
        i += 1;
    }
    assert(lowered(format@) =~= word@);
    true
}

/// Resolves a format identifier to its media type. Letters match in either case; an
/// identifier that is not known resolves to the empty string.
pub fn resolve(format: &str) -> (mime: String)
    ensures
        mime@ == mime_type_of(format@),
{
    if spells(format, &vec!['m', 'p', '3']) {
        "audio/mpeg".to_string()
    } else if spells(format, &vec!['m', '4', 'a']) {
        "audio/mp4".to_string()
    } else if spells(format, &vec!['f', 'l', 'a', 'c']) {
        "audio/flac".to_string()
    } else {
        "".to_string()
    }
}

} // verus!
