//! The normalizer: maps raw text to the canonical character stream that every scorer reads.
use vstd::prelude::*;

verus! {

/// Relies on `String::push`: it appends the given character to the end of the string.
pub assume_specification[ String::push ](s: &mut String, ch: char)
    ensures
        final(s)@ == old(s)@.push(ch),
;

/// The canonical form of one character: ASCII letters are lowercased, ASCII digits are kept,
/// and every other character becomes a single space.
pub open spec fn normalize_char(c: char) -> char {
    if 'A' <= c <= 'Z' {
        ((c as u8) + 32) as char
    } else if ('a' <= c <= 'z') || ('0' <= c <= '9') {
        c
    } else {
        ' '
    }
}

/// The canonical form of a text, one character for each character of the input.
pub open spec fn normalize(s: Seq<char>) -> Seq<char> {
    s.map_values(|c: char| normalize_char(c))
}

/// Normalizes each character of `text` into a vector.
pub fn normalized_chars(text: &str) -> (r: Vec<char>)
    ensures
        r@ == normalize(text@),
{
    let mut out: Vec<char> = Vec::new();
    for c in it: text.chars()
        invariant
            it.seq() == text@,
            out@ == normalize(text@.take(it.index() as int)),
    {
        let n = if 'A' <= c && c <= 'Z' {
            ((c as u8) + 32) as char
        } else if ('a' <= c && c <= 'z') || ('0' <= c && c <= '9') {
            c
        } else {
            ' '
        };
        out.push(n);
    }
    out
}

/// Normalizes `text`: ASCII letters lowercased, ASCII digits kept, every other character
/// replaced by one space. The result has one character for each character of `text`.
pub fn clean_text(text: &str) -> (r: String)
    ensures
        r@ == normalize(text@),
{
    let chars = normalized_chars(text);
    string_of(&chars)
}

/// A string holding the given characters.
pub fn string_of(chars: &Vec<char>) -> (r: String)
    ensures
        r@ == chars@,
{
    let mut out = String::new();
    let mut i: usize = 0;
    while i < chars.len()
        invariant
            i <= chars@.len(),
            out@ == chars@.take(i as int),
        decreases chars.len() - i,
    {
        out.push(chars[i]);
        assert(chars@.take(i + 1) =~= chars@.take(i as int).push(chars@[i as int]));
        i = i + 1;
    }
    assert(chars@.take(i as int) =~= chars@);
    out
}

/// Normalizing is idempotent: normalizing an already normalized text gives the same text.
pub proof fn lemma_normalize_idempotent(s: Seq<char>)
    ensures
        normalize(normalize(s)) == normalize(s),
{
    assert forall|i: int| 0 <= i < s.len() implies #[trigger] normalize_char(normalize_char(s[i]))
        == normalize_char(s[i]) by {
        let c = s[i];
        if 'A' <= c <= 'Z' {
            assert(((c as u8) + 32) as char == normalize_char(c));
        }
    }
    assert(normalize(normalize(s)) =~= normalize(s));
}

} // verus!
