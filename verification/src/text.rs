//! Character-level text helpers shared by the checklist, the event log and the reports.

use vstd::prelude::*;

verus! {

/// `prefix` is an initial segment of `text`.
pub open spec fn is_prefix(prefix: Seq<char>, text: Seq<char>) -> bool {
    prefix.len() <= text.len() && text.subrange(0, prefix.len() as int) == prefix
}

/// `needle` occurs in `text` starting at position `at`.
pub open spec fn occurs_at(text: Seq<char>, needle: Seq<char>, at: int) -> bool {
    0 <= at && at + needle.len() <= text.len() && text.subrange(at, at + needle.len()) == needle
}

/// `needle` occurs somewhere in `text`.
pub open spec fn contains_seq(text: Seq<char>, needle: Seq<char>) -> bool {
    exists|at: int| occurs_at(text, needle, at)
}

/// What `str::to_lowercase` produces for a text: the full Unicode lowercase mapping.
pub uninterp spec fn unicode_lowercase(text: Seq<char>) -> Seq<char>;

/// Calls `str::to_lowercase`; the result is named by `unicode_lowercase` of the input text.
#[verifier::external_body]
pub(crate) fn to_lowercase(text: &str) -> (lower: String)
    ensures
        lower@ == unicode_lowercase(text@),
{
    text.to_lowercase()
}

/// Calls `String::push`, which appends one character at the end of the string.
#[verifier::external_body]
pub(crate) fn push_char(text: &mut String, c: char)
    ensures
        final(text)@ == old(text)@.push(c),
{
    text.push(c);
}

/// The characters of a string slice, in order.
pub fn chars_of(text: &str) -> (chars: Vec<char>)
    ensures
        chars@ == text@,
{
    let mut chars: Vec<char> = Vec::new();
    for c in it: text.chars()
        invariant
            it.seq() == text@,
            chars@ == it.seq().take(it.index() as int),
    {
        chars.push(c);
    }
    assert(chars@ == text@.take(text@.len() as int));
    chars
}

/// A string holding exactly the given characters.
pub fn string_from_chars(chars: &[char]) -> (text: String)
    ensures
        text@ == chars@,
{
    let mut text = String::new();
    let mut i: usize = 0;
    while i < chars.len()
        invariant
            i <= chars@.len(),
            text@ == chars@.take(i as int),
        decreases chars@.len() - i,
    {
        push_char(&mut text, chars[i]);
        i = i + 1;
        assert(text@ == chars@.take(i as int));
    }
    assert(chars@.take(chars@.len() as int) == chars@);
    text
}

/// Whether `needle` occurs in `text` at position `at`.
pub fn matches_at(text: &[char], needle: &[char], at: usize) -> (found: bool)
    requires
        at + needle@.len() <= text@.len(),
    ensures
        found == occurs_at(text@, needle@, at as int),
{
    let text_len = text.len();
    let mut j: usize = 0;
    while j < needle.len()
        invariant
            text_len == text@.len(),
            at + needle@.len() <= text@.len(),
            j <= needle@.len(),
            forall|k: int| 0 <= k < j ==> text@[at + k] == needle@[k],
        decreases needle@.len() - j,
    {
        assert(at + j < text@.len());
        if text[at + j] != needle[j] {
            assert(text@.subrange(at as int, at + needle@.len())[j as int] != needle@[j as int]);
            return false;
        }
        j = j + 1;
    }
    assert(text@.subrange(at as int, at + needle@.len()) == needle@);
    true
}

/// Whether `needle` occurs anywhere in `text`.
pub fn contains_chars(text: &[char], needle: &[char]) -> (found: bool)
    ensures
        found == contains_seq(text@, needle@),
{
    if needle.len() > text.len() {
        return false;
    }
    let last = text.len() - needle.len();
    let mut at: usize = 0;
    loop
        invariant
            last + needle@.len() == text@.len(),
            at <= last,
            forall|k: int| 0 <= k < at ==> !occurs_at(text@, needle@, k),
        ensures
            forall|k: int| 0 <= k <= last ==> !occurs_at(text@, needle@, k),
        decreases last - at,
    {
        if matches_at(text, needle, at) {
            return true;
        }
        if at == last {
            break;
        }
        at = at + 1;
    }
    assert forall|k: int| !occurs_at(text@, needle@, k) by {
        if 0 <= k && k <= at {
        }
    }
    false
}

/// Whether `text` starts with `prefix`.
pub fn starts_with(text: &str, prefix: &str) -> (yes: bool)
    ensures
        yes == is_prefix(prefix@, text@),
{
    let t = chars_of(text);
    let p = chars_of(prefix);
    if p.len() > t.len() {
        return false;
    }
    let found = matches_at(t.as_slice(), p.as_slice(), 0);
    assert(found == (t@.subrange(0, p@.len() as int) == p@));
    found
}

/// Whether `needle` occurs in `text`.
pub fn contains(text: &str, needle: &str) -> (found: bool)
    ensures
        found == contains_seq(text@, needle@),
{
    let t = chars_of(text);
    let n = chars_of(needle);
    contains_chars(t.as_slice(), n.as_slice())
}

/// The lowercase hexadecimal digit for a value below sixteen.
pub open spec fn hex_digit(value: int) -> char {
    if value < 10 {
        (value + 48) as char
    } else {
        (value + 87) as char
    }
}

/// The lowercase hexadecimal digit for a value below sixteen.
pub fn hex_char(value: u16) -> (digit: char)
    requires
        value < 16,
    ensures
        digit == hex_digit(value as int),
{
    match value {
        0 => '0',
        1 => '1',
        2 => '2',
        3 => '3',
        4 => '4',
        5 => '5',
        6 => '6',
        7 => '7',
        8 => '8',
        9 => '9',
        10 => 'a',
        11 => 'b',
        12 => 'c',
        13 => 'd',
        14 => 'e',
        _ => 'f',
    }
}

/// Two lowercase hexadecimal digits of a byte, most significant first.
pub open spec fn hex_byte(byte: u8) -> Seq<char> {
    seq![hex_digit(byte as int / 16), hex_digit(byte as int % 16)]
}

/// The bytes as lowercase hexadecimal, two digits per byte, in order.
pub open spec fn hex_bytes(bytes: Seq<u8>) -> Seq<char>
    decreases bytes.len(),
{
    if bytes.len() == 0 {
        Seq::empty()
    } else {
        hex_bytes(bytes.drop_last()) + hex_byte(bytes.last())
    }
}

/// The bytes written as lowercase hexadecimal, two digits per byte.
pub fn hex_string(bytes: &[u8]) -> (text: String)
    ensures
        text@ == hex_bytes(bytes@),
{
    let mut text = String::new();
    let mut i: usize = 0;
    while i < bytes.len()
        invariant
            i <= bytes@.len(),
            text@ == hex_bytes(bytes@.take(i as int)),
        decreases bytes@.len() - i,
    {
        let byte = bytes[i] as u16;
        push_char(&mut text, hex_char(byte / 16));
        push_char(&mut text, hex_char(byte % 16));
        assert(bytes@.take(i + 1).drop_last() =~= bytes@.take(i as int));
        assert(text@ =~= hex_bytes(bytes@.take(i as int)) + hex_byte(bytes@[i as int]));
        i = i + 1;
    }
    assert(bytes@.take(bytes@.len() as int) =~= bytes@);
    text
}

} // verus!
