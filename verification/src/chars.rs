//! Character classes of the log-line grammar, and maximal-run scanning.
//!
//! Every token of the grammar is a maximal run of characters drawn from one
//! class, so one scanning primitive (`scan_from`, specified by `scan_end`)
//! carries the whole tokenizer.

use vstd::prelude::*;

verus! {

/// The character classes that the grammar's tokens are drawn from.
#[derive(Clone, Copy)]
pub enum CharKind {
    /// ASCII letter.
    Alpha,
    /// ASCII decimal digit.
    Digit,
    /// ASCII letter or digit.
    Alnum,
    /// Word character: ASCII letter, digit or underscore.
    Word,
    /// Word character or hyphen.
    WordDash,
    /// Digit or colon (clock-time field).
    TimeChar,
    /// Digit or dot (dotted address part).
    AddrChar,
    /// Digit or slash (slash-joined counter field).
    DigitSlash,
    /// Space or horizontal tab.
    Space,
    /// Any character except a closing square bracket.
    NotRBracket,
}

pub open spec fn is_alpha(c: char) -> bool {
    ('A' as int <= c as int <= 'Z' as int) || ('a' as int <= c as int <= 'z' as int)
}

pub open spec fn is_digit(c: char) -> bool {
    '0' as int <= c as int <= '9' as int
}

pub open spec fn is_alnum(c: char) -> bool {
    is_alpha(c) || is_digit(c)
}

pub open spec fn is_word(c: char) -> bool {
    is_alnum(c) || c == '_'
}

pub open spec fn is_word_dash(c: char) -> bool {
    is_word(c) || c == '-'
}

pub open spec fn is_time_char(c: char) -> bool {
    is_digit(c) || c == ':'
}

pub open spec fn is_addr_char(c: char) -> bool {
    is_digit(c) || c == '.'
}

pub open spec fn is_digit_slash(c: char) -> bool {
    is_digit(c) || c == '/'
}

pub open spec fn is_space(c: char) -> bool {
    c == ' ' || c == '\t'
}

/// Membership of a character in a class.
pub open spec fn kind_char(k: CharKind, c: char) -> bool {
    match k {
        CharKind::Alpha => is_alpha(c),
        CharKind::Digit => is_digit(c),
        CharKind::Alnum => is_alnum(c),
        CharKind::Word => is_word(c),
        CharKind::WordDash => is_word_dash(c),
        CharKind::TimeChar => is_time_char(c),
        CharKind::AddrChar => is_addr_char(c),
        CharKind::DigitSlash => is_digit_slash(c),
        CharKind::Space => is_space(c),
        CharKind::NotRBracket => c != ']',
    }
}

/// End of the maximal run of class-`k` characters that starts at `i`.
pub open spec fn scan_end(s: Seq<char>, i: int, k: CharKind) -> int
    decreases s.len() - i,
{
    if 0 <= i < s.len() && kind_char(k, s[i]) {
        scan_end(s, i + 1, k)
    } else {
        i
    }
}

/// The run found by `scan_end` is in bounds, is made of class characters,
/// and is maximal.
pub proof fn lemma_scan_end(s: Seq<char>, i: int, k: CharKind)
    requires
        0 <= i <= s.len(),
    ensures
        i <= scan_end(s, i, k) <= s.len(),
        forall|j: int| i <= j < scan_end(s, i, k) ==> kind_char(k, s[j]),
        scan_end(s, i, k) < s.len() ==> !kind_char(k, s[scan_end(s, i, k)]),
    decreases s.len() - i,
{
    if i < s.len() && kind_char(k, s[i]) {
        lemma_scan_end(s, i + 1, k);
    }
}

/// A run that is in bounds, made of class characters, and maximal, is the
/// one that `scan_end` finds.
pub proof fn lemma_scan_end_unique(s: Seq<char>, i: int, j: int, k: CharKind)
    requires
        0 <= i <= j <= s.len(),
        forall|m: int| i <= m < j ==> kind_char(k, s[m]),
        j < s.len() ==> !kind_char(k, s[j]),
    ensures
        scan_end(s, i, k) == j,
    decreases j - i,
{
    if i < j {
        lemma_scan_end_unique(s, i + 1, j, k);
    }
}

/// Decides membership of a character in a class.
pub fn char_is(k: CharKind, c: char) -> (b: bool)
    ensures
        b == kind_char(k, c),
{
    let u = c as u32;
    match k {
        CharKind::Alpha => (65 <= u && u <= 90) || (97 <= u && u <= 122),
        CharKind::Digit => 48 <= u && u <= 57,
        CharKind::Alnum => (65 <= u && u <= 90) || (97 <= u && u <= 122) || (48 <= u && u <= 57),
        CharKind::Word => (65 <= u && u <= 90) || (97 <= u && u <= 122) || (48 <= u && u <= 57)
            || u == 95,
        CharKind::WordDash => (65 <= u && u <= 90) || (97 <= u && u <= 122) || (48 <= u && u <= 57)
            || u == 95 || u == 45,
        CharKind::TimeChar => (48 <= u && u <= 57) || u == 58,
        CharKind::AddrChar => (48 <= u && u <= 57) || u == 46,
        CharKind::DigitSlash => (48 <= u && u <= 57) || u == 47,
        CharKind::Space => u == 32 || u == 9,
        CharKind::NotRBracket => u != 93,
    }
}

/// Scans the maximal run of class-`k` characters starting at `start`.
pub fn scan_from(s: &str, start: usize, k: CharKind) -> (end: usize)
    requires
        start <= s@.len(),
    ensures
        end as int == scan_end(s@, start as int, k),
        start <= end <= s@.len(),
{
    let n = s.unicode_len();
    let mut i: usize = start;
    while i < n && char_is(k, s.get_char(i))
        invariant
            start <= i <= n,
            n == s@.len(),
            scan_end(s@, start as int, k) == scan_end(s@, i as int, k),
        decreases n - i,
    {
        i = i + 1;
    }
    proof {
        lemma_scan_end(s@, start as int, k);
    }
    i
}

} // verus!
