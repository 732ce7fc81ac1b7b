//! The markup grammar: recognizing one code at a position in the text.
//!
//! A code is the marker character followed by one of three forms:
//! an optional background flag `~` and then either a single hex nibble
//! (a palette color) or `#` + 3 or 6 hex digits + `;` (a literal color),
//! or a single formatter/reset letter (`h`..`o`, `R`, or `r` followed by
//! one of `b`, `c`, `f`, `h`..`o`).  The formatter letters are disjoint
//! from the hex nibbles, so no code is ambiguous between the two forms.

use vstd::prelude::*;

verus! {

/// A hex nibble, which is also exactly the alphabet of palette color codes.
pub open spec fn is_hex_digit(c: char) -> bool {
    ('0' as u32 <= c as u32 && c as u32 <= '9' as u32) || ('a' as u32 <= c as u32 && c as u32
        <= 'f' as u32)
}

/// A one-letter formatter code: an attribute letter or the full reset `R`.
pub open spec fn is_plain_formatter(c: char) -> bool {
    ('h' as u32 <= c as u32 && c as u32 <= 'o' as u32) || c == 'R'
}

/// A letter that may follow `r` in a reset code: foreground, background,
/// both colors, or one attribute letter.
pub open spec fn is_reset_target(c: char) -> bool {
    c == 'b' || c == 'c' || c == 'f' || ('h' as u32 <= c as u32 && c as u32 <= 'o' as u32)
}

/// The numeric value of a hex digit.
pub open spec fn hex_digit_val(c: char) -> u8
    recommends
        is_hex_digit(c),
{
    if c as u32 <= '9' as u32 {
        (c as u32 - '0' as u32) as u8
    } else {
        (c as u32 - 'a' as u32 + 10) as u8
    }
}

/// One classified match of the grammar: a formatter/reset code, a palette
/// color with its background flag, or a literal color already parsed into
/// its RGB bytes.
#[derive(Debug, Clone, Copy)]
pub enum Code {
    /// `h`..`o` or `R` (with `second` empty), or `r` followed by a reset target.
    Formatter { first: char, second: Option<char> },
    /// A single hex nibble selecting a palette color.
    Color { background: bool, code: char },
    /// A literal color: 3-digit forms have each nibble duplicated per channel.
    Hex { background: bool, r: u8, g: u8, b: u8 },
}

/// Matches the part of a code after the marker and the optional background
/// flag: a palette color nibble, or `#` + 3 or 6 hex digits + `;` (the
/// 3-digit form is preferred where both could start).  Returns the position
/// just past the match, with the classification.
pub open spec fn match_color_or_hex(s: Seq<char>, k: int, background: bool) -> Option<(int, Code)> {
    if 0 <= k && k < s.len() && is_hex_digit(s[k]) {
        Some((k + 1, Code::Color { background, code: s[k] }))
    } else if 0 <= k && k < s.len() && s[k] == '#' {
        if k + 4 < s.len() && is_hex_digit(s[k + 1]) && is_hex_digit(s[k + 2]) && is_hex_digit(
            s[k + 3],
        ) && s[k + 4] == ';' {
            Some(
                (
                    k + 5,
                    Code::Hex {
                        background,
                        r: (17 * hex_digit_val(s[k + 1])) as u8,
                        g: (17 * hex_digit_val(s[k + 2])) as u8,
                        b: (17 * hex_digit_val(s[k + 3])) as u8,
                    },
                ),
            )
        } else if k + 7 < s.len() && is_hex_digit(s[k + 1]) && is_hex_digit(s[k + 2])
            && is_hex_digit(s[k + 3]) && is_hex_digit(s[k + 4]) && is_hex_digit(s[k + 5])
            && is_hex_digit(s[k + 6]) && s[k + 7] == ';' {
            Some(
                (
                    k + 8,
                    Code::Hex {
                        background,
                        r: (16 * hex_digit_val(s[k + 1]) + hex_digit_val(s[k + 2])) as u8,
                        g: (16 * hex_digit_val(s[k + 3]) + hex_digit_val(s[k + 4])) as u8,
                        b: (16 * hex_digit_val(s[k + 5]) + hex_digit_val(s[k + 6])) as u8,
                    },
                ),
            )
        } else {
            None
        }
    } else {
        None
    }
}

/// Matches a formatter or reset code at position `j`.
pub open spec fn match_formatter(s: Seq<char>, j: int) -> Option<(int, Code)> {
    if 0 <= j && j < s.len() && is_plain_formatter(s[j]) {
        Some((j + 1, Code::Formatter { first: s[j], second: None }))
    } else if 0 <= j && j < s.len() && s[j] == 'r' && j + 1 < s.len() && is_reset_target(
        s[j + 1],
    ) {
        Some((j + 2, Code::Formatter { first: 'r', second: Some(s[j + 1]) }))
    } else {
        None
    }
}

/// Matches one full code at position `i`: the marker, then either the
/// background flag and a color form, or a color form, or a formatter.
/// Returns the position just past the code and its classification, or
/// nothing when no code starts at `i`.
pub open spec fn match_code_at(s: Seq<char>, i: int, marker: char) -> Option<(int, Code)> {
    if 0 <= i && i < s.len() && s[i] == marker {
        if i + 1 < s.len() && s[i + 1] == '~' {
            match_color_or_hex(s, i + 2, true)
        } else {
            match match_color_or_hex(s, i + 1, false) {
                Some(m) => Some(m),
                None => match_formatter(s, i + 1),
            }
        }
    } else {
        None
    }
}

/// A match always consumes at least the marker and one further character,
/// and never runs past the end of the text.
pub proof fn lemma_match_code_bounds(s: Seq<char>, i: int, marker: char)
    ensures
        match_code_at(s, i, marker) matches Some(m) ==> i + 2 <= m.0 <= s.len(),
{
}

/// Exec mirror of `is_hex_digit`.
pub fn hex_digit(c: char) -> (r: bool)
    ensures
        r == is_hex_digit(c),
{
    let u: u32 = c as u32;
    ('0' as u32 <= u && u <= '9' as u32) || ('a' as u32 <= u && u <= 'f' as u32)
}

/// Exec mirror of `hex_digit_val`.
pub fn hex_digit_value(c: char) -> (v: u8)
    requires
        is_hex_digit(c),
    ensures
        v == hex_digit_val(c),
        v < 16,
{
    let u: u32 = c as u32;
    if u <= '9' as u32 {
        (u - '0' as u32) as u8
    } else {
        (u - 'a' as u32 + 10) as u8
    }
}

/// Exec mirror of `is_plain_formatter`.
fn plain_formatter(c: char) -> (r: bool)
    ensures
        r == is_plain_formatter(c),
{
    let u: u32 = c as u32;
    ('h' as u32 <= u && u <= 'o' as u32) || c == 'R'
}

/// Exec mirror of `is_reset_target`.
fn reset_target(c: char) -> (r: bool)
    ensures
        r == is_reset_target(c),
{
    let u: u32 = c as u32;
    c == 'b' || c == 'c' || c == 'f' || ('h' as u32 <= u && u <= 'o' as u32)
}

/// Exec color-or-hex matcher; mirrors `match_color_or_hex` at position `k`
/// of `chars`.
fn color_or_hex(chars: &Vec<char>, k: usize, background: bool) -> (r: Option<(usize, Code)>)
    ensures
        (match r {
            Some((e, c)) => match_color_or_hex(chars@, k as int, background) == Some((e as int, c)),
            None => match_color_or_hex(chars@, k as int, background) is None,
        }),
{
    let n: usize = chars.len();
    if k < n && hex_digit(chars[k]) {
        Some((k + 1, Code::Color { background, code: chars[k] }))
    } else if k < n && chars[k] == '#' {
        if n - k > 4 && hex_digit(chars[k + 1]) && hex_digit(chars[k + 2]) && hex_digit(
            chars[k + 3],
        ) && chars[k + 4] == ';' {
            Some(
                (
                    k + 5,
                    Code::Hex {
                        background,
                        r: 17 * hex_digit_value(chars[k + 1]),
                        g: 17 * hex_digit_value(chars[k + 2]),
                        b: 17 * hex_digit_value(chars[k + 3]),
                    },
                ),
            )
        } else if n - k > 7 && hex_digit(chars[k + 1]) && hex_digit(chars[k + 2]) && hex_digit(
            chars[k + 3],
        ) && hex_digit(chars[k + 4]) && hex_digit(chars[k + 5]) && hex_digit(chars[k + 6])
            && chars[k + 7] == ';' {
            Some(
                (
                    k + 8,
                    Code::Hex {
                        background,
                        r: 16 * hex_digit_value(chars[k + 1]) + hex_digit_value(chars[k + 2]),
                        g: 16 * hex_digit_value(chars[k + 3]) + hex_digit_value(chars[k + 4]),
                        b: 16 * hex_digit_value(chars[k + 5]) + hex_digit_value(chars[k + 6]),
                    },
                ),
            )
        } else {
            None
        }
    } else {
        None
    }
}

/// Exec matcher for one full code; mirrors `match_code_at`.
pub fn match_code(chars: &Vec<char>, i: usize, marker: char) -> (r: Option<(usize, Code)>)
    ensures
        (match r {
            Some((e, c)) => match_code_at(chars@, i as int, marker) == Some((e as int, c)),
            None => match_code_at(chars@, i as int, marker) is None,
        }),
{
    let n: usize = chars.len();
    if i < n && chars[i] == marker {
        if n - i > 1 && chars[i + 1] == '~' {
            color_or_hex(chars, i + 2, true)
        } else {
            match color_or_hex(chars, i + 1, false) {
                Some(m) => Some(m),
                None => {
                    if n - i > 1 && plain_formatter(chars[i + 1]) {
                        Some((i + 2, Code::Formatter { first: chars[i + 1], second: None }))
                    } else if n - i > 2 && chars[i + 1] == 'r' && reset_target(chars[i + 2]) {
                        Some(
                            (i + 3, Code::Formatter { first: 'r', second: Some(chars[i + 2]) }),
                        )
                    } else {
                        None
                    }
                },
            }
        }
    } else {
        None
    }
}

} // verus!
