//! The general laws of the conversion engine, stated over the same spec
//! functions that the public contracts use, and proved once and for all.

use vstd::prelude::*;

use crate::ansi as ansi_mod;
use crate::codes::{is_hex_digit, match_code_at, Code};
use crate::depth::Depth;
use crate::resolve::{
    ansi_of, color_256_fragment, sgr_fragment, spec_hex_rgb,
};
use crate::tables::{spec_colors, spec_colors_8bit};
use crate::{
    apply_auto_reset, ends_with_reset, full_reset, replace_from, spec_clean, spec_convert,
    spec_replace, spec_strip, spec_unescape, strip_from, unescape_from,
};

verus! {

/// Stripping text that holds no marker leaves it unchanged from `i` on.
proof fn lemma_strip_from_without_marker(s: Seq<char>, marker: char, i: int)
    requires
        0 <= i <= s.len(),
        forall|t: int| #![trigger s[t]] 0 <= t < s.len() ==> s[t] != marker,
    ensures
        strip_from(s, marker, i) == s.skip(i),
    decreases s.len() - i,
{
    if i < s.len() {
        lemma_strip_from_without_marker(s, marker, i + 1);
        assert(strip_from(s, marker, i) =~= s.skip(i));
    } else {
        assert(strip_from(s, marker, i) =~= s.skip(i));
    }
}

/// Replacing in text that holds no marker leaves it unchanged from `i` on.
proof fn lemma_replace_from_without_marker(s: Seq<char>, marker: char, depth: Depth, i: int)
    requires
        0 <= i <= s.len(),
        forall|t: int| #![trigger s[t]] 0 <= t < s.len() ==> s[t] != marker,
    ensures
        replace_from(s, marker, depth, i) == s.skip(i),
    decreases s.len() - i,
{
    if i < s.len() {
        lemma_replace_from_without_marker(s, marker, depth, i + 1);
        assert(replace_from(s, marker, depth, i) =~= s.skip(i));
    } else {
        assert(replace_from(s, marker, depth, i) =~= s.skip(i));
    }
}

/// Unescaping text that holds no escape token leaves it unchanged from `i`
/// on.
proof fn lemma_unescape_from_without_token(s: Seq<char>, marker: char, i: int)
    requires
        0 <= i <= s.len(),
        forall|t: int|
            #![trigger s[t]]
            0 <= t < s.len() ==> !(s[t] == marker && t + 1 < s.len() && s[t + 1] == '_'),
    ensures
        unescape_from(s, marker, i) == s.skip(i),
    decreases s.len() - i,
{
    if i < s.len() {
        lemma_unescape_from_without_token(s, marker, i + 1);
        assert(unescape_from(s, marker, i) =~= s.skip(i));
    } else {
        assert(unescape_from(s, marker, i) =~= s.skip(i));
    }
}

/// Stripping never introduces a character that the text does not hold.
proof fn lemma_strip_from_preserves_absence(s: Seq<char>, marker: char, c: char, i: int)
    requires
        0 <= i <= s.len(),
        forall|t: int| #![trigger s[t]] 0 <= t < s.len() ==> s[t] != c,
    ensures
        forall|j: int|
            0 <= j < strip_from(s, marker, i).len() ==> #[trigger] strip_from(s, marker, i)[j]
                != c,
    decreases s.len() - i,
{
    if i < s.len() {
        match match_code_at(s, i, marker) {
            Some(m) => {
                crate::codes::lemma_match_code_bounds(s, i, marker);
                lemma_strip_from_preserves_absence(s, marker, c, m.0);
                assert(strip_from(s, marker, i) == strip_from(s, marker, m.0));
            },
            None => {
                lemma_strip_from_preserves_absence(s, marker, c, i + 1);
                assert forall|j: int|
                    0 <= j < strip_from(s, marker, i).len() implies #[trigger] strip_from(
                    s,
                    marker,
                    i,
                )[j] != c by {
                    if j == 0 {
                        assert(strip_from(s, marker, i)[0] == s[i]);
                    } else {
                        assert(strip_from(s, marker, i)[j] == strip_from(s, marker, i + 1)[j - 1]);
                    }
                }
            },
        }
    }
}

/// Unescaping never introduces a character that the text does not hold.
proof fn lemma_unescape_from_preserves_absence(s: Seq<char>, marker: char, c: char, i: int)
    requires
        0 <= i <= s.len(),
        forall|t: int| #![trigger s[t]] 0 <= t < s.len() ==> s[t] != c,
    ensures
        forall|j: int|
            0 <= j < unescape_from(s, marker, i).len() ==> #[trigger] unescape_from(
                s,
                marker,
                i,
            )[j] != c,
    decreases s.len() - i,
{
    if i < s.len() {
        if s[i] == marker && i + 1 < s.len() && s[i + 1] == '_' {
            lemma_unescape_from_preserves_absence(s, marker, c, i + 2);
            assert forall|j: int|
                0 <= j < unescape_from(s, marker, i).len() implies #[trigger] unescape_from(
                s,
                marker,
                i,
            )[j] != c by {
                if j > 0 {
                    assert(unescape_from(s, marker, i)[j] == unescape_from(s, marker, i + 2)[j
                        - 1]);
                }
            }
        } else {
            lemma_unescape_from_preserves_absence(s, marker, c, i + 1);
            assert forall|j: int|
                0 <= j < unescape_from(s, marker, i).len() implies #[trigger] unescape_from(
                s,
                marker,
                i,
            )[j] != c by {
                if j > 0 {
                    assert(unescape_from(s, marker, i)[j] == unescape_from(s, marker, i + 1)[j
                        - 1]);
                }
            }
        }
    }
}

/// After the optional reset is appended to marker-free text, no escape
/// token occurs anywhere.
proof fn lemma_auto_reset_adds_no_token(s: Seq<char>, marker: char, auto_reset: bool)
    requires
        forall|t: int| #![trigger s[t]] 0 <= t < s.len() ==> s[t] != marker,
    ensures
        forall|t: int|
            #![trigger apply_auto_reset(s, auto_reset)[t]]
            0 <= t < apply_auto_reset(s, auto_reset).len() ==> !(apply_auto_reset(s, auto_reset)[t]
                == marker && t + 1 < apply_auto_reset(s, auto_reset).len() && apply_auto_reset(
                s,
                auto_reset,
            )[t + 1] == '_'),
{
    let s2 = apply_auto_reset(s, auto_reset);
    assert forall|t: int|
        0 <= t < s2.len() implies !(#[trigger] s2[t] == marker && t + 1 < s2.len() && s2[t + 1]
        == '_') by {
        if t + 1 < s2.len() && s2[t + 1] == '_' {
            if t + 1 < s.len() {
                assert(s2[t] == s[t]);
            } else {
                assert(s2[t + 1] == full_reset()[t + 1 - s.len()]);
            }
        }
    }
}

/// For all text holding no occurrence of the marker, conversion returns
/// the text itself, with the full reset appended exactly when auto-reset
/// is on and the text does not already end with it.  In particular, after
/// the marker is reconfigured, codes under any character the text was
/// written for that is not the new marker pass through literally.
pub proof fn lemma_convert_plain_text(
    s: Seq<char>,
    marker: char,
    depth: Option<Depth>,
    auto_reset: bool,
)
    requires
        !s.contains(marker),
    ensures
        spec_convert(s, marker, depth, auto_reset) == apply_auto_reset(s, auto_reset),
{
    assert forall|t: int| 0 <= t < s.len() implies #[trigger] s[t] != marker by {
        if s[t] == marker {
            assert(s.contains(marker));
        }
    }
    lemma_strip_from_without_marker(s, marker, 0);
    assert(s.skip(0) =~= s);
    assert(spec_strip(s, marker) == s);
    if let Some(d) = depth {
        lemma_replace_from_without_marker(s, marker, d, 0);
        assert(spec_replace(s, marker, d) == s);
    }
    let s2 = apply_auto_reset(s, auto_reset);
    lemma_auto_reset_adds_no_token(s, marker, auto_reset);
    lemma_unescape_from_without_token(s2, marker, 0);
    assert(s2.skip(0) =~= s2);
    assert(spec_unescape(s2, marker) == s2);
}

/// `clean` never emits an escape character: with auto-reset off, text
/// holding no escape character cleans to text holding none, whatever the
/// configured depth (cleaning does not consult the depth at all).
pub proof fn lemma_clean_emits_no_escape(s: Seq<char>, marker: char)
    requires
        !s.contains('\u{1b}'),
    ensures
        !spec_clean(s, marker, false).contains('\u{1b}'),
{
    assert forall|t: int| 0 <= t < s.len() implies #[trigger] s[t] != '\u{1b}' by {
        if s[t] == '\u{1b}' {
            assert(s.contains('\u{1b}'));
        }
    }
    lemma_strip_from_preserves_absence(s, marker, '\u{1b}', 0);
    let stripped = spec_strip(s, marker);
    assert(apply_auto_reset(stripped, false) == stripped);
    lemma_unescape_from_preserves_absence(stripped, marker, '\u{1b}', 0);
    if spec_clean(s, marker, false).contains('\u{1b}') {
        let j = choose|j: int|
            0 <= j < spec_clean(s, marker, false).len() && spec_clean(s, marker, false)[j]
                == '\u{1b}';
        assert(spec_unescape(stripped, marker)[j] != '\u{1b}');
    }
}

/// With no depth configured, `convert` behaves identically to `clean`,
/// for every input and whatever the auto-reset flag.
pub proof fn lemma_depth_none_cleans(s: Seq<char>, marker: char, auto_reset: bool)
    ensures
        spec_convert(s, marker, None, auto_reset) == spec_clean(s, marker, auto_reset),
{
}

/// The background offset law at the coarse depths: a background palette
/// color renders as the foreground SGR parameter plus 10, in the same
/// plain template.
pub proof fn lemma_background_offset(code: char, depth: Depth)
    requires
        is_hex_digit(code),
        depth == Depth::Tty || depth == Depth::Low,
    ensures
        ansi_of(Code::Color { background: false, code }, depth) == sgr_fragment(
            spec_colors(depth, code)->0,
        ),
        ansi_of(Code::Color { background: true, code }, depth) == sgr_fragment(
            (spec_colors(depth, code)->0 + 10) as u8,
        ),
{
    crate::tables::lemma_tables_total(code);
}

/// The background family law at `Medium`: a background palette color
/// switches to the `48;5;` template with the numeric parameter unchanged,
/// instead of adding any offset.
pub proof fn lemma_background_family_medium(code: char)
    requires
        is_hex_digit(code),
    ensures
        ansi_of(Code::Color { background: false, code }, Depth::Medium) == color_256_fragment(
            false,
            spec_colors_8bit(code)->0,
        ),
        ansi_of(Code::Color { background: true, code }, Depth::Medium) == color_256_fragment(
            true,
            spec_colors_8bit(code)->0,
        ),
{
}

/// The hex expansion law: a 3-digit literal color resolves to exactly the
/// RGB bytes of the 6-digit literal with each nibble duplicated.
pub proof fn lemma_hex_nibble_duplication(d1: char, d2: char, d3: char)
    requires
        is_hex_digit(d1),
        is_hex_digit(d2),
        is_hex_digit(d3),
    ensures
        spec_hex_rgb(seq![d1, d2, d3]) == spec_hex_rgb(seq![d1, d1, d2, d2, d3, d3]),
{
}

/// The escaping law: the marker followed by an underscore and any further
/// character converts, at every depth, to the literal marker followed by
/// that character, with no ANSI emitted for it.
pub proof fn lemma_escaped_code_stays_literal(marker: char, c: char, depth: Option<Depth>)
    requires
        marker != '_',
    ensures
        spec_convert(seq![marker, '_', c], marker, depth, false) == seq![marker, c],
{
    let s = seq![marker, '_', c];
    reveal_with_fuel(strip_from, 5);
    reveal_with_fuel(replace_from, 5);
    reveal_with_fuel(unescape_from, 5);
    assert(match_code_at(s, 0, marker) is None);
    assert(match_code_at(s, 2, marker) is None);
    assert(spec_strip(s, marker) =~= s);
    if let Some(d) = depth {
        assert(spec_replace(s, marker, d) =~= s);
    }
    assert(!ends_with_reset(s));
    assert(spec_unescape(s, marker) =~= seq![marker, c]);
}

/// What `clean_ansi` removes is exactly what its own matcher recognizes;
/// text holding neither ESC nor the one-character CSI is left unchanged.
pub proof fn lemma_clean_ansi_plain_text(s: Seq<char>)
    requires
        !s.contains('\u{1b}'),
        !s.contains('\u{9b}'),
    ensures
        ansi_mod::spec_clean_ansi(s) == s,
{
    assert forall|t: int| 0 <= t < s.len() implies !ansi_mod::is_ansi_lead(#[trigger] s[t]) by {
        if s[t] == '\u{1b}' {
            assert(s.contains('\u{1b}'));
        }
        if s[t] == '\u{9b}' {
            assert(s.contains('\u{9b}'));
        }
    }
    lemma_ansi_scan_plain(s, 0);
    assert(s.skip(0) =~= s);
}

/// The ANSI scan leaves text without lead characters unchanged from `i` on.
proof fn lemma_ansi_scan_plain(s: Seq<char>, i: int)
    requires
        0 <= i <= s.len(),
        forall|t: int| 0 <= t < s.len() ==> !ansi_mod::is_ansi_lead(#[trigger] s[t]),
    ensures
        ansi_mod::ansi_scan_from(s, i) == s.skip(i),
    decreases s.len() - i,
{
    if i < s.len() {
        lemma_ansi_scan_plain(s, i + 1);
        assert(ansi_mod::ansi_scan_from(s, i) =~= s.skip(i));
    } else {
        assert(ansi_mod::ansi_scan_from(s, i) =~= s.skip(i));
    }
}

} // verus!
