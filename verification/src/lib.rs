//! Minecraft-inspired inline text formatting.
//!
//! Text holds short codes introduced by a marker character (`&` by default):
//! a hex nibble selects a palette color (`&a`), a `~` between marker and code
//! applies it to the background (`&~e`), `#rgb;`/`#rrggbb;` give a literal
//! 24-bit color (`&#f0f;`), and single letters select attributes and resets.
//! [`Dahlia::convert`] replaces each code with the ANSI escape sequence for
//! the configured color depth, [`Dahlia::clean`] strips the codes instead,
//! and [`clean_ansi`] strips pre-existing ANSI escape sequences from text.

use vstd::prelude::*;

pub mod ansi;
pub mod codes;
pub mod depth;
pub mod laws;
pub mod resolve;
pub mod tables;
pub mod text;

pub use ansi::clean_ansi;
pub use depth::Depth;
pub use depth::InferrenceResult;

use crate::codes::{lemma_match_code_bounds, match_code, match_code_at};
use crate::resolve::{ansi_of, lemma_matched_code_wf, push_ansi};
use crate::text::{chars_of_str, string_from_chars};

verus! {

/// The result of removing every code that the marker introduces, from
/// position `i` on: matches are dropped, other characters are kept.
pub open spec fn strip_from(s: Seq<char>, marker: char, i: int) -> Seq<char>
    decreases s.len() - i,
{
    if i < 0 || i >= s.len() {
        Seq::empty()
    } else {
        match match_code_at(s, i, marker) {
            Some(m) => strip_from(s, marker, m.0),
            None => seq![s[i]] + strip_from(s, marker, i + 1),
        }
    }
}

/// The result of replacing every code that the marker introduces with its
/// ANSI fragment at the given depth, from position `i` on.
pub open spec fn replace_from(s: Seq<char>, marker: char, depth: Depth, i: int) -> Seq<char>
    decreases s.len() - i,
{
    if i < 0 || i >= s.len() {
        Seq::empty()
    } else {
        match match_code_at(s, i, marker) {
            Some(m) => ansi_of(m.1, depth) + replace_from(s, marker, depth, m.0),
            None => seq![s[i]] + replace_from(s, marker, depth, i + 1),
        }
    }
}

/// All codes stripped from `s`.
pub open spec fn spec_strip(s: Seq<char>, marker: char) -> Seq<char> {
    strip_from(s, marker, 0)
}

/// All codes replaced with their ANSI fragments.
pub open spec fn spec_replace(s: Seq<char>, marker: char, depth: Depth) -> Seq<char> {
    replace_from(s, marker, depth, 0)
}

/// The full-reset sequence appended by auto-reset.
pub open spec fn full_reset() -> Seq<char> {
    seq!['\u{1b}', '[', '0', 'm']
}

/// Whether `s` already ends with the full-reset sequence.
pub open spec fn ends_with_reset(s: Seq<char>) -> bool {
    s.len() >= 4 && s.subrange(s.len() - 4, s.len() as int) == full_reset()
}

/// Appends the full reset when auto-reset asks for one and the text does
/// not already end with it.
pub open spec fn apply_auto_reset(s: Seq<char>, auto_reset: bool) -> Seq<char> {
    if auto_reset && !ends_with_reset(s) {
        s + full_reset()
    } else {
        s
    }
}

/// The result of unescaping from position `i` on: each occurrence of the
/// escape token (marker plus underscore) becomes a single literal marker;
/// everything else, including the character after the token, is kept.
pub open spec fn unescape_from(s: Seq<char>, marker: char, i: int) -> Seq<char>
    decreases s.len() - i,
{
    if i < 0 || i >= s.len() {
        Seq::empty()
    } else if s[i] == marker && i + 1 < s.len() && s[i + 1] == '_' {
        seq![marker] + unescape_from(s, marker, i + 2)
    } else {
        seq![s[i]] + unescape_from(s, marker, i + 1)
    }
}

/// All escape tokens collapsed to literal markers.
pub open spec fn spec_unescape(s: Seq<char>, marker: char) -> Seq<char> {
    unescape_from(s, marker, 0)
}

/// The finalize step shared by conversion and cleaning: the optional
/// trailing reset, then unescaping.  Unescaping runs strictly after code
/// substitution, so an escape token is never read as a live code.
pub open spec fn spec_finalize(s: Seq<char>, marker: char, auto_reset: bool) -> Seq<char> {
    spec_unescape(apply_auto_reset(s, auto_reset), marker)
}

/// What `clean` returns: codes stripped, then finalized.
pub open spec fn spec_clean(s: Seq<char>, marker: char, auto_reset: bool) -> Seq<char> {
    spec_finalize(spec_strip(s, marker), marker, auto_reset)
}

/// What `convert` returns: with no depth it cleans; otherwise codes are
/// replaced with ANSI fragments at that depth, then finalized.
pub open spec fn spec_convert(
    s: Seq<char>,
    marker: char,
    depth: Option<Depth>,
    auto_reset: bool,
) -> Seq<char> {
    match depth {
        None => spec_clean(s, marker, auto_reset),
        Some(d) => spec_finalize(spec_replace(s, marker, d), marker, auto_reset),
    }
}

/// The result of escaping from position `i` on: every marker becomes the
/// escape token.
pub open spec fn escape_from(s: Seq<char>, marker: char, i: int) -> Seq<char>
    decreases s.len() - i,
{
    if i < 0 || i >= s.len() {
        Seq::empty()
    } else if s[i] == marker {
        seq![marker, '_'] + escape_from(s, marker, i + 1)
    } else {
        seq![s[i]] + escape_from(s, marker, i + 1)
    }
}

/// All markers escaped.
pub open spec fn spec_escape(s: Seq<char>, marker: char) -> Seq<char> {
    escape_from(s, marker, 0)
}

/// The sixteen palette codes, in order.
pub open spec fn palette_codes() -> Seq<char> {
    seq!['0', '1', '2', '3', '4', '5', '6', '7', '8', '9', 'a', 'b', 'c', 'd', 'e', 'f']
}

/// The eight attribute letters, in order.
pub open spec fn attribute_codes() -> Seq<char> {
    seq!['h', 'i', 'j', 'k', 'l', 'm', 'n', 'o']
}

/// The color half of the demonstration pattern, from entry `i` on: for
/// each palette code, the code under the marker followed by the code
/// itself.
pub open spec fn demo_colors_from(m: char, i: int) -> Seq<char>
    decreases palette_codes().len() - i,
{
    if i < 0 || i >= palette_codes().len() {
        Seq::empty()
    } else {
        seq![m, palette_codes()[i], palette_codes()[i]] + demo_colors_from(m, i + 1)
    }
}

/// The attribute half of the demonstration pattern, from entry `i` on: for
/// each attribute letter, a full reset and the attribute applied to the
/// letter itself.
pub open spec fn demo_attributes_from(m: char, i: int) -> Seq<char>
    decreases attribute_codes().len() - i,
{
    if i < 0 || i >= attribute_codes().len() {
        Seq::empty()
    } else {
        seq![m, 'R', m, attribute_codes()[i], attribute_codes()[i]] + demo_attributes_from(
            m,
            i + 1,
        )
    }
}

/// The demonstration pattern showing every formatting option.
pub open spec fn spec_demo_pattern(m: char) -> Seq<char> {
    demo_colors_from(m, 0) + demo_attributes_from(m, 0)
}

/// Whether the last four characters are the full-reset sequence.
fn ends_with_reset_exec(v: &Vec<char>) -> (r: bool)
    ensures
        r == ends_with_reset(v@),
{
    let n: usize = v.len();
    if n >= 4 {
        let r: bool = v[n - 4] == '\u{1b}' && v[n - 3] == '[' && v[n - 2] == '0' && v[n - 1]
            == 'm';
        proof {
            if r {
                assert(v@.subrange(n - 4, n as int) =~= full_reset());
            } else {
                if v@.subrange(n - 4, n as int) == full_reset() {
                    assert(v@[n - 4] == full_reset()[0]);
                    assert(v@[n - 3] == full_reset()[1]);
                    assert(v@[n - 2] == full_reset()[2]);
                    assert(v@[n - 1] == full_reset()[3]);
                }
            }
        }
        r
    } else {
        false
    }
}

/// One pass over the text: each code is replaced with its ANSI fragment at
/// the given depth, or dropped when no depth is given.
fn substitute(chars: &Vec<char>, marker: char, depth: Option<Depth>) -> (out: Vec<char>)
    ensures
        out@ == (match depth {
            Some(d) => spec_replace(chars@, marker, d),
            None => spec_strip(chars@, marker),
        }),
{
    let mut out: Vec<char> = Vec::new();
    let mut i: usize = 0;
    while i < chars.len()
        invariant
            i <= chars@.len(),
            (match depth {
                Some(d) => spec_replace(chars@, marker, d) == out@ + replace_from(
                    chars@,
                    marker,
                    d,
                    i as int,
                ),
                None => spec_strip(chars@, marker) == out@ + strip_from(chars@, marker, i as int),
            }),
        decreases chars@.len() - i,
    {
        let ghost prev = out@;
        match match_code(chars, i, marker) {
            Some((e, code)) => {
                proof {
                    lemma_match_code_bounds(chars@, i as int, marker);
                    lemma_matched_code_wf(chars@, i as int, marker);
                }
                if let Some(d) = depth {
                    push_ansi(&mut out, &code, d);
                    proof {
                        assert(prev + (ansi_of(code, d) + replace_from(chars@, marker, d, e as int))
                            =~= out@ + replace_from(chars@, marker, d, e as int));
                    }
                }
                i = e;
            },
            None => {
                out.push(chars[i]);
                proof {
                    if let Some(d) = depth {
                        assert(prev + (seq![chars@[i as int]] + replace_from(
                            chars@,
                            marker,
                            d,
                            i + 1,
                        )) =~= out@ + replace_from(chars@, marker, d, i + 1));
                    } else {
                        assert(prev + (seq![chars@[i as int]] + strip_from(chars@, marker, i + 1))
                            =~= out@ + strip_from(chars@, marker, i + 1));
                    }
                }
                i = i + 1;
            },
        }
    }
    out
}

/// The finalize step on character vectors: append the reset when owed,
/// then unescape.
fn finalize_chars(chars: Vec<char>, marker: char, auto_reset: bool) -> (out: Vec<char>)
    ensures
        out@ == spec_finalize(chars@, marker, auto_reset),
{
    let mut v: Vec<char> = chars;
    let ghost orig = v@;
    if auto_reset && !ends_with_reset_exec(&v) {
        v.push('\u{1b}');
        v.push('[');
        v.push('0');
        v.push('m');
        proof {
            assert(v@ =~= apply_auto_reset(orig, auto_reset));
        }
    }
    unescape(v, marker)
}

/// Replaces every occurrence of the escape token with a single literal
/// marker: the trailing underscore of the token is dropped, and everything
/// else, including any character right after the token, is kept.
fn unescape(v: Vec<char>, marker: char) -> (out: Vec<char>)
    ensures
        out@ == spec_unescape(v@, marker),
{
    let mut out: Vec<char> = Vec::new();
    let mut i: usize = 0;
    while i < v.len()
        invariant
            i <= v@.len(),
            spec_unescape(v@, marker) == out@ + unescape_from(v@, marker, i as int),
        decreases v@.len() - i,
    {
        let ghost prev = out@;
        if v[i] == marker && i + 1 < v.len() && v[i + 1] == '_' {
            out.push(marker);
            proof {
                assert(prev + (seq![marker] + unescape_from(v@, marker, i + 2)) =~= out@
                    + unescape_from(v@, marker, i + 2));
            }
            i = i + 2;
        } else {
            out.push(v[i]);
            proof {
                assert(prev + (seq![v@[i as int]] + unescape_from(v@, marker, i + 1)) =~= out@
                    + unescape_from(v@, marker, i + 1));
            }
            i = i + 1;
        }
    }
    out
}

/// The converter: an active depth (or none, meaning clean-only), the
/// auto-reset flag, and the marker character that introduces codes.
pub struct Dahlia {
    /// The ANSI color precision to emit; with no depth, `convert` acts as
    /// `clean`.
    pub depth: Option<Depth>,
    /// When set, converted strings that do not already end with the full
    /// reset get one appended.
    pub auto_reset: bool,
    /// The marker character that introduces codes.
    pub marker: char,
}

impl Dahlia {
    /// A converter with the given configuration.
    pub fn new(depth: Option<Depth>, auto_reset: bool, marker: char) -> (d: Dahlia)
        ensures
            d.depth == depth,
            d.auto_reset == auto_reset,
            d.marker == marker,
    {
        Dahlia { depth, auto_reset, marker }
    }

    /// This converter, with the depth replaced.
    pub fn with_depth(self, depth: Depth) -> (d: Dahlia)
        ensures
            d == (Dahlia { depth: Some(depth), ..self }),
    {
        Dahlia { depth: Some(depth), ..self }
    }

    /// This converter, with the auto-reset flag replaced.
    pub fn with_auto_reset(self, auto_reset: bool) -> (d: Dahlia)
        ensures
            d == (Dahlia { auto_reset, ..self }),
    {
        Dahlia { auto_reset, ..self }
    }

    /// This converter, with the marker replaced: codes under the old marker
    /// become inert, codes under the new marker live.
    pub fn with_marker(self, marker: char) -> (d: Dahlia)
        ensures
            d == (Dahlia { marker, ..self }),
    {
        Dahlia { marker, ..self }
    }

    /// Replaces the depth.
    pub fn set_depth(&mut self, depth: Depth)
        ensures
            *final(self) == (Dahlia { depth: Some(depth), ..*old(self) }),
    {
        self.depth = Some(depth);
    }

    /// Replaces the auto-reset flag.
    pub fn set_auto_reset(&mut self, auto_reset: bool)
        ensures
            *final(self) == (Dahlia { auto_reset, ..*old(self) }),
    {
        self.auto_reset = auto_reset;
    }

    /// Replaces the marker: codes under the old marker become inert, codes
    /// under the new marker live.
    pub fn set_marker(&mut self, marker: char)
        ensures
            *final(self) == (Dahlia { marker, ..*old(self) }),
    {
        self.marker = marker;
    }

    /// Removes all format codes from a string, then finalizes.  Never
    /// emits ANSI for a code, at any depth; with auto-reset set, the
    /// trailing full reset is still appended.
    pub fn clean(&self, text: &str) -> (r: String)
        ensures
            r@ == spec_clean(text@, self.marker, self.auto_reset),
    {
        let chars: Vec<char> = chars_of_str(text);
        let stripped: Vec<char> = substitute(&chars, self.marker, None);
        let finalized: Vec<char> = finalize_chars(stripped, self.marker, self.auto_reset);
        string_from_chars(&finalized)
    }

    /// Formats a string: replaces every code with its ANSI fragment at the
    /// configured depth, then finalizes.  With no depth it behaves exactly
    /// as `clean`.
    pub fn convert(&self, text: &str) -> (r: String)
        ensures
            r@ == spec_convert(text@, self.marker, self.depth, self.auto_reset),
    {
        let chars: Vec<char> = chars_of_str(text);
        let substituted: Vec<char> = substitute(&chars, self.marker, self.depth);
        let finalized: Vec<char> = finalize_chars(substituted, self.marker, self.auto_reset);
        string_from_chars(&finalized)
    }

    /// A string demonstrating all the possible formatting options: every
    /// palette color applied to its own code, then every attribute applied
    /// to its own letter, converted under this configuration.
    pub fn test(&self) -> (r: String)
        ensures
            r@ == spec_convert(
                spec_demo_pattern(self.marker),
                self.marker,
                self.depth,
                self.auto_reset,
            ),
    {
        let m: char = self.marker;
        let colors_list: Vec<char> = vec![
            '0',
            '1',
            '2',
            '3',
            '4',
            '5',
            '6',
            '7',
            '8',
            '9',
            'a',
            'b',
            'c',
            'd',
            'e',
            'f',
        ];
        let attrs_list: Vec<char> = vec!['h', 'i', 'j', 'k', 'l', 'm', 'n', 'o'];
        proof {
            assert(colors_list@ =~= palette_codes());
            assert(attrs_list@ =~= attribute_codes());
        }
        let mut pattern: Vec<char> = Vec::new();
        let mut i: usize = 0;
        while i < colors_list.len()
            invariant
                i <= colors_list@.len(),
                colors_list@ == palette_codes(),
                demo_colors_from(m, 0) == pattern@ + demo_colors_from(m, i as int),
            decreases colors_list@.len() - i,
        {
            let ghost prev = pattern@;
            let c: char = colors_list[i];
            pattern.push(m);
            pattern.push(c);
            pattern.push(c);
            proof {
                assert(prev + (seq![m, c, c] + demo_colors_from(m, i + 1)) =~= pattern@
                    + demo_colors_from(m, i + 1));
            }
            i = i + 1;
        }
        let mut j: usize = 0;
        while j < attrs_list.len()
            invariant
                j <= attrs_list@.len(),
                attrs_list@ == attribute_codes(),
                demo_colors_from(m, 0) + demo_attributes_from(m, 0) == pattern@
                    + demo_attributes_from(m, j as int),
            decreases attrs_list@.len() - j,
        {
            let ghost prev = pattern@;
            let c: char = attrs_list[j];
            pattern.push(m);
            pattern.push('R');
            pattern.push(m);
            pattern.push(c);
            pattern.push(c);
            proof {
                assert(prev + (seq![m, 'R', m, c, c] + demo_attributes_from(m, j + 1)) =~= pattern@
                    + demo_attributes_from(m, j + 1));
            }
            j = j + 1;
        }
        let substituted: Vec<char> = substitute(&pattern, self.marker, self.depth);
        let finalized: Vec<char> = finalize_chars(substituted, self.marker, self.auto_reset);
        string_from_chars(&finalized)
    }

    /// Escapes all format markers in a string, so that a later conversion
    /// leaves them literal.
    pub fn escape(&self, text: &str) -> (r: String)
        ensures
            r@ == spec_escape(text@, self.marker),
    {
        let chars: Vec<char> = chars_of_str(text);
        let mut out: Vec<char> = Vec::new();
        let mut i: usize = 0;
        while i < chars.len()
            invariant
                i <= chars@.len(),
                spec_escape(chars@, self.marker) == out@ + escape_from(chars@, self.marker, i as int),
            decreases chars@.len() - i,
        {
            let ghost prev = out@;
            if chars[i] == self.marker {
                out.push(self.marker);
                out.push('_');
                proof {
                    assert(prev + (seq![self.marker, '_'] + escape_from(
                        chars@,
                        self.marker,
                        i + 1,
                    )) =~= out@ + escape_from(chars@, self.marker, i + 1));
                }
            } else {
                out.push(chars[i]);
                proof {
                    assert(prev + (seq![chars@[i as int]] + escape_from(chars@, self.marker, i + 1))
                        =~= out@ + escape_from(chars@, self.marker, i + 1));
                }
            }
            i = i + 1;
        }
        string_from_chars(&out)
    }
}

impl Default for Dahlia {
    /// The default converter: no depth, auto-reset on, marker `&`.
    fn default() -> (d: Dahlia)
        ensures
            d.depth is None,
            d.auto_reset == true,
            d.marker == '&',
    {
        Dahlia::new(None, true, '&')
    }
}

} // verus!
