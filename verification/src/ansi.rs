//! Stripping pre-existing ANSI control sequences from arbitrary text.
//!
//! This is unrelated to marker codes: it recognizes the general CSI/OSC
//! escape grammar.  A sequence opens with ESC or the one-character CSI,
//! followed by any run of introducer punctuation, and then either an
//! OSC-style body closed by BEL, or a CSI-style parameter list closed by a
//! final byte.  Alternatives are tried in a fixed order, and an alternative
//! that fails hands characters back to the one before it, so a sequence
//! ending in digits is still closed by its last digit.

use vstd::prelude::*;

use crate::text::{chars_of_str, string_from_chars};

verus! {

/// A character that opens an ANSI sequence: ESC, or the one-character CSI.
pub open spec fn is_ansi_lead(c: char) -> bool {
    c == '\u{1b}' || c == '\u{9b}'
}

/// Introducer punctuation that may follow the lead.
pub open spec fn is_intro(c: char) -> bool {
    c == '[' || c == ']' || c == '(' || c == ')' || c == '#' || c == ';' || c == '?'
}

/// A character allowed inside an OSC-style body segment.
pub open spec fn is_osc_body(c: char) -> bool {
    c == '-' || ('a' as u32 <= c as u32 && c as u32 <= 'z' as u32) || ('A' as u32 <= c as u32
        && c as u32 <= 'Z' as u32) || ('0' as u32 <= c as u32 && c as u32 <= '9' as u32) || c == '/'
        || c == '#' || c == '&' || c == '.' || c == ':' || c == '=' || c == '?' || c == '%' || c
        == '@' || c == '~' || c == '_'
}

/// A character of an OSC-style body: a segment character or the segment
/// separator `;`.
pub open spec fn is_osc_run_char(c: char) -> bool {
    is_osc_body(c) || c == ';'
}

/// An ASCII letter or digit.
pub open spec fn is_alnum(c: char) -> bool {
    ('a' as u32 <= c as u32 && c as u32 <= 'z' as u32) || ('A' as u32 <= c as u32 && c as u32
        <= 'Z' as u32) || ('0' as u32 <= c as u32 && c as u32 <= '9' as u32)
}

/// An ASCII digit.
pub open spec fn is_digit(c: char) -> bool {
    '0' as u32 <= c as u32 && c as u32 <= '9' as u32
}

/// A byte that may close a CSI-style sequence.
pub open spec fn is_csi_final(c: char) -> bool {
    is_digit(c) || ('A' as u32 <= c as u32 && c as u32 <= 'P' as u32) || ('R' as u32 <= c as u32
        && c as u32 <= 'T' as u32) || c == 'Z' || c == 'c' || ('f' as u32 <= c as u32 && c as u32
        <= 'n' as u32) || ('q' as u32 <= c as u32 && c as u32 <= 'u' as u32) || c == 'y' || c == '='
        || c == '>' || c == '<' || c == '~'
}

/// The end of the run of introducer punctuation starting at `j`.
pub open spec fn run_end_intro(s: Seq<char>, j: int) -> int
    decreases s.len() - j,
{
    if 0 <= j && j < s.len() && is_intro(s[j]) {
        run_end_intro(s, j + 1)
    } else {
        j
    }
}

/// The end of the run of OSC body characters starting at `j`.
pub open spec fn run_end_osc(s: Seq<char>, j: int) -> int
    decreases s.len() - j,
{
    if 0 <= j && j < s.len() && is_osc_run_char(s[j]) {
        run_end_osc(s, j + 1)
    } else {
        j
    }
}

/// The end of the run of letters and digits starting at `j`.
pub open spec fn run_end_alnum(s: Seq<char>, j: int) -> int
    decreases s.len() - j,
{
    if 0 <= j && j < s.len() && is_alnum(s[j]) {
        run_end_alnum(s, j + 1)
    } else {
        j
    }
}

/// The end of the run of digits starting at `j`.
pub open spec fn run_end_digit(s: Seq<char>, j: int) -> int
    decreases s.len() - j,
{
    if 0 <= j && j < s.len() && is_digit(s[j]) {
        run_end_digit(s, j + 1)
    } else {
        j
    }
}

/// An introducer run neither moves backwards nor runs past the end.
pub broadcast proof fn lemma_run_end_intro_bounds(s: Seq<char>, j: int)
    requires
        0 <= j <= s.len(),
    ensures
        j <= #[trigger] run_end_intro(s, j) <= s.len(),
    decreases s.len() - j,
{
    if j < s.len() && is_intro(s[j]) {
        lemma_run_end_intro_bounds(s, j + 1);
    }
}

/// An OSC body run neither moves backwards nor runs past the end.
pub broadcast proof fn lemma_run_end_osc_bounds(s: Seq<char>, j: int)
    requires
        0 <= j <= s.len(),
    ensures
        j <= #[trigger] run_end_osc(s, j) <= s.len(),
    decreases s.len() - j,
{
    if j < s.len() && is_osc_run_char(s[j]) {
        lemma_run_end_osc_bounds(s, j + 1);
    }
}

/// A letter-digit run neither moves backwards nor runs past the end.
pub broadcast proof fn lemma_run_end_alnum_bounds(s: Seq<char>, j: int)
    requires
        0 <= j <= s.len(),
    ensures
        j <= #[trigger] run_end_alnum(s, j) <= s.len(),
    decreases s.len() - j,
{
    if j < s.len() && is_alnum(s[j]) {
        lemma_run_end_alnum_bounds(s, j + 1);
    }
}

/// A digit run neither moves backwards nor runs past the end.
pub broadcast proof fn lemma_run_end_digit_bounds(s: Seq<char>, j: int)
    requires
        0 <= j <= s.len(),
    ensures
        j <= #[trigger] run_end_digit(s, j) <= s.len(),
    decreases s.len() - j,
{
    if j < s.len() && is_digit(s[j]) {
        lemma_run_end_digit_bounds(s, j + 1);
    }
}

/// Whether an OSC body in `[k, e)` is a valid chain of `;`-led segments:
/// it opens with `;`, and every `;` is followed, inside the body, by a
/// segment character.
pub open spec fn osc_segments_ok(s: Seq<char>, k: int, e: int) -> bool {
    forall|t: int| #![trigger s[t]] k <= t < e && s[t] == ';' ==> t + 1 < e && s[t + 1] != ';'
}

/// The OSC-style branch at `k`: an optional body, then BEL.  The body is
/// either empty, a chain of `;`-led nonempty segments, or a run of letters
/// and digits followed by `;`-led segments.  Returns the position just past
/// the closing BEL.
pub open spec fn match_osc(s: Seq<char>, k: int) -> Option<int> {
    let e = run_end_osc(s, k);
    if 0 <= e && e < s.len() && s[e] == '\u{7}' {
        if e == k {
            Some(e + 1)
        } else if s[k] == ';' && osc_segments_ok(s, k, e) {
            Some(e + 1)
        } else if is_alnum(s[k]) && (run_end_alnum(s, k) == e || (run_end_alnum(s, k) < e && s[
            run_end_alnum(s, k)
        ] == ';')) {
            Some(e + 1)
        } else {
            None
        }
    } else {
        None
    }
}

/// The position after the digit that closes a CSI parameter list whose
/// groups cannot be closed otherwise: the last digit before `p`, or just
/// before `p` when there is none.
pub open spec fn prev_digit_pos(s: Seq<char>, p: int) -> int
    decreases p,
{
    if p <= 0 || p > s.len() {
        p - 1
    } else if is_digit(s[p - 1]) {
        p - 1
    } else {
        prev_digit_pos(s, p - 1)
    }
}

/// The end of the CSI-style branch after its leading digits: consumes
/// `;`-led groups of up to four digits; a fifth digit closes the sequence,
/// as does a final byte after the groups; otherwise the sequence is closed
/// by the last digit consumed.
pub open spec fn csi_groups_end(s: Seq<char>, p: int) -> int
    decreases s.len() - p,
{
    if 0 <= p && p < s.len() && s[p] == ';' {
        let m = run_end_digit(s, p + 1) - (p + 1);
        if m >= 5 {
            p + 6
        } else if 0 <= m && p + 1 + m <= s.len() {
            csi_groups_end(s, p + 1 + m)
        } else {
            p  // unreachable: a digit run stays inside the text
        }
    } else if 0 <= p && p < s.len() && is_csi_final(s[p]) {
        p + 1
    } else {
        prev_digit_pos(s, p) + 1
    }
}

/// The CSI-style branch at `k`: an optional parameter list of up to four
/// digits and `;`-led digit groups, then a final byte.  A fifth leading
/// digit acts as the final byte, and a parameter list that no final byte
/// closes is closed by its last digit.
pub open spec fn match_csi(s: Seq<char>, k: int) -> Option<int> {
    let dn = run_end_digit(s, k) - k;
    if dn == 0 {
        if 0 <= k && k < s.len() && is_csi_final(s[k]) {
            Some(k + 1)
        } else {
            None
        }
    } else if dn >= 5 {
        Some(k + 5)
    } else {
        Some(csi_groups_end(s, k + dn))
    }
}

/// Tries the two branches at every split of the introducer run, preferring
/// the longest run and, at each split, the OSC-style branch.
pub open spec fn try_prefix(s: Seq<char>, j0: int, k: int) -> Option<int>
    decreases k - j0,
{
    match match_osc(s, k) {
        Some(e) => Some(e),
        None => match match_csi(s, k) {
            Some(e) => Some(e),
            None => if k > j0 {
                try_prefix(s, j0, k - 1)
            } else {
                None
            },
        },
    }
}

/// Matches one ANSI sequence at `i`: a lead character, a run of introducer
/// punctuation, and one of the two closing branches.  Returns the position
/// just past the sequence.
pub open spec fn match_ansi_at(s: Seq<char>, i: int) -> Option<int> {
    if 0 <= i && i < s.len() && is_ansi_lead(s[i]) {
        try_prefix(s, i + 1, run_end_intro(s, i + 1))
    } else {
        None
    }
}

/// The text from position `i` on with every ANSI sequence removed.
pub open spec fn ansi_scan_from(s: Seq<char>, i: int) -> Seq<char>
    decreases s.len() - i,
{
    if i < 0 || i >= s.len() {
        Seq::empty()
    } else {
        match match_ansi_at(s, i) {
            Some(e) => if i < e && e <= s.len() {
                ansi_scan_from(s, e)
            } else {
                seq![s[i]] + ansi_scan_from(s, i + 1)
            },
            None => seq![s[i]] + ansi_scan_from(s, i + 1),
        }
    }
}

/// The text with every ANSI sequence removed.
pub open spec fn spec_clean_ansi(s: Seq<char>) -> Seq<char> {
    ansi_scan_from(s, 0)
}

/// The closing digit found for an unclosed parameter list lies in front of
/// `p`, and no earlier than the nearest digit.
proof fn lemma_prev_digit_pos_bounds(s: Seq<char>, p: int, lo: int)
    requires
        0 <= lo < p <= s.len(),
        is_digit(s[lo]),
    ensures
        lo <= prev_digit_pos(s, p) <= p - 1,
    decreases p,
{
    if p - 1 > lo && !is_digit(s[p - 1]) {
        lemma_prev_digit_pos_bounds(s, p - 1, lo);
    }
}

/// The CSI group scan never moves backwards past the digit in front of it,
/// and never runs past the end.
proof fn lemma_csi_groups_end_bounds(s: Seq<char>, p: int, lo: int)
    requires
        0 <= lo < p <= s.len(),
        is_digit(s[lo]),
    ensures
        lo + 1 <= csi_groups_end(s, p) <= s.len(),
    decreases s.len() - p,
{
    if 0 <= p && p < s.len() && s[p] == ';' {
        lemma_run_end_digit_bounds(s, p + 1);
        let m = run_end_digit(s, p + 1) - (p + 1);
        if m < 5 {
            lemma_csi_groups_end_bounds(s, p + 1 + m, lo);
        }
    } else if 0 <= p && p < s.len() && is_csi_final(s[p]) {
    } else {
        lemma_prev_digit_pos_bounds(s, p, lo);
    }
}

/// Either branch, when it matches, ends inside the text and past `k`.
proof fn lemma_branch_bounds(s: Seq<char>, k: int)
    requires
        0 <= k <= s.len(),
    ensures
        match_osc(s, k) matches Some(e) ==> k + 1 <= e <= s.len(),
        match_csi(s, k) matches Some(e) ==> k + 1 <= e <= s.len(),
{
    lemma_run_end_digit_bounds(s, k);
    lemma_run_end_osc_bounds(s, k);
    let dn = run_end_digit(s, k) - k;
    if dn >= 1 && dn <= 4 {
        lemma_csi_groups_end_bounds(s, k + dn, k);
    }
}

/// A prefix search that succeeds ends inside the text and past the lead.
proof fn lemma_try_prefix_bounds(s: Seq<char>, j0: int, k: int)
    requires
        0 <= j0 <= k <= s.len(),
    ensures
        try_prefix(s, j0, k) matches Some(e) ==> j0 + 1 <= e <= s.len(),
    decreases k - j0,
{
    lemma_branch_bounds(s, k);
    if match_osc(s, k) is None && match_csi(s, k) is None && k > j0 {
        lemma_try_prefix_bounds(s, j0, k - 1);
    }
}

/// A match always consumes the lead and at least one more character, and
/// never runs past the end of the text.
pub proof fn lemma_match_ansi_bounds(s: Seq<char>, i: int)
    ensures
        match_ansi_at(s, i) matches Some(e) ==> i + 2 <= e <= s.len(),
{
    if 0 <= i && i < s.len() && is_ansi_lead(s[i]) {
        lemma_run_end_intro_bounds(s, i + 1);
        lemma_try_prefix_bounds(s, i + 1, run_end_intro(s, i + 1));
    }
}

/// Exec mirror of `is_intro`.
fn intro(c: char) -> (r: bool)
    ensures
        r == is_intro(c),
{
    c == '[' || c == ']' || c == '(' || c == ')' || c == '#' || c == ';' || c == '?'
}

/// Exec mirror of `is_osc_run_char`.
fn osc_run_char(c: char) -> (r: bool)
    ensures
        r == is_osc_run_char(c),
{
    let u: u32 = c as u32;
    c == '-' || ('a' as u32 <= u && u <= 'z' as u32) || ('A' as u32 <= u && u <= 'Z' as u32) || (
    '0' as u32 <= u && u <= '9' as u32) || c == '/' || c == '#' || c == '&' || c == '.' || c == ':'
        || c == '=' || c == '?' || c == '%' || c == '@' || c == '~' || c == '_' || c == ';'
}

/// Exec mirror of `is_alnum`.
fn alnum(c: char) -> (r: bool)
    ensures
        r == is_alnum(c),
{
    let u: u32 = c as u32;
    ('a' as u32 <= u && u <= 'z' as u32) || ('A' as u32 <= u && u <= 'Z' as u32) || ('0' as u32
        <= u && u <= '9' as u32)
}

/// Exec mirror of `is_digit`.
fn digit(c: char) -> (r: bool)
    ensures
        r == is_digit(c),
{
    let u: u32 = c as u32;
    '0' as u32 <= u && u <= '9' as u32
}

/// Exec mirror of `is_csi_final`.
fn csi_final(c: char) -> (r: bool)
    ensures
        r == is_csi_final(c),
{
    let u: u32 = c as u32;
    ('0' as u32 <= u && u <= '9' as u32) || ('A' as u32 <= u && u <= 'P' as u32) || ('R' as u32
        <= u && u <= 'T' as u32) || c == 'Z' || c == 'c' || ('f' as u32 <= u && u <= 'n' as u32)
        || ('q' as u32 <= u && u <= 'u' as u32) || c == 'y' || c == '=' || c == '>' || c == '<' || c
        == '~'
}

/// Exec mirror of `run_end_intro`.
fn intro_run(chars: &Vec<char>, j: usize) -> (e: usize)
    requires
        j <= chars@.len(),
    ensures
        e as int == run_end_intro(chars@, j as int),
        j <= e <= chars@.len(),
{
    let mut cur: usize = j;
    while cur < chars.len() && intro(chars[cur])
        invariant
            j <= cur <= chars@.len(),
            run_end_intro(chars@, j as int) == run_end_intro(chars@, cur as int),
        decreases chars@.len() - cur,
    {
        cur = cur + 1;
    }
    cur
}

/// Exec mirror of `run_end_osc`.
fn osc_run(chars: &Vec<char>, j: usize) -> (e: usize)
    requires
        j <= chars@.len(),
    ensures
        e as int == run_end_osc(chars@, j as int),
        j <= e <= chars@.len(),
{
    let mut cur: usize = j;
    while cur < chars.len() && osc_run_char(chars[cur])
        invariant
            j <= cur <= chars@.len(),
            run_end_osc(chars@, j as int) == run_end_osc(chars@, cur as int),
        decreases chars@.len() - cur,
    {
        cur = cur + 1;
    }
    cur
}

/// Exec mirror of `run_end_alnum`.
fn alnum_run(chars: &Vec<char>, j: usize) -> (e: usize)
    requires
        j <= chars@.len(),
    ensures
        e as int == run_end_alnum(chars@, j as int),
        j <= e <= chars@.len(),
{
    let mut cur: usize = j;
    while cur < chars.len() && alnum(chars[cur])
        invariant
            j <= cur <= chars@.len(),
            run_end_alnum(chars@, j as int) == run_end_alnum(chars@, cur as int),
        decreases chars@.len() - cur,
    {
        cur = cur + 1;
    }
    cur
}

/// Exec mirror of `run_end_digit`.
fn digit_run(chars: &Vec<char>, j: usize) -> (e: usize)
    requires
        j <= chars@.len(),
    ensures
        e as int == run_end_digit(chars@, j as int),
        j <= e <= chars@.len(),
{
    let mut cur: usize = j;
    while cur < chars.len() && digit(chars[cur])
        invariant
            j <= cur <= chars@.len(),
            run_end_digit(chars@, j as int) == run_end_digit(chars@, cur as int),
        decreases chars@.len() - cur,
    {
        cur = cur + 1;
    }
    cur
}

/// Exec check of `osc_segments_ok` over `[k, e)`.
fn osc_segments_check(chars: &Vec<char>, k: usize, e: usize) -> (r: bool)
    requires
        k <= e <= chars@.len(),
    ensures
        r == osc_segments_ok(chars@, k as int, e as int),
{
    let mut t: usize = k;
    while t < e
        invariant
            k <= t <= e <= chars@.len(),
            forall|x: int|
                #![trigger chars@[x]]
                k <= x < t && chars@[x] == ';' ==> x + 1 < e && chars@[x + 1] != ';',
        decreases e - t,
    {
        if chars[t] == ';' {
            if t + 1 >= e || chars[t + 1] == ';' {
                return false;
            }
        }
        t = t + 1;
    }
    true
}

/// Exec mirror of `match_osc`.
fn match_osc_exec(chars: &Vec<char>, k: usize) -> (r: Option<usize>)
    requires
        k <= chars@.len(),
    ensures
        (match r {
            Some(e) => match_osc(chars@, k as int) == Some(e as int),
            None => match_osc(chars@, k as int) is None,
        }),
{
    let e: usize = osc_run(chars, k);
    if e < chars.len() && chars[e] == '\u{7}' {
        if e == k {
            Some(e + 1)
        } else if chars[k] == ';' {
            if osc_segments_check(chars, k, e) {
                Some(e + 1)
            } else {
                None
            }
        } else if alnum(chars[k]) {
            let ra: usize = alnum_run(chars, k);
            if ra == e || (ra < e && chars[ra] == ';') {
                Some(e + 1)
            } else {
                None
            }
        } else {
            None
        }
    } else {
        None
    }
}

/// Exec mirror of `prev_digit_pos`, shifted one past the digit found.
fn prev_digit_end(chars: &Vec<char>, p: usize) -> (r: usize)
    requires
        p <= chars@.len(),
    ensures
        r as int == prev_digit_pos(chars@, p as int) + 1,
        r <= p,
{
    let mut q: usize = p;
    while q > 0 && !digit(chars[q - 1])
        invariant
            q <= p <= chars@.len(),
            prev_digit_pos(chars@, p as int) == prev_digit_pos(chars@, q as int),
        decreases q,
    {
        q = q - 1;
    }
    q
}

/// Exec mirror of `csi_groups_end`.
fn csi_groups(chars: &Vec<char>, p: usize) -> (r: usize)
    requires
        p <= chars@.len(),
    ensures
        r as int == csi_groups_end(chars@, p as int),
        r <= chars@.len(),
{
    let mut q: usize = p;
    loop
        invariant
            p <= q <= chars@.len(),
            csi_groups_end(chars@, p as int) == csi_groups_end(chars@, q as int),
        decreases chars@.len() - q,
    {
        if q < chars.len() && chars[q] == ';' {
            let de: usize = digit_run(chars, q + 1);
            let m: usize = de - (q + 1);
            if m >= 5 {
                return q + 6;
            }
            q = q + 1 + m;
        } else if q < chars.len() && csi_final(chars[q]) {
            return q + 1;
        } else {
            return prev_digit_end(chars, q);
        }
    }
}

/// Exec mirror of `match_csi`.
fn match_csi_exec(chars: &Vec<char>, k: usize) -> (r: Option<usize>)
    requires
        k <= chars@.len(),
    ensures
        (match r {
            Some(e) => match_csi(chars@, k as int) == Some(e as int),
            None => match_csi(chars@, k as int) is None,
        }),
{
    let de: usize = digit_run(chars, k);
    let dn: usize = de - k;
    if dn == 0 {
        if k < chars.len() && csi_final(chars[k]) {
            Some(k + 1)
        } else {
            None
        }
    } else if dn >= 5 {
        Some(k + 5)
    } else {
        Some(csi_groups(chars, k + dn))
    }
}

/// Exec matcher for one full ANSI sequence; mirrors `match_ansi_at`.
fn match_ansi(chars: &Vec<char>, i: usize) -> (r: Option<usize>)
    ensures
        (match r {
            Some(e) => match_ansi_at(chars@, i as int) == Some(e as int),
            None => match_ansi_at(chars@, i as int) is None,
        }),
{
    let n: usize = chars.len();
    if i < n && (chars[i] == '\u{1b}' || chars[i] == '\u{9b}') {
        let j0: usize = i + 1;
        let g: usize = intro_run(chars, j0);
        let mut k: usize = g;
        loop
            invariant
                j0 <= k <= g <= chars@.len(),
                i as int + 1 == j0,
                i < chars@.len(),
                is_ansi_lead(chars@[i as int]),
                g as int == run_end_intro(chars@, j0 as int),
                try_prefix(chars@, j0 as int, g as int) == try_prefix(chars@, j0 as int, k as int),
            decreases k,
        {
            match match_osc_exec(chars, k) {
                Some(e) => {
                    return Some(e);
                },
                None => {},
            }
            match match_csi_exec(chars, k) {
                Some(e) => {
                    return Some(e);
                },
                None => {},
            }
            if k > j0 {
                k = k - 1;
            } else {
                return None;
            }
        }
    } else {
        None
    }
}

/// Removes all ANSI sequences from a string.
pub fn clean_ansi(text: &str) -> (r: String)
    ensures
        r@ == spec_clean_ansi(text@),
{
    let chars: Vec<char> = chars_of_str(text);
    let mut out: Vec<char> = Vec::new();
    let mut i: usize = 0;
    while i < chars.len()
        invariant
            i <= chars@.len(),
            spec_clean_ansi(chars@) == out@ + ansi_scan_from(chars@, i as int),
        decreases chars@.len() - i,
    {
        let ghost prev = out@;
        match match_ansi(&chars, i) {
            Some(e) => {
                proof {
                    lemma_match_ansi_bounds(chars@, i as int);
                }
                i = e;
            },
            None => {
                out.push(chars[i]);
                proof {
                    assert(prev + (seq![chars@[i as int]] + ansi_scan_from(chars@, i + 1)) =~= out@
                        + ansi_scan_from(chars@, i + 1));
                }
                i = i + 1;
            },
        }
    }
    string_from_chars(&out)
}

} // verus!
