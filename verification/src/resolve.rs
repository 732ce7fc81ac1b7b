//! The code resolver: turning one classified match and the active depth
//! into the literal ANSI escape fragment to substitute.

use vstd::prelude::*;

use crate::codes::{hex_digit_val, hex_digit_value, is_hex_digit, Code};
use crate::depth::Depth;
use crate::tables::{
    colors, formatter, lemma_tables_total, spec_colors, spec_colors_24bit, spec_colors_8bit,
    spec_formatter,
};
use crate::text::string_from_chars;
use vstd::arithmetic::div_mod::lemma_div_denominator;
use vstd::string::StrSliceExecFns;

verus! {

/// The escape character that opens every emitted sequence.
pub open spec fn esc() -> char {
    '\u{1b}'
}

/// The decimal digit `n`, as a character.
pub open spec fn dec_digit(n: nat) -> char
    recommends
        n < 10,
{
    if n == 0 {
        '0'
    } else if n == 1 {
        '1'
    } else if n == 2 {
        '2'
    } else if n == 3 {
        '3'
    } else if n == 4 {
        '4'
    } else if n == 5 {
        '5'
    } else if n == 6 {
        '6'
    } else if n == 7 {
        '7'
    } else if n == 8 {
        '8'
    } else {
        '9'
    }
}

/// The decimal rendering of `n`, without leading zeros (a lone `0` for 0).
pub open spec fn dec_str(n: nat) -> Seq<char>
    decreases n,
{
    if n < 10 {
        seq![dec_digit(n)]
    } else {
        dec_str(n / 10) + seq![dec_digit(n % 10)]
    }
}

/// One SGR sequence with a single numeric parameter.
pub open spec fn sgr_fragment(n: u8) -> Seq<char> {
    seq![esc(), '['] + dec_str(n as nat) + seq!['m']
}

/// The concatenation of one SGR sequence per parameter in the list.
pub open spec fn sgr_list(params: Seq<u8>) -> Seq<char>
    decreases params.len(),
{
    if params.len() == 0 {
        Seq::empty()
    } else {
        sgr_fragment(params[0]) + sgr_list(params.drop_first())
    }
}

/// A 256-color sequence: `48;5;{n}` for backgrounds, `38;5;{n}` otherwise.
pub open spec fn color_256_fragment(background: bool, n: u8) -> Seq<char> {
    seq![esc(), '['] + (if background {
        seq!['4']
    } else {
        seq!['3']
    }) + seq!['8', ';', '5', ';'] + dec_str(n as nat) + seq!['m']
}

/// A 24-bit color sequence: `48;2;{r};{g};{b}` for backgrounds, `38;2;...`
/// otherwise.
pub open spec fn rgb_fragment(background: bool, r: u8, g: u8, b: u8) -> Seq<char> {
    seq![esc(), '['] + (if background {
        seq!['4']
    } else {
        seq!['3']
    }) + seq!['8', ';', '2', ';'] + dec_str(r as nat) + seq![';'] + dec_str(g as nat) + seq![';']
        + dec_str(b as nat) + seq!['m']
}

/// A code the tables can resolve.  Every code the grammar recognizes is
/// well formed; a lookup failure would be a grammar/table mismatch, which
/// the co-designed grammar and tables rule out.
pub open spec fn code_wf(code: Code) -> bool {
    match code {
        Code::Formatter { first, second } => spec_formatter(first, second) is Some,
        Code::Color { background, code } => is_hex_digit(code),
        Code::Hex { .. } => true,
    }
}

/// The ANSI fragment that replaces a code at the given depth.
///
/// Formatter and reset codes are independent of depth and background.
/// Literal hex colors always use the 24-bit template.  Palette colors use
/// the numeric table of the depth; at `Tty` and `Low` a background color is
/// the foreground parameter plus 10, at `Medium` the background switches to
/// the `48;5;` family with the parameter unchanged, and at `High` the RGB
/// table feeds the 24-bit template.
pub open spec fn ansi_of(code: Code, depth: Depth) -> Seq<char>
    recommends
        code_wf(code),
{
    match code {
        Code::Formatter { first, second } => sgr_list(spec_formatter(first, second)->0),
        Code::Hex { background, r, g, b } => rgb_fragment(background, r, g, b),
        Code::Color { background, code } => match depth {
            Depth::High => {
                let t = spec_colors_24bit(code)->0;
                rgb_fragment(background, t.0, t.1, t.2)
            },
            Depth::Medium => color_256_fragment(background, spec_colors_8bit(code)->0),
            _ => {
                let n = spec_colors(depth, code)->0;
                sgr_fragment(
                    if background {
                        (n + 10) as u8
                    } else {
                        n
                    },
                )
            },
        },
    }
}

/// Every code the grammar recognizes is well formed.
pub proof fn lemma_matched_code_wf(s: Seq<char>, i: int, marker: char)
    ensures
        crate::codes::match_code_at(s, i, marker) matches Some(m) ==> code_wf(m.1),
{
    if 0 <= i && i < s.len() && s[i] == marker {
        if !(i + 1 < s.len() && s[i + 1] == '~') && crate::codes::match_color_or_hex(
            s,
            i + 1,
            false,
        ) is None {
            if i + 1 < s.len() && crate::codes::is_plain_formatter(s[i + 1]) {
                crate::tables::lemma_formatter_total(s[i + 1]);
            } else if i + 1 < s.len() && s[i + 1] == 'r' && i + 2 < s.len()
                && crate::codes::is_reset_target(s[i + 2]) {
                crate::tables::lemma_reset_total(s[i + 2]);
            }
        }
    }
}

/// The decimal digit `d`, as an executable character.
fn digit_char(d: u8) -> (c: char)
    requires
        d < 10,
    ensures
        c == dec_digit(d as nat),
{
    match d {
        0u8 => '0',
        1u8 => '1',
        2u8 => '2',
        3u8 => '3',
        4u8 => '4',
        5u8 => '5',
        6u8 => '6',
        7u8 => '7',
        8u8 => '8',
        _ => '9',
    }
}

/// Appends the decimal rendering of `n`.
fn push_decimal(out: &mut Vec<char>, n: u8)
    ensures
        final(out)@ == old(out)@ + dec_str(n as nat),
{
    if n >= 100 {
        proof {
            reveal_with_fuel(dec_str, 3);
            lemma_div_denominator(n as int, 10, 10);
        }
        out.push(digit_char(n / 100));
        out.push(digit_char((n / 10) % 10));
        out.push(digit_char(n % 10));
        proof {
            assert(out@ =~= old(out)@ + dec_str(n as nat));
        }
    } else if n >= 10 {
        out.push(digit_char(n / 10));
        out.push(digit_char(n % 10));
        proof {
            reveal_with_fuel(dec_str, 2);
            assert(out@ =~= old(out)@ + dec_str(n as nat));
        }
    } else {
        out.push(digit_char(n));
        proof {
            assert(out@ =~= old(out)@ + dec_str(n as nat));
        }
    }
}

/// Appends one SGR sequence with a single parameter.
fn push_sgr(out: &mut Vec<char>, n: u8)
    ensures
        final(out)@ == old(out)@ + sgr_fragment(n),
{
    out.push('\u{1b}');
    out.push('[');
    push_decimal(out, n);
    out.push('m');
    proof {
        assert(out@ =~= old(out)@ + sgr_fragment(n));
    }
}

/// Appending a parameter appends its fragment to the rendered list.
proof fn lemma_sgr_list_push(params: Seq<u8>, p: u8)
    ensures
        sgr_list(params.push(p)) == sgr_list(params) + sgr_fragment(p),
    decreases params.len(),
{
    reveal_with_fuel(sgr_list, 2);
    if params.len() == 0 {
        assert(params.push(p)[0] == p);
        assert(params.push(p).drop_first() =~= Seq::<u8>::empty());
        assert(sgr_list(params.push(p)) =~= sgr_list(params) + sgr_fragment(p));
    } else {
        lemma_sgr_list_push(params.drop_first(), p);
        assert(params.push(p)[0] == params[0]);
        assert(params.push(p).drop_first() =~= params.drop_first().push(p));
        assert(sgr_list(params.push(p)) =~= sgr_list(params) + sgr_fragment(p));
    }
}

/// Appends one SGR sequence per parameter in the list.
fn push_sgr_list(out: &mut Vec<char>, params: &Vec<u8>)
    ensures
        final(out)@ == old(out)@ + sgr_list(params@),
{
    let mut i: usize = 0;
    while i < params.len()
        invariant
            i <= params@.len(),
            out@ == old(out)@ + sgr_list(params@.take(i as int)),
        decreases params@.len() - i,
    {
        push_sgr(out, params[i]);
        proof {
            lemma_sgr_list_push(params@.take(i as int), params@[i as int]);
            assert(params@.take(i as int).push(params@[i as int]) =~= params@.take(i + 1));
        }
        i = i + 1;
    }
    proof {
        assert(params@.take(params@.len() as int) =~= params@);
    }
}

/// Appends the 24-bit color fragment.
fn push_rgb(out: &mut Vec<char>, background: bool, r: u8, g: u8, b: u8)
    ensures
        final(out)@ == old(out)@ + rgb_fragment(background, r, g, b),
{
    out.push('\u{1b}');
    out.push('[');
    if background {
        out.push('4');
    } else {
        out.push('3');
    }
    out.push('8');
    out.push(';');
    out.push('2');
    out.push(';');
    push_decimal(out, r);
    out.push(';');
    push_decimal(out, g);
    out.push(';');
    push_decimal(out, b);
    out.push('m');
    proof {
        assert(out@ =~= old(out)@ + rgb_fragment(background, r, g, b));
    }
}

/// Appends the ANSI fragment of one code at the given depth.
pub fn push_ansi(out: &mut Vec<char>, code: &Code, depth: Depth)
    requires
        code_wf(*code),
    ensures
        final(out)@ == old(out)@ + ansi_of(*code, depth),
{
    match code {
        Code::Formatter { first, second } => {
            let params: Vec<u8> = match formatter(*first, *second) {
                Some(p) => p,
                None => Vec::new(),  // unreachable: the code is well formed
            };
            push_sgr_list(out, &params);
        },
        Code::Hex { background, r, g, b } => {
            push_rgb(out, *background, *r, *g, *b);
        },
        Code::Color { background, code: nibble } => {
            proof {
                lemma_tables_total(*nibble);
            }
            match depth {
                Depth::High => {
                    let (r, g, b): (u8, u8, u8) = match crate::tables::COLORS_24BIT(*nibble) {
                        Some(t) => t,
                        None => (0, 0, 0),  // unreachable: the tables are total
                    };
                    push_rgb(out, *background, r, g, b);
                },
                Depth::Medium => {
                    let n: u8 = match crate::tables::COLORS_8BIT(*nibble) {
                        Some(n) => n,
                        None => 0,  // unreachable: the tables are total
                    };
                    out.push('\u{1b}');
                    out.push('[');
                    if *background {
                        out.push('4');
                    } else {
                        out.push('3');
                    }
                    out.push('8');
                    out.push(';');
                    out.push('5');
                    out.push(';');
                    push_decimal(out, n);
                    out.push('m');
                    proof {
                        assert(out@ =~= old(out)@ + color_256_fragment(*background, n));
                    }
                },
                _ => {
                    let n: u8 = match colors(depth, *nibble) {
                        Some(n) => n,
                        None => 0,  // unreachable: the tables are total
                    };
                    let v: u8 = if *background {
                        n + 10
                    } else {
                        n
                    };
                    push_sgr(out, v);
                },
            }
        },
    }
}

/// The ANSI fragment of one code at the given depth, as a string.
pub fn get_ansi(code: &Code, depth: Depth) -> (r: String)
    requires
        code_wf(*code),
    ensures
        r@ == ansi_of(*code, depth),
{
    let mut out: Vec<char> = Vec::new();
    push_ansi(&mut out, code, depth);
    string_from_chars(&out)
}

/// The red, green and blue bytes of a literal hex color: a 3-digit color
/// duplicates each nibble (`f` becomes `ff`), a 6-digit color pairs the
/// digits into bytes.
pub open spec fn spec_hex_rgb(s: Seq<char>) -> (u8, u8, u8)
    recommends
        s.len() == 3 || s.len() == 6,
        forall|i: int| 0 <= i < s.len() ==> is_hex_digit(s[i]),
{
    if s.len() == 3 {
        (
            (17 * hex_digit_val(s[0])) as u8,
            (17 * hex_digit_val(s[1])) as u8,
            (17 * hex_digit_val(s[2])) as u8,
        )
    } else {
        (
            (16 * hex_digit_val(s[0]) + hex_digit_val(s[1])) as u8,
            (16 * hex_digit_val(s[2]) + hex_digit_val(s[3])) as u8,
            (16 * hex_digit_val(s[4]) + hex_digit_val(s[5])) as u8,
        )
    }
}

/// The ANSI fragment of a literal hex color, always at 24-bit precision.
pub fn hex_to_ansi(hex: &str, background: bool) -> (r: String)
    requires
        hex@.len() == 3 || hex@.len() == 6,
        forall|i: int| 0 <= i < hex@.len() ==> is_hex_digit(hex@[i]),
    ensures
        ({
            let (cr, cg, cb) = spec_hex_rgb(hex@);
            r@ == rgb_fragment(background, cr, cg, cb)
        }),
{
    let n: usize = hex.unicode_len();
    let mut out: Vec<char> = Vec::new();
    if n == 3 {
        let cr: u8 = 17 * hex_digit_value(hex.get_char(0));
        let cg: u8 = 17 * hex_digit_value(hex.get_char(1));
        let cb: u8 = 17 * hex_digit_value(hex.get_char(2));
        push_rgb(&mut out, background, cr, cg, cb);
    } else {
        let cr: u8 = 16 * hex_digit_value(hex.get_char(0)) + hex_digit_value(hex.get_char(1));
        let cg: u8 = 16 * hex_digit_value(hex.get_char(2)) + hex_digit_value(hex.get_char(3));
        let cb: u8 = 16 * hex_digit_value(hex.get_char(4)) + hex_digit_value(hex.get_char(5));
        push_rgb(&mut out, background, cr, cg, cb);
    }
    string_from_chars(&out)
}

/// The concatenated SGR sequences of a formatter or reset code.
pub fn format_to_ansi(first: char, second: Option<char>) -> (r: String)
    requires
        spec_formatter(first, second) is Some,
    ensures
        r@ == sgr_list(spec_formatter(first, second)->0),
{
    let params: Vec<u8> = match formatter(first, second) {
        Some(p) => p,
        None => Vec::new(),  // unreachable: the formatter table is total here
    };
    let mut out: Vec<char> = Vec::new();
    push_sgr_list(&mut out, &params);
    string_from_chars(&out)
}

} // verus!
