//! Palette and attribute tables: immutable per-depth lookup data mapping a
//! single-character color code to a depth-appropriate ANSI parameter, plus
//! the fixed mappings from attribute letters and reset letters to SGR
//! parameters.  The tables are hand-curated constants; the grammar in
//! [`crate::codes`] recognizes exactly the codes present here.

use vstd::prelude::*;

use crate::depth::Depth;

verus! {

/// SGR parameters of a formatter or reset code: `first` is the code letter
/// (or `r` with `second` the reset target).  The color reset `rc` yields two
/// parameters; every other code yields one.
pub open spec fn spec_formatter(first: char, second: Option<char>) -> Option<Seq<u8>> {
    match second {
        None => match first {
            'h' => Some(seq![8u8]),  // hidden
            'i' => Some(seq![7u8]),  // inverse
            'j' => Some(seq![2u8]),  // dim
            'k' => Some(seq![5u8]),  // blinking
            'l' => Some(seq![1u8]),  // bold
            'm' => Some(seq![9u8]),  // strikethrough
            'n' => Some(seq![4u8]),  // underline
            'o' => Some(seq![3u8]),  // italic
            'R' => Some(seq![0u8]),  // full reset
            _ => None,
        },
        Some(t) => if first == 'r' {
            match t {
                'f' => Some(seq![39u8]),  // reset foreground
                'b' => Some(seq![49u8]),  // reset background
                'c' => Some(seq![39u8, 49u8]),  // reset color
                'h' => Some(seq![28u8]),  // reset hidden
                'i' => Some(seq![27u8]),  // reset inverse
                'j' => Some(seq![22u8]),  // reset dim
                'k' => Some(seq![25u8]),  // reset blinking
                'l' => Some(seq![22u8]),  // reset bold
                'm' => Some(seq![29u8]),  // reset strikethrough
                'n' => Some(seq![24u8]),  // reset underline
                'o' => Some(seq![23u8]),  // reset italic
                _ => None,
            }
        } else {
            None
        },
    }
}

/// 3-bit palette: the eight classic SGR foreground parameters, with the
/// bright half of the palette folded onto the classic colors.
pub open spec fn spec_colors_3bit(code: char) -> Option<u8> {
    match code {
        '0' => Some(30u8),
        '1' => Some(34u8),
        '2' => Some(32u8),
        '3' => Some(36u8),
        '4' => Some(31u8),
        '5' => Some(35u8),
        '6' => Some(33u8),
        '7' => Some(37u8),
        '8' => Some(30u8),
        '9' => Some(34u8),
        'a' => Some(32u8),
        'b' => Some(34u8),
        'c' => Some(31u8),
        'd' => Some(35u8),
        'e' => Some(33u8),
        'f' => Some(37u8),
        _ => None,
    }
}

/// 4-bit palette: classic SGR parameters for `0`..`7`, bright-family
/// parameters for `8`..`f`.
pub open spec fn spec_colors_4bit(code: char) -> Option<u8> {
    match code {
        '0' => Some(30u8),
        '1' => Some(34u8),
        '2' => Some(32u8),
        '3' => Some(36u8),
        '4' => Some(31u8),
        '5' => Some(35u8),
        '6' => Some(33u8),
        '7' => Some(37u8),
        '8' => Some(90u8),
        '9' => Some(94u8),
        'a' => Some(92u8),
        'b' => Some(96u8),
        'c' => Some(91u8),
        'd' => Some(95u8),
        'e' => Some(93u8),
        'f' => Some(97u8),
        _ => None,
    }
}

/// 8-bit palette: indices into the 256-color table approximating the
/// sixteen palette entries.
pub open spec fn spec_colors_8bit(code: char) -> Option<u8> {
    match code {
        '0' => Some(0u8),
        '1' => Some(19u8),
        '2' => Some(34u8),
        '3' => Some(37u8),
        '4' => Some(124u8),
        '5' => Some(127u8),
        '6' => Some(214u8),
        '7' => Some(248u8),
        '8' => Some(240u8),
        '9' => Some(147u8),
        'a' => Some(83u8),
        'b' => Some(87u8),
        'c' => Some(203u8),
        'd' => Some(207u8),
        'e' => Some(227u8),
        'f' => Some(15u8),
        _ => None,
    }
}

/// 24-bit palette: the RGB triple of each palette entry.
pub open spec fn spec_colors_24bit(code: char) -> Option<(u8, u8, u8)> {
    match code {
        '0' => Some((0u8, 0u8, 0u8)),
        '1' => Some((0u8, 0u8, 170u8)),
        '2' => Some((0u8, 170u8, 0u8)),
        '3' => Some((0u8, 170u8, 170u8)),
        '4' => Some((170u8, 0u8, 0u8)),
        '5' => Some((170u8, 0u8, 170u8)),
        '6' => Some((255u8, 170u8, 0u8)),
        '7' => Some((170u8, 170u8, 170u8)),
        '8' => Some((85u8, 85u8, 85u8)),
        '9' => Some((85u8, 85u8, 255u8)),
        'a' => Some((85u8, 255u8, 85u8)),
        'b' => Some((85u8, 255u8, 255u8)),
        'c' => Some((255u8, 85u8, 85u8)),
        'd' => Some((255u8, 85u8, 255u8)),
        'e' => Some((255u8, 255u8, 85u8)),
        'f' => Some((255u8, 255u8, 255u8)),
        _ => None,
    }
}

/// The numeric color table of a depth, or nothing at `High`, where colors
/// are rendered from the RGB table instead.
pub open spec fn spec_colors(depth: Depth, code: char) -> Option<u8> {
    match depth {
        Depth::Tty => spec_colors_3bit(code),
        Depth::Low => spec_colors_4bit(code),
        Depth::Medium => spec_colors_8bit(code),
        Depth::High => None,
    }
}

/// SGR parameters of a formatter or reset code, as a list; nothing for a
/// pair of letters outside the table.
pub fn formatter(first: char, second: Option<char>) -> (r: Option<Vec<u8>>)
    ensures
        (match r {
            Some(v) => spec_formatter(first, second) == Some(v@),
            None => spec_formatter(first, second) is None,
        }),
{
    match second {
        None => match first {
            'h' => Some(vec![8u8]),
            'i' => Some(vec![7u8]),
            'j' => Some(vec![2u8]),
            'k' => Some(vec![5u8]),
            'l' => Some(vec![1u8]),
            'm' => Some(vec![9u8]),
            'n' => Some(vec![4u8]),
            'o' => Some(vec![3u8]),
            'R' => Some(vec![0u8]),
            _ => None,
        },
        Some(t) => if first == 'r' {
            match t {
                'f' => Some(vec![39u8]),
                'b' => Some(vec![49u8]),
                'c' => Some(vec![39u8, 49u8]),
                'h' => Some(vec![28u8]),
                'i' => Some(vec![27u8]),
                'j' => Some(vec![22u8]),
                'k' => Some(vec![25u8]),
                'l' => Some(vec![22u8]),
                'm' => Some(vec![29u8]),
                'n' => Some(vec![24u8]),
                'o' => Some(vec![23u8]),
                _ => None,
            }
        } else {
            None
        },
    }
}

/// The 3-bit table, as executable lookup.
#[allow(non_snake_case)]
pub fn COLORS_3BIT(code: char) -> (r: Option<u8>)
    ensures
        r == spec_colors_3bit(code),
{
    match code {
        '0' => Some(30u8),
        '1' => Some(34u8),
        '2' => Some(32u8),
        '3' => Some(36u8),
        '4' => Some(31u8),
        '5' => Some(35u8),
        '6' => Some(33u8),
        '7' => Some(37u8),
        '8' => Some(30u8),
        '9' => Some(34u8),
        'a' => Some(32u8),
        'b' => Some(34u8),
        'c' => Some(31u8),
        'd' => Some(35u8),
        'e' => Some(33u8),
        'f' => Some(37u8),
        _ => None,
    }
}

/// The 4-bit table, as executable lookup.
#[allow(non_snake_case)]
pub fn COLORS_4BIT(code: char) -> (r: Option<u8>)
    ensures
        r == spec_colors_4bit(code),
{
    match code {
        '0' => Some(30u8),
        '1' => Some(34u8),
        '2' => Some(32u8),
        '3' => Some(36u8),
        '4' => Some(31u8),
        '5' => Some(35u8),
        '6' => Some(33u8),
        '7' => Some(37u8),
        '8' => Some(90u8),
        '9' => Some(94u8),
        'a' => Some(92u8),
        'b' => Some(96u8),
        'c' => Some(91u8),
        'd' => Some(95u8),
        'e' => Some(93u8),
        'f' => Some(97u8),
        _ => None,
    }
}

/// The 8-bit table, as executable lookup.
#[allow(non_snake_case)]
pub fn COLORS_8BIT(code: char) -> (r: Option<u8>)
    ensures
        r == spec_colors_8bit(code),
{
    match code {
        '0' => Some(0u8),
        '1' => Some(19u8),
        '2' => Some(34u8),
        '3' => Some(37u8),
        '4' => Some(124u8),
        '5' => Some(127u8),
        '6' => Some(214u8),
        '7' => Some(248u8),
        '8' => Some(240u8),
        '9' => Some(147u8),
        'a' => Some(83u8),
        'b' => Some(87u8),
        'c' => Some(203u8),
        'd' => Some(207u8),
        'e' => Some(227u8),
        'f' => Some(15u8),
        _ => None,
    }
}

/// The 24-bit table, as executable lookup.
#[allow(non_snake_case)]
pub fn COLORS_24BIT(code: char) -> (r: Option<(u8, u8, u8)>)
    ensures
        r == spec_colors_24bit(code),
{
    match code {
        '0' => Some((0u8, 0u8, 0u8)),
        '1' => Some((0u8, 0u8, 170u8)),
        '2' => Some((0u8, 170u8, 0u8)),
        '3' => Some((0u8, 170u8, 170u8)),
        '4' => Some((170u8, 0u8, 0u8)),
        '5' => Some((170u8, 0u8, 170u8)),
        '6' => Some((255u8, 170u8, 0u8)),
        '7' => Some((170u8, 170u8, 170u8)),
        '8' => Some((85u8, 85u8, 85u8)),
        '9' => Some((85u8, 85u8, 255u8)),
        'a' => Some((85u8, 255u8, 85u8)),
        'b' => Some((85u8, 255u8, 255u8)),
        'c' => Some((255u8, 85u8, 85u8)),
        'd' => Some((255u8, 85u8, 255u8)),
        'e' => Some((255u8, 255u8, 85u8)),
        'f' => Some((255u8, 255u8, 255u8)),
        _ => None,
    }
}

/// The numeric table of the given depth applied to `code`; nothing at
/// `High`, whose colors come from `COLORS_24BIT`.
pub fn colors(depth: Depth, code: char) -> (r: Option<u8>)
    ensures
        r == spec_colors(depth, code),
{
    match depth {
        Depth::Tty => COLORS_3BIT(code),
        Depth::Low => COLORS_4BIT(code),
        Depth::Medium => COLORS_8BIT(code),
        Depth::High => None,
    }
}

/// The foreground template of a depth, with `{}` (or `{r}`, `{g}`, `{b}`
/// at `High`) standing for the parameters.
pub open spec fn spec_fmt_template(depth: Depth) -> Seq<char> {
    match depth {
        Depth::Tty => seq!['\u{1b}', '[', '{', '}', 'm'],
        Depth::Low => seq!['\u{1b}', '[', '{', '}', 'm'],
        Depth::Medium => seq!['\u{1b}', '[', '3', '8', ';', '5', ';', '{', '}', 'm'],
        Depth::High => seq![
            '\u{1b}',
            '[',
            '3',
            '8',
            ';',
            '2',
            ';',
            '{',
            'r',
            '}',
            ';',
            '{',
            'g',
            '}',
            ';',
            '{',
            'b',
            '}',
            'm',
        ],
    }
}

/// The background template of a depth: the same shape as the foreground
/// template, in the `48;` family at `Medium` and `High`.
pub open spec fn spec_fmt_background_template(depth: Depth) -> Seq<char> {
    match depth {
        Depth::Tty => seq!['\u{1b}', '[', '{', '}', 'm'],
        Depth::Low => seq!['\u{1b}', '[', '{', '}', 'm'],
        Depth::Medium => seq!['\u{1b}', '[', '4', '8', ';', '5', ';', '{', '}', 'm'],
        Depth::High => seq![
            '\u{1b}',
            '[',
            '4',
            '8',
            ';',
            '2',
            ';',
            '{',
            'r',
            '}',
            ';',
            '{',
            'g',
            '}',
            ';',
            '{',
            'b',
            '}',
            'm',
        ],
    }
}

/// The foreground template string of a depth.
pub fn fmt_template(depth: Depth) -> (r: &'static str)
    ensures
        r@ == spec_fmt_template(depth),
{
    match depth {
        Depth::Tty => {
            let t = "\x1b[{}m";
            proof {
                reveal_strlit("\x1b[{}m");
                assert(t@ =~= spec_fmt_template(Depth::Tty));
            }
            t
        },
        Depth::Low => {
            let t = "\x1b[{}m";
            proof {
                reveal_strlit("\x1b[{}m");
                assert(t@ =~= spec_fmt_template(Depth::Low));
            }
            t
        },
        Depth::Medium => {
            let t = "\x1b[38;5;{}m";
            proof {
                reveal_strlit("\x1b[38;5;{}m");
                assert(t@ =~= spec_fmt_template(Depth::Medium));
            }
            t
        },
        Depth::High => {
            let t = "\x1b[38;2;{r};{g};{b}m";
            proof {
                reveal_strlit("\x1b[38;2;{r};{g};{b}m");
                assert(t@ =~= spec_fmt_template(Depth::High));
            }
            t
        },
    }
}

/// The background template string of a depth.
pub fn fmt_background_template(depth: Depth) -> (r: &'static str)
    ensures
        r@ == spec_fmt_background_template(depth),
{
    match depth {
        Depth::Tty => {
            let t = "\x1b[{}m";
            proof {
                reveal_strlit("\x1b[{}m");
                assert(t@ =~= spec_fmt_background_template(Depth::Tty));
            }
            t
        },
        Depth::Low => {
            let t = "\x1b[{}m";
            proof {
                reveal_strlit("\x1b[{}m");
                assert(t@ =~= spec_fmt_background_template(Depth::Low));
            }
            t
        },
        Depth::Medium => {
            let t = "\x1b[48;5;{}m";
            proof {
                reveal_strlit("\x1b[48;5;{}m");
                assert(t@ =~= spec_fmt_background_template(Depth::Medium));
            }
            t
        },
        Depth::High => {
            let t = "\x1b[48;2;{r};{g};{b}m";
            proof {
                reveal_strlit("\x1b[48;2;{r};{g};{b}m");
                assert(t@ =~= spec_fmt_background_template(Depth::High));
            }
            t
        },
    }
}

/// Every plain formatter letter has an entry in the formatter table.
pub proof fn lemma_formatter_total(first: char)
    requires
        crate::codes::is_plain_formatter(first),
    ensures
        spec_formatter(first, None) is Some,
{
}

/// Every reset target letter has an entry in the formatter table.
pub proof fn lemma_reset_total(target: char)
    requires
        crate::codes::is_reset_target(target),
    ensures
        spec_formatter('r', Some(target)) is Some,
{
}

/// Every palette code has an entry in every numeric table, and each 3-bit
/// and 4-bit parameter lies in the classic SGR color range, where adding
/// the background offset stays a valid parameter.
pub proof fn lemma_tables_total(code: char)
    requires
        crate::codes::is_hex_digit(code),
    ensures
        spec_colors_3bit(code) is Some,
        spec_colors_4bit(code) is Some,
        spec_colors_8bit(code) is Some,
        spec_colors_24bit(code) is Some,
        30 <= spec_colors_3bit(code)->0 <= 37,
        30 <= spec_colors_4bit(code)->0 <= 97,
{
}

} // verus!
