//! Color precision tiers.

use vstd::prelude::*;

use crate::text::chars_of_str;

verus! {

/// Supported color depths, ordered from coarsest to finest.
#[derive(Debug, PartialEq, Eq, Structural, Copy, Clone)]
pub enum Depth {
    /// 3-bit color: the eight classic terminal colors.
    Tty,
    /// 4-bit color: the classic colors plus their bright variants.
    Low,
    /// 8-bit color: the 256-color palette.
    Medium,
    /// 24-bit color (true color).
    High,
}

/// Outcome of asking the environment for a supported color depth.
///
/// Either a color depth, or `NoColor` for dumb terminals.
#[derive(Debug, PartialEq, Eq, Structural, Copy, Clone)]
pub enum InferrenceResult {
    Color(Depth),
    NoColor,
}

/// The numeric weight of a depth: the number of bits of color precision.
pub open spec fn spec_weight(d: Depth) -> u8 {
    match d {
        Depth::Tty => 3,
        Depth::Low => 4,
        Depth::Medium => 8,
        Depth::High => 24,
    }
}

impl Depth {
    /// The number of bits of color precision this depth stands for.
    pub fn weight(self) -> (w: u8)
        ensures
            w == spec_weight(self),
    {
        match self {
            Depth::Tty => 3,
            Depth::Low => 4,
            Depth::Medium => 8,
            Depth::High => 24,
        }
    }

    /// The depth with the given numeric weight, if there is one.
    pub fn try_from_weight(value: u8) -> (r: Option<Depth>)
        ensures
            r == spec_depth_of_weight(value),
    {
        match value {
            3u8 => Some(Depth::Tty),
            4u8 => Some(Depth::Low),
            8u8 => Some(Depth::Medium),
            24u8 => Some(Depth::High),
            _ => None,
        }
    }

    /// The depth the given name or numeral selects, without regard to
    /// ASCII case: `3`/`tty`, `4`/`low`, `8`/`medium`, `24`/`high`.
    pub fn try_from_name(value: &str) -> (r: Option<Depth>)
        ensures
            r == spec_depth_of_name(value@),
    {
        let chars: Vec<char> = chars_of_str(value);
        let mut low: Vec<char> = Vec::new();
        let mut i: usize = 0;
        while i < chars.len()
            invariant
                i <= chars@.len(),
                low@.len() == i,
                forall|j: int| 0 <= j < i ==> low@[j] == lower_char(chars@[j]),
            decreases chars@.len() - i,
        {
            low.push(to_lower(chars[i]));
            i = i + 1;
        }
        proof {
            assert(low@ =~= chars@.map_values(|c: char| lower_char(c)));
        }
        let ghost t = low@;
        let n: usize = low.len();
        if n == 1 {
            let c: char = low[0];
            if c == '3' {
                proof {
                    assert(t =~= seq!['3']);
                }
                Some(Depth::Tty)
            } else if c == '4' {
                proof {
                    assert(t =~= seq!['4']);
                }
                Some(Depth::Low)
            } else if c == '8' {
                proof {
                    assert(t =~= seq!['8']);
                }
                Some(Depth::Medium)
            } else {
                proof {
                    lemma_literal_mismatch(t, seq!['3'], 0);
                    lemma_literal_mismatch(t, seq!['4'], 0);
                    lemma_literal_mismatch(t, seq!['8'], 0);
                }
                None
            }
        } else if n == 2 {
            if low[0] == '2' && low[1] == '4' {
                proof {
                    assert(t =~= seq!['2', '4']);
                }
                Some(Depth::High)
            } else {
                proof {
                    if low[0] != '2' {
                        lemma_literal_mismatch(t, seq!['2', '4'], 0);
                    } else {
                        lemma_literal_mismatch(t, seq!['2', '4'], 1);
                    }
                }
                None
            }
        } else if n == 3 {
            if low[0] == 't' && low[1] == 't' && low[2] == 'y' {
                proof {
                    assert(t =~= seq!['t', 't', 'y']);
                }
                Some(Depth::Tty)
            } else if low[0] == 'l' && low[1] == 'o' && low[2] == 'w' {
                proof {
                    assert(t =~= seq!['l', 'o', 'w']);
                }
                Some(Depth::Low)
            } else {
                proof {
                    lemma_not_this_name(t, seq!['t', 't', 'y']);
                    lemma_not_this_name(t, seq!['l', 'o', 'w']);
                }
                None
            }
        } else if n == 4 {
            if low[0] == 'h' && low[1] == 'i' && low[2] == 'g' && low[3] == 'h' {
                proof {
                    assert(t =~= seq!['h', 'i', 'g', 'h']);
                }
                Some(Depth::High)
            } else {
                proof {
                    lemma_not_this_name(t, seq!['h', 'i', 'g', 'h']);
                }
                None
            }
        } else if n == 6 {
            if low[0] == 'm' && low[1] == 'e' && low[2] == 'd' && low[3] == 'i' && low[4] == 'u'
                && low[5] == 'm' {
                proof {
                    assert(t =~= seq!['m', 'e', 'd', 'i', 'u', 'm']);
                }
                Some(Depth::Medium)
            } else {
                proof {
                    lemma_not_this_name(t, seq!['m', 'e', 'd', 'i', 'u', 'm']);
                }
                None
            }
        } else {
            None
        }
    }
}

/// Exec mirror of `lower_char`.
fn to_lower(c: char) -> (r: char)
    ensures
        r == lower_char(c),
{
    let u: u32 = c as u32;
    if 'A' as u32 <= u && u <= 'Z' as u32 {
        ((u + 32) as u8) as char
    } else {
        c
    }
}

/// Two sequences differing at one position differ.
proof fn lemma_literal_mismatch(t: Seq<char>, lit: Seq<char>, at: int)
    requires
        0 <= at < lit.len(),
        t.len() == lit.len() ==> t[at] != lit[at],
    ensures
        t != lit,
{
    if t == lit {
        assert(t[at] == lit[at]);
    }
}

/// A sequence of the same length as a name, differing from it somewhere,
/// is not that name.
proof fn lemma_not_this_name(t: Seq<char>, lit: Seq<char>)
    requires
        t.len() == lit.len() ==> exists|j: int| 0 <= j < lit.len() && t[j] != lit[j],
    ensures
        t != lit,
{
    if t == lit {
        let j = choose|j: int| 0 <= j < lit.len() && t[j] != lit[j];
        assert(t[j] == lit[j]);
    }
}

/// An upper-case ASCII letter folded to lower case; anything else kept.
pub open spec fn lower_char(c: char) -> char {
    if 'A' as u32 <= c as u32 && c as u32 <= 'Z' as u32 {
        ((c as u32 + 32) as u8) as char
    } else {
        c
    }
}

/// The depth a lower-case name or numeral selects, if any.
pub open spec fn spec_depth_of_lower(t: Seq<char>) -> Option<Depth> {
    if t == seq!['3'] || t == seq!['t', 't', 'y'] {
        Some(Depth::Tty)
    } else if t == seq!['4'] || t == seq!['l', 'o', 'w'] {
        Some(Depth::Low)
    } else if t == seq!['8'] || t == seq!['m', 'e', 'd', 'i', 'u', 'm'] {
        Some(Depth::Medium)
    } else if t == seq!['2', '4'] || t == seq!['h', 'i', 'g', 'h'] {
        Some(Depth::High)
    } else {
        None
    }
}

/// The depth a name selects, compared without regard to ASCII case.
pub open spec fn spec_depth_of_name(s: Seq<char>) -> Option<Depth> {
    spec_depth_of_lower(s.map_values(|c: char| lower_char(c)))
}

/// Inverse of `spec_weight`: the depth a numeric weight names, if any.
pub open spec fn spec_depth_of_weight(value: u8) -> Option<Depth> {
    if value == 3 {
        Some(Depth::Tty)
    } else if value == 4 {
        Some(Depth::Low)
    } else if value == 8 {
        Some(Depth::Medium)
    } else if value == 24 {
        Some(Depth::High)
    } else {
        None
    }
}

} // verus!
