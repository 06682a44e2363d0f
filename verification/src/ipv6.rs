//! Detection of an IPv6 literal embedded in host text, tried only when no
//! IPv4 address was found.
//!
//! The accepted language is the standard textual form: eight groups of one
//! to four hex digits separated by `:`; a single `::` eliding one or more
//! zero groups; an embedded dotted IPv4 quad in place of the last two
//! groups; and an optional `%` zone suffix of ASCII letters and digits.
//! Dotted-quad octets are decimal 0-255 without leading zeros.  The scan
//! takes the longest literal at the leftmost position where one starts.

use crate::ipv4::digit_val;
use crate::ipv4::is_digit;
use vstd::prelude::*;

verus! {

pub open spec fn is_hex_digit(c: char) -> bool {
    ||| is_digit(c)
    ||| 97 <= c as u32 && c as u32 <= 102
    ||| 65 <= c as u32 && c as u32 <= 70
}

pub open spec fn is_zone_char(c: char) -> bool {
    ||| is_digit(c)
    ||| 97 <= c as u32 && c as u32 <= 122
    ||| 65 <= c as u32 && c as u32 <= 90
}

/// State of the literal recognizer.  `gs` counts closed hex groups, `dc`
/// records that `::` was seen, and the `len`/`dec`/`val`/`lz` fields
/// describe the digit group being read (its length, whether it is all
/// decimal so far, its decimal value saturated at 999, and whether it
/// starts with a zero).
#[derive(Clone, Copy)]
pub enum V6State {
    Dead,
    Start,
    StartColon,
    Group { gs: u8, dc: bool, len: u8, dec: bool, val: u16, lz: bool },
    AfterColon { gs: u8, dc: bool },
    AfterDc { gs: u8 },
    V4Sep { oct: u8 },
    V4Oct { oct: u8, len: u8, val: u16, lz: bool },
    ZoneStart,
    Zone,
}

/// The digit group being read is a valid dotted-quad octet.
pub open spec fn octet_ok(dec: bool, len: u8, val: u16, lz: bool) -> bool {
    dec && len <= 3 && val <= 255 && !(lz && len > 1)
}

pub open spec fn v6_step(st: V6State, c: char) -> V6State {
    match st {
        V6State::Dead => V6State::Dead,
        V6State::Start => {
            if is_hex_digit(c) {
                V6State::Group {
                    gs: 0,
                    dc: false,
                    len: 1,
                    dec: is_digit(c),
                    val: if is_digit(c) {
                        digit_val(c) as u16
                    } else {
                        0
                    },
                    lz: c == '0',
                }
            } else if c == ':' {
                V6State::StartColon
            } else {
                V6State::Dead
            }
        },
        V6State::StartColon => {
            if c == ':' {
                V6State::AfterDc { gs: 0 }
            } else {
                V6State::Dead
            }
        },
        V6State::Group { gs, dc, len, dec, val, lz } => {
            if is_hex_digit(c) {
                if len >= 4 {
                    V6State::Dead
                } else {
                    V6State::Group {
                        gs,
                        dc,
                        len: (len + 1) as u8,
                        dec: dec && is_digit(c),
                        val: if val <= 99 {
                            (val * 10 + if is_digit(c) {
                                digit_val(c) as u16
                            } else {
                                0
                            }) as u16
                        } else {
                            999
                        },
                        lz,
                    }
                }
            } else if c == ':' {
                if gs >= 7 {
                    V6State::Dead
                } else {
                    V6State::AfterColon { gs: (gs + 1) as u8, dc }
                }
            } else if c == '.' {
                if octet_ok(dec, len, val, lz) && ((!dc && gs == 6) || (dc && gs <= 5)) {
                    V6State::V4Sep { oct: 1 }
                } else {
                    V6State::Dead
                }
            } else if c == '%' {
                if (!dc && gs == 7) || (dc && gs <= 6) {
                    V6State::ZoneStart
                } else {
                    V6State::Dead
                }
            } else {
                V6State::Dead
            }
        },
        V6State::AfterColon { gs, dc } => {
            if is_hex_digit(c) {
                V6State::Group {
                    gs,
                    dc,
                    len: 1,
                    dec: is_digit(c),
                    val: if is_digit(c) {
                        digit_val(c) as u16
                    } else {
                        0
                    },
                    lz: c == '0',
                }
            } else if c == ':' {
                if dc {
                    V6State::Dead
                } else {
                    V6State::AfterDc { gs }
                }
            } else {
                V6State::Dead
            }
        },
        V6State::AfterDc { gs } => {
            if is_hex_digit(c) {
                V6State::Group {
                    gs,
                    dc: true,
                    len: 1,
                    dec: is_digit(c),
                    val: if is_digit(c) {
                        digit_val(c) as u16
                    } else {
                        0
                    },
                    lz: c == '0',
                }
            } else if c == '%' {
                V6State::ZoneStart
            } else {
                V6State::Dead
            }
        },
        V6State::V4Sep { oct } => {
            if is_digit(c) {
                V6State::V4Oct { oct, len: 1, val: digit_val(c) as u16, lz: c == '0' }
            } else {
                V6State::Dead
            }
        },
        V6State::V4Oct { oct, len, val, lz } => {
            if is_digit(c) {
                if len >= 3 {
                    V6State::Dead
                } else {
                    V6State::V4Oct {
                        oct,
                        len: (len + 1) as u8,
                        val: if val <= 99 {
                            (val * 10 + digit_val(c)) as u16
                        } else {
                            999
                        },
                        lz,
                    }
                }
            } else if c == '.' {
                if octet_ok(true, len, val, lz) && oct < 3 {
                    V6State::V4Sep { oct: (oct + 1) as u8 }
                } else {
                    V6State::Dead
                }
            } else if c == '%' {
                if oct == 3 && octet_ok(true, len, val, lz) {
                    V6State::ZoneStart
                } else {
                    V6State::Dead
                }
            } else {
                V6State::Dead
            }
        },
        V6State::ZoneStart => {
            if is_zone_char(c) {
                V6State::Zone
            } else {
                V6State::Dead
            }
        },
        V6State::Zone => {
            if is_zone_char(c) {
                V6State::Zone
            } else {
                V6State::Dead
            }
        },
    }
}

/// The consumed text is a complete literal: the final group closes an
/// eight-group address, or any count up to seven next to a `::`, or a
/// trailing `::`, or a complete dotted quad, or a non-empty zone.
pub open spec fn v6_accepting(st: V6State) -> bool {
    match st {
        V6State::Group { gs, dc, len, dec, val, lz } => (!dc && gs == 7) || (dc && gs <= 6),
        V6State::AfterDc { gs } => true,
        V6State::V4Oct { oct, len, val, lz } => oct == 3 && octet_ok(true, len, val, lz),
        V6State::Zone => true,
        _ => false,
    }
}

/// The recognizer state after consuming `s[i..j)`.
pub open spec fn v6_run(s: Seq<char>, i: int, j: int) -> V6State
    decreases j - i when i <= j
{
    if j <= i {
        V6State::Start
    } else {
        v6_step(v6_run(s, i, j - 1), s[j - 1])
    }
}

/// `s[i..j)` is an IPv6 literal.
pub open spec fn ipv6_at(s: Seq<char>, i: int, j: int) -> bool {
    0 <= i <= j <= s.len() && v6_accepting(v6_run(s, i, j))
}

/// Largest `e` in `[i, j]` such that `s[i..e)` is a literal; `i - 1` when
/// there is none.
pub open spec fn v6_best_end_upto(s: Seq<char>, i: int, j: int) -> int
    decreases j - i + 1 when i - 1 <= j
{
    if j < i {
        i - 1
    } else if ipv6_at(s, i, j) {
        j
    } else {
        v6_best_end_upto(s, i, j - 1)
    }
}

/// Some literal starts at `i`.
pub open spec fn v6_match_at(s: Seq<char>, i: int) -> bool {
    v6_best_end_upto(s, i, s.len() as int) >= i
}

/// Start of the leftmost literal at or after `from`; `s.len()` when there is
/// none.
pub open spec fn ipv6_first_from(s: Seq<char>, from: int) -> int
    decreases s.len() - from when 0 <= from <= s.len()
{
    if from >= s.len() {
        s.len() as int
    } else if v6_match_at(s, from) {
        from
    } else {
        ipv6_first_from(s, from + 1)
    }
}

pub open spec fn has_ipv6(s: Seq<char>) -> bool {
    ipv6_first_from(s, 0) < s.len()
}

/// The longest literal at the leftmost matching position.
pub open spec fn ipv6_literal_of(s: Seq<char>) -> Seq<char> {
    let i = ipv6_first_from(s, 0);
    s.subrange(i, v6_best_end_upto(s, i, s.len() as int))
}

fn hex_digit_x(c: char) -> (b: bool)
    ensures
        b == is_hex_digit(c),
{
    let u = c as u32;
    (48 <= u && u <= 57) || (97 <= u && u <= 102) || (65 <= u && u <= 70)
}

fn zone_char_x(c: char) -> (b: bool)
    ensures
        b == is_zone_char(c),
{
    let u = c as u32;
    (48 <= u && u <= 57) || (97 <= u && u <= 122) || (65 <= u && u <= 90)
}

fn digit_x(c: char) -> (b: bool)
    ensures
        b == is_digit(c),
{
    let u = c as u32;
    48 <= u && u <= 57
}

fn digit_val_x(c: char) -> (v: u16)
    requires
        is_digit(c),
    ensures
        v as int == digit_val(c),
{
    (c as u32 - 48) as u16
}

fn v6_step_x(st: V6State, c: char) -> (r: V6State)
    ensures
        r == v6_step(st, c),
{
    match st {
        V6State::Dead => V6State::Dead,
        V6State::Start => {
            if hex_digit_x(c) {
                let dec = digit_x(c);
                V6State::Group {
                    gs: 0,
                    dc: false,
                    len: 1,
                    dec,
                    val: if dec {
                        digit_val_x(c)
                    } else {
                        0
                    },
                    lz: c == '0',
                }
            } else if c == ':' {
                V6State::StartColon
            } else {
                V6State::Dead
            }
        },
        V6State::StartColon => {
            if c == ':' {
                V6State::AfterDc { gs: 0 }
            } else {
                V6State::Dead
            }
        },
        V6State::Group { gs, dc, len, dec, val, lz } => {
            if hex_digit_x(c) {
                if len >= 4 {
                    V6State::Dead
                } else {
                    let d = digit_x(c);
                    V6State::Group {
                        gs,
                        dc,
                        len: len + 1,
                        dec: dec && d,
                        val: if val <= 99 {
                            val * 10 + if d {
                                digit_val_x(c)
                            } else {
                                0
                            }
                        } else {
                            999
                        },
                        lz,
                    }
                }
            } else if c == ':' {
                if gs >= 7 {
                    V6State::Dead
                } else {
                    V6State::AfterColon { gs: gs + 1, dc }
                }
            } else if c == '.' {
                if dec && len <= 3 && val <= 255 && !(lz && len > 1) && ((!dc && gs == 6) || (dc
                    && gs <= 5)) {
                    V6State::V4Sep { oct: 1 }
                } else {
                    V6State::Dead
                }
            } else if c == '%' {
                if (!dc && gs == 7) || (dc && gs <= 6) {
                    V6State::ZoneStart
                } else {
                    V6State::Dead
                }
            } else {
                V6State::Dead
            }
        },
        V6State::AfterColon { gs, dc } => {
            if hex_digit_x(c) {
                let d = digit_x(c);
                V6State::Group {
                    gs,
                    dc,
                    len: 1,
                    dec: d,
                    val: if d {
                        digit_val_x(c)
                    } else {
                        0
                    },
                    lz: c == '0',
                }
            } else if c == ':' {
                if dc {
                    V6State::Dead
                } else {
                    V6State::AfterDc { gs }
                }
            } else {
                V6State::Dead
            }
        },
        V6State::AfterDc { gs } => {
            if hex_digit_x(c) {
                let d = digit_x(c);
                V6State::Group {
                    gs,
                    dc: true,
                    len: 1,
                    dec: d,
                    val: if d {
                        digit_val_x(c)
                    } else {
                        0
                    },
                    lz: c == '0',
                }
            } else if c == '%' {
                V6State::ZoneStart
            } else {
                V6State::Dead
            }
        },
        V6State::V4Sep { oct } => {
            if digit_x(c) {
                V6State::V4Oct { oct, len: 1, val: digit_val_x(c), lz: c == '0' }
            } else {
                V6State::Dead
            }
        },
        V6State::V4Oct { oct, len, val, lz } => {
            if digit_x(c) {
                if len >= 3 {
                    V6State::Dead
                } else {
                    V6State::V4Oct {
                        oct,
                        len: len + 1,
                        val: if val <= 99 {
                            val * 10 + digit_val_x(c)
                        } else {
                            999
                        },
                        lz,
                    }
                }
            } else if c == '.' {
                if len <= 3 && val <= 255 && !(lz && len > 1) && oct < 3 {
                    V6State::V4Sep { oct: oct + 1 }
                } else {
                    V6State::Dead
                }
            } else if c == '%' {
                if oct == 3 && len <= 3 && val <= 255 && !(lz && len > 1) {
                    V6State::ZoneStart
                } else {
                    V6State::Dead
                }
            } else {
                V6State::Dead
            }
        },
        V6State::ZoneStart => {
            if zone_char_x(c) {
                V6State::Zone
            } else {
                V6State::Dead
            }
        },
        V6State::Zone => {
            if zone_char_x(c) {
                V6State::Zone
            } else {
                V6State::Dead
            }
        },
    }
}

fn v6_accepting_x(st: &V6State) -> (b: bool)
    ensures
        b == v6_accepting(*st),
{
    match st {
        V6State::Group { gs, dc, len, dec, val, lz } => (!*dc && *gs == 7) || (*dc && *gs <= 6),
        V6State::AfterDc { gs } => true,
        V6State::V4Oct { oct, len, val, lz } => *oct == 3 && *len <= 3 && *val <= 255 && !(*lz
            && *len > 1),
        V6State::Zone => true,
        _ => false,
    }
}

/// Runs the recognizer from position `i`, returning the end of the longest
/// literal starting there, if any.
fn v6_match_end(s: &str, i: usize, n: usize) -> (r: Option<usize>)
    requires
        i <= n,
        n == s@.len(),
    ensures
        match r {
            Some(j) => i < j <= n && j as int == v6_best_end_upto(s@, i as int, n as int),
            None => !v6_match_at(s@, i as int),
        },
{
    let mut st = V6State::Start;
    let mut best: Option<usize> = None;
    let mut k = i;
    proof {
        assert(v6_run(s@, i as int, i as int) == V6State::Start);
        assert(!ipv6_at(s@, i as int, i as int));
        assert(v6_best_end_upto(s@, i as int, i as int - 1) == i as int - 1);
        assert(v6_best_end_upto(s@, i as int, i as int) == i as int - 1);
    }
    while k < n
        invariant
            i <= k <= n,
            n == s@.len(),
            st == v6_run(s@, i as int, k as int),
            match best {
                Some(b) => i < b <= k && b as int == v6_best_end_upto(s@, i as int, k as int),
                None => v6_best_end_upto(s@, i as int, k as int) == i - 1,
            },
        decreases n - k,
    {
        st = v6_step_x(st, s.get_char(k));
        k = k + 1;
        if v6_accepting_x(&st) {
            best = Some(k);
        }
    }
    best
}

/// Scans host text for the leftmost (then longest) embedded IPv6 literal.
pub fn scan_ipv6(s: &str) -> (r: Option<String>)
    ensures
        match r {
            Some(lit) => has_ipv6(s@) && lit@ == ipv6_literal_of(s@),
            None => !has_ipv6(s@),
        },
{
    let n = s.unicode_len();
    let mut i: usize = 0;
    while i < n
        invariant
            i <= n,
            n == s@.len(),
            ipv6_first_from(s@, 0) == ipv6_first_from(s@, i as int),
        decreases n - i,
    {
        match v6_match_end(s, i, n) {
            Some(j) => {
                let lit = s.substring_char(i, j).to_owned();
                return Some(lit);
            },
            None => {},
        }
        i = i + 1;
    }
    None
}

} // verus!
