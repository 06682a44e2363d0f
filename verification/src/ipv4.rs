//! Detection of an IPv4 address embedded in host text.
//!
//! The classifier scans for the leftmost run of four octet groups, each a
//! decimal value 0-255 without leading zeros, the first three each followed
//! by a `.` or `-` separator.  The fourth group must end the text or be
//! followed by something other than an ASCII word character, so that a
//! longer digit or letter run is not cut short.

use vstd::prelude::*;

verus! {

pub open spec fn is_digit(c: char) -> bool {
    48 <= c as u32 && c as u32 <= 57
}

pub open spec fn digit_val(c: char) -> int {
    c as u32 - 48
}

pub open spec fn is_sep(c: char) -> bool {
    c == '.' || c == '-'
}

/// ASCII word character: letter, digit or underscore.
pub open spec fn is_word_char(c: char) -> bool {
    ||| is_digit(c)
    ||| 97 <= c as u32 && c as u32 <= 122
    ||| 65 <= c as u32 && c as u32 <= 90
    ||| c == '_'
}

/// End of the digit run starting at `i`: the first position at or after `i`
/// holding no decimal digit.
pub open spec fn run_end(s: Seq<char>, i: int) -> int
    decreases s.len() - i when 0 <= i <= s.len()
{
    if i >= s.len() {
        s.len() as int
    } else if is_digit(s[i]) {
        run_end(s, i + 1)
    } else {
        i
    }
}

pub proof fn lemma_run_end(s: Seq<char>, i: int)
    requires
        0 <= i <= s.len(),
    ensures
        i <= run_end(s, i) <= s.len(),
        forall|k: int| i <= k < run_end(s, i) ==> is_digit(s[k]),
        run_end(s, i) < s.len() ==> !is_digit(s[run_end(s, i)]),
    decreases s.len() - i,
{
    if i < s.len() && is_digit(s[i]) {
        lemma_run_end(s, i + 1);
    }
}

/// Value of the decimal digits in `s[i..j)`.
pub open spec fn dec_value(s: Seq<char>, i: int, j: int) -> int
    decreases j - i when i <= j
{
    if j <= i {
        0
    } else {
        dec_value(s, i, j - 1) * 10 + digit_val(s[j - 1])
    }
}

pub proof fn lemma_dec_value_bound(s: Seq<char>, i: int, j: int)
    requires
        i <= j,
        forall|k: int| i <= k < j ==> is_digit(s[k]),
    ensures
        0 <= dec_value(s, i, j),
        j - i == 0 ==> dec_value(s, i, j) == 0,
        j - i == 1 ==> dec_value(s, i, j) < 10,
        j - i == 2 ==> dec_value(s, i, j) < 100,
        j - i == 3 ==> dec_value(s, i, j) < 1000,
    decreases j - i,
{
    if j > i {
        lemma_dec_value_bound(s, i, j - 1);
    }
}

/// A whole digit run starting at `i` spells one octet: one to three digits,
/// value at most 255, and no leading zero unless the octet is `0` itself.
pub open spec fn octet_at(s: Seq<char>, i: int) -> bool {
    let j = run_end(s, i);
    &&& 0 <= i < s.len()
    &&& i < j
    &&& j - i <= 3
    &&& dec_value(s, i, j) <= 255
    &&& (s[i] == '0' ==> j == i + 1)
}

/// An embedded IPv4 address starts at `i`: four octet runs, the first three
/// each followed by a separator, the last one ending the text or followed by
/// a character that is no ASCII word character (a trailing separator counts
/// as such).
pub open spec fn ipv4_at(s: Seq<char>, i: int) -> bool {
    let j1 = run_end(s, i);
    let i2 = j1 + 1;
    let j2 = run_end(s, i2);
    let i3 = j2 + 1;
    let j3 = run_end(s, i3);
    let i4 = j3 + 1;
    let j4 = run_end(s, i4);
    &&& octet_at(s, i)
    &&& j1 < s.len() && is_sep(s[j1])
    &&& octet_at(s, i2)
    &&& j2 < s.len() && is_sep(s[j2])
    &&& octet_at(s, i3)
    &&& j3 < s.len() && is_sep(s[j3])
    &&& octet_at(s, i4)
    &&& (j4 == s.len() || !is_word_char(s[j4]))
}

/// The four octet values of the match starting at `i`.
pub open spec fn ipv4_octets(s: Seq<char>, i: int) -> (int, int, int, int) {
    let j1 = run_end(s, i);
    let i2 = j1 + 1;
    let j2 = run_end(s, i2);
    let i3 = j2 + 1;
    let j3 = run_end(s, i3);
    let i4 = j3 + 1;
    let j4 = run_end(s, i4);
    (dec_value(s, i, j1), dec_value(s, i2, j2), dec_value(s, i3, j3), dec_value(s, i4, j4))
}

/// Start of the leftmost embedded IPv4 match at or after `from`; `s.len()`
/// when there is none.
pub open spec fn ipv4_first_from(s: Seq<char>, from: int) -> int
    decreases s.len() - from when 0 <= from <= s.len()
{
    if from >= s.len() {
        s.len() as int
    } else if ipv4_at(s, from) {
        from
    } else {
        ipv4_first_from(s, from + 1)
    }
}

pub open spec fn has_ipv4(s: Seq<char>) -> bool {
    ipv4_first_from(s, 0) < s.len()
}

fn digit_x(c: char) -> (b: bool)
    ensures
        b == is_digit(c),
{
    let u = c as u32;
    48 <= u && u <= 57
}

fn sep_x(c: char) -> (b: bool)
    ensures
        b == is_sep(c),
{
    c == '.' || c == '-'
}

fn word_char_x(c: char) -> (b: bool)
    ensures
        b == is_word_char(c),
{
    let u = c as u32;
    (48 <= u && u <= 57) || (97 <= u && u <= 122) || (65 <= u && u <= 90) || c == '_'
}

fn run_end_x(s: &str, i: usize, n: usize) -> (r: usize)
    requires
        i <= n,
        n == s@.len(),
    ensures
        r == run_end(s@, i as int),
{
    let mut j = i;
    while j < n
        invariant
            i <= j <= n,
            n == s@.len(),
            run_end(s@, i as int) == run_end(s@, j as int),
        decreases n - j,
    {
        if !digit_x(s.get_char(j)) {
            return j;
        }
        j = j + 1;
    }
    j
}

/// Reads the digit run starting at `i`: whether it is a valid octet, its
/// value if so, and the end of the run.
fn octet_x(s: &str, i: usize, n: usize) -> (r: (bool, u8, usize))
    requires
        i < n,
        n == s@.len(),
    ensures
        r.2 == run_end(s@, i as int),
        r.0 == octet_at(s@, i as int),
        r.0 ==> r.1 as int == dec_value(s@, i as int, r.2 as int),
{
    let j = run_end_x(s, i, n);
    proof {
        lemma_run_end(s@, i as int);
    }
    if j == i || j - i > 3 {
        return (false, 0, j);
    }
    if s.get_char(i) == '0' && j > i + 1 {
        return (false, 0, j);
    }
    let mut v: u16 = 0;
    let mut k = i;
    while k < j
        invariant
            i <= k <= j,
            j == run_end(s@, i as int),
            i < j <= n,
            j - i <= 3,
            n == s@.len(),
            forall|m: int| i <= m < j ==> is_digit(s@[m]),
            v as int == dec_value(s@, i as int, k as int),
        decreases j - k,
    {
        proof {
            lemma_dec_value_bound(s@, i as int, k as int);
        }
        let d = (s.get_char(k) as u32 - 48) as u16;
        v = v * 10 + d;
        k = k + 1;
    }
    if v > 255 {
        return (false, 0, j);
    }
    (true, v as u8, j)
}

/// Checks for an embedded IPv4 match starting exactly at `i`, returning its
/// octets when there is one.
fn ipv4_match_at(s: &str, i: usize, n: usize) -> (r: Option<(u8, u8, u8, u8)>)
    requires
        i < n,
        n == s@.len(),
    ensures
        r is Some <==> ipv4_at(s@, i as int),
        r matches Some(t) ==> ipv4_octets(s@, i as int) == (
            t.0 as int,
            t.1 as int,
            t.2 as int,
            t.3 as int,
        ),
{
    proof {
        lemma_run_end(s@, i as int);
    }
    let (ok1, v1, j1) = octet_x(s, i, n);
    if !ok1 || j1 == n || !sep_x(s.get_char(j1)) {
        return None;
    }
    let i2 = j1 + 1;
    if i2 == n {
        return None;
    }
    proof {
        lemma_run_end(s@, i2 as int);
    }
    let (ok2, v2, j2) = octet_x(s, i2, n);
    if !ok2 || j2 == n || !sep_x(s.get_char(j2)) {
        return None;
    }
    let i3 = j2 + 1;
    if i3 == n {
        return None;
    }
    proof {
        lemma_run_end(s@, i3 as int);
    }
    let (ok3, v3, j3) = octet_x(s, i3, n);
    if !ok3 || j3 == n || !sep_x(s.get_char(j3)) {
        return None;
    }
    let i4 = j3 + 1;
    if i4 == n {
        return None;
    }
    proof {
        lemma_run_end(s@, i4 as int);
    }
    let (ok4, v4, j4) = octet_x(s, i4, n);
    if !ok4 {
        return None;
    }
    if j4 < n && word_char_x(s.get_char(j4)) {
        return None;
    }
    Some((v1, v2, v3, v4))
}

/// Scans host text for the leftmost embedded IPv4 address.
pub fn scan_ipv4(s: &str) -> (r: Option<(u8, u8, u8, u8)>)
    ensures
        match r {
            Some(t) => has_ipv4(s@) && ipv4_octets(s@, ipv4_first_from(s@, 0)) == (
                t.0 as int,
                t.1 as int,
                t.2 as int,
                t.3 as int,
            ),
            None => !has_ipv4(s@),
        },
{
    let n = s.unicode_len();
    let mut i: usize = 0;
    while i < n
        invariant
            i <= n,
            n == s@.len(),
            ipv4_first_from(s@, 0) == ipv4_first_from(s@, i as int),
        decreases n - i,
    {
        match ipv4_match_at(s, i, n) {
            Some(t) => {
                return Some(t);
            },
            None => {},
        }
        i = i + 1;
    }
    None
}

} // verus!
