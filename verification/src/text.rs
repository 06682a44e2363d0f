//! Character-sequence helpers shared by the parser, the host classifier and
//! the fingerprint builder: first occurrence of a character, and decimal
//! rendering of small numbers.

use vstd::prelude::*;

verus! {

/// First index at or after `from` where `c` occurs in `s`; `s.len()` when
/// there is none.
pub open spec fn find_from(s: Seq<char>, c: char, from: int) -> int
    decreases s.len() - from when 0 <= from <= s.len()
{
    if from >= s.len() {
        s.len() as int
    } else if s[from] == c {
        from
    } else {
        find_from(s, c, from + 1)
    }
}

/// `find_from` returns the position of the first occurrence at or after
/// `from`, or `s.len()` when the character does not occur there.
pub proof fn lemma_find_from(s: Seq<char>, c: char, from: int)
    requires
        0 <= from <= s.len(),
    ensures
        from <= find_from(s, c, from) <= s.len(),
        forall|k: int| from <= k < find_from(s, c, from) ==> s[k] != c,
        find_from(s, c, from) < s.len() ==> s[find_from(s, c, from)] == c,
    decreases s.len() - from,
{
    if from < s.len() && s[from] != c {
        lemma_find_from(s, c, from + 1);
    }
}

/// A position holding `c`, with no earlier occurrence at or after `from`,
/// is what `find_from` returns.
pub proof fn lemma_find_from_is(s: Seq<char>, c: char, from: int, p: int)
    requires
        0 <= from <= p < s.len(),
        s[p] == c,
        forall|k: int| from <= k < p ==> s[k] != c,
    ensures
        find_from(s, c, from) == p,
    decreases p - from,
{
    if from < p {
        lemma_find_from_is(s, c, from + 1, p);
    }
}

/// Scans `s` from character position `from` for the first occurrence of `c`.
pub fn find_char_from(s: &str, c: char, from: usize) -> (r: usize)
    requires
        from <= s@.len(),
    ensures
        r == find_from(s@, c, from as int),
{
    let n = s.unicode_len();
    let mut i = from;
    while i < n
        invariant
            from <= i <= n,
            n == s@.len(),
            find_from(s@, c, from as int) == find_from(s@, c, i as int),
        decreases n - i,
    {
        if s.get_char(i) == c {
            return i;
        }
        i = i + 1;
    }
    i
}

/// The character for one decimal digit.
pub open spec fn digit_char(d: int) -> char {
    if d == 0 {
        '0'
    } else if d == 1 {
        '1'
    } else if d == 2 {
        '2'
    } else if d == 3 {
        '3'
    } else if d == 4 {
        '4'
    } else if d == 5 {
        '5'
    } else if d == 6 {
        '6'
    } else if d == 7 {
        '7'
    } else if d == 8 {
        '8'
    } else {
        '9'
    }
}

/// Decimal rendering of a non-negative number, most significant digit first,
/// with no leading zeros (`0` itself renders as "0").
pub open spec fn dec_of(n: int) -> Seq<char>
    decreases n when n >= 0
{
    if n < 10 {
        seq![digit_char(n)]
    } else {
        dec_of(n / 10).push(digit_char(n % 10))
    }
}

/// Two-digit numbers render as their two digits.
pub proof fn lemma_dec_of_2(n: int)
    requires
        10 <= n <= 99,
    ensures
        dec_of(n) =~= seq![digit_char(n / 10), digit_char(n % 10)],
{
    assert(1 <= n / 10 <= 9);
    assert(dec_of(n / 10) =~= seq![digit_char(n / 10)]);
}

/// Three-digit numbers render as their three digits.
pub proof fn lemma_dec_of_3(n: int)
    requires
        100 <= n <= 999,
    ensures
        dec_of(n) =~= seq![
            digit_char(n / 100),
            digit_char((n / 10) % 10),
            digit_char(n % 10),
        ],
{
    lemma_dec_of_2(n / 10);
    vstd::arithmetic::div_mod::lemma_div_denominator(n, 10, 10);
}

/// A one-character string for one decimal digit.
fn digit_str(d: u8) -> (r: &'static str)
    requires
        d < 10,
    ensures
        r@ =~= seq![digit_char(d as int)],
{
    proof {
        reveal_strlit("0");
        reveal_strlit("1");
        reveal_strlit("2");
        reveal_strlit("3");
        reveal_strlit("4");
        reveal_strlit("5");
        reveal_strlit("6");
        reveal_strlit("7");
        reveal_strlit("8");
        reveal_strlit("9");
    }
    match d {
        0 => "0",
        1 => "1",
        2 => "2",
        3 => "3",
        4 => "4",
        5 => "5",
        6 => "6",
        7 => "7",
        8 => "8",
        _ => "9",
    }
}

/// Renders a byte-sized number in decimal.
pub fn u8_string(n: u8) -> (r: String)
    ensures
        r@ == dec_of(n as int),
{
    if n < 10 {
        let s = digit_str(n).to_owned();
        s
    } else if n < 100 {
        proof {
            lemma_dec_of_2(n as int);
        }
        let mut s = digit_str(n / 10).to_owned();
        s.append(digit_str(n % 10));
        proof {
            assert(s@ =~= dec_of(n as int));
        }
        s
    } else {
        proof {
            lemma_dec_of_3(n as int);
        }
        let mut s = digit_str(n / 100).to_owned();
        s.append(digit_str((n / 10) % 10));
        s.append(digit_str(n % 10));
        proof {
            assert(s@ =~= dec_of(n as int));
        }
        s
    }
}

} // verus!
