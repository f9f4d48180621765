//! Character-level helpers: decimal numbers, case-insensitive comparison,
//! and searching a string for a character.

use vstd::prelude::*;
use vstd::string::StrSliceExecFns;
use vstd::string::StringExecFns;

verus! {

/// True for the ASCII decimal digits '0' through '9'.
pub open spec fn is_digit(c: char) -> bool {
    48 <= c as u32 && c as u32 <= 57
}

/// The numeric value of an ASCII digit.
pub open spec fn digit_val(c: char) -> nat
    recommends
        is_digit(c),
{
    (c as u32 - 48) as nat
}

/// The digit character for a value below ten.
pub open spec fn digit_char(d: nat) -> char
    recommends
        d < 10,
{
    if d == 0 {
        '0'
    } else if d == 1 {
        '1'
    } else if d == 2 {
        '2'
    } else if d == 3 {
        '3'
    } else if d == 4 {
        '4'
    } else if d == 5 {
        '5'
    } else if d == 6 {
        '6'
    } else if d == 7 {
        '7'
    } else if d == 8 {
        '8'
    } else {
        '9'
    }
}

/// The decimal rendering of a natural number, most significant digit first.
pub open spec fn dec_seq(n: nat) -> Seq<char>
    decreases n,
{
    if n < 10 {
        seq![digit_char(n)]
    } else {
        dec_seq(n / 10).push(digit_char(n % 10))
    }
}

/// True when every character of `s` is an ASCII digit.
pub open spec fn all_digits(s: Seq<char>) -> bool {
    forall|i: int| 0 <= i < s.len() ==> is_digit(#[trigger] s[i])
}

/// The value of a sequence of ASCII digits read as a decimal number.
pub open spec fn dec_val(s: Seq<char>) -> nat
    recommends
        all_digits(s),
    decreases s.len(),
{
    if s.len() == 0 {
        0
    } else {
        dec_val(s.drop_last()) * 10 + digit_val(s.last())
    }
}

/// Rendering a number in decimal and reading it back yields the number:
/// `dec_seq` and `dec_val` are inverses.
pub proof fn lemma_dec_round_trip(n: nat)
    ensures
        dec_seq(n).len() >= 1,
        all_digits(dec_seq(n)),
        dec_val(dec_seq(n)) == n,
    decreases n,
{
    if n < 10 {
        let s1 = seq![digit_char(n)];
        assert(dec_seq(n) =~= s1);
        assert(s1.drop_last() =~= Seq::<char>::empty());
        assert(dec_val(s1.drop_last()) == 0);
        assert(dec_val(s1) == digit_val(digit_char(n)));
        assert(digit_val(digit_char(n)) == n);
    } else {
        lemma_dec_round_trip(n / 10);
        let pre = dec_seq(n / 10);
        let whole = pre.push(digit_char(n % 10));
        assert(whole.drop_last() =~= pre);
        assert(whole.last() == digit_char(n % 10));
        assert(digit_val(digit_char(n % 10)) == n % 10);
        assert(dec_val(whole) == dec_val(pre) * 10 + n % 10);
        assert((n / 10) * 10 + n % 10 == n) by (nonlinear_arith);
        assert(forall|i: int|
            0 <= i < whole.len() ==> is_digit(#[trigger] whole[i]));
    }
}

/// A one-character string for a digit value.
fn digit_text(d: u16) -> (s: String)
    requires
        d < 10,
    ensures
        s@ == seq![digit_char(d as nat)],
{
    let t: &str = if d == 0 {
        "0"
    } else if d == 1 {
        "1"
    } else if d == 2 {
        "2"
    } else if d == 3 {
        "3"
    } else if d == 4 {
        "4"
    } else if d == 5 {
        "5"
    } else if d == 6 {
        "6"
    } else if d == 7 {
        "7"
    } else if d == 8 {
        "8"
    } else {
        "9"
    };
    proof {
        reveal_strlit("0");
        reveal_strlit("1");
        reveal_strlit("2");
        reveal_strlit("3");
        reveal_strlit("4");
        reveal_strlit("5");
        reveal_strlit("6");
        reveal_strlit("7");
        reveal_strlit("8");
        reveal_strlit("9");
        assert(t@ =~= seq![digit_char(d as nat)]);
    }
    t.to_owned()
}

/// Renders `n` in decimal.
pub fn u16_to_dec(n: u16) -> (s: String)
    ensures
        s@ == dec_seq(n as nat),
    decreases n,
{
    if n < 10 {
        digit_text(n)
    } else {
        let mut s = u16_to_dec(n / 10);
        let d = digit_text(n % 10);
        s.append(d.as_str());
        proof {
            assert(s@ =~= dec_seq(n as nat));
        }
        s
    }
}

/// Reads a decimal number, failing on empty input, any non-digit, or
/// a value that does not fit in sixteen bits.
pub fn parse_u16(s: &str) -> (r: Option<u16>)
    ensures
        match r {
            Some(v) => s@.len() > 0 && all_digits(s@) && dec_val(s@) == v as nat,
            None => s@.len() == 0 || !all_digits(s@) || dec_val(s@) > 65535,
        },
{
    let n = s.unicode_len();
    if n == 0 {
        return None;
    }
    let mut acc: u32 = 0;
    let mut i: usize = 0;
    while i < n
        invariant
            0 <= i <= n,
            n == s@.len(),
            acc <= 65535,
            all_digits(s@.take(i as int)),
            acc as nat == dec_val(s@.take(i as int)),
        decreases n - i,
    {
        let c = s.get_char(i);
        let v = c as u32;
        if v < 48 || v > 57 {
            assert(!is_digit(s@[i as int]));
            return None;
        }
        let d = v - 48;
        proof {
            assert(s@.take(i + 1).drop_last() =~= s@.take(i as int));
            assert(s@.take(i + 1).last() == s@[i as int]);
        }
        acc = acc * 10 + d;
        i = i + 1;
        if acc > 65535 {
            proof {
                if all_digits(s@) {
                    lemma_dec_val_prefix(s@, i as int);
                }
            }
            return None;
        }
    }
    proof {
        assert(s@.take(n as int) =~= s@);
    }
    Some(acc as u16)
}

/// The value of a digit string is at least the value of any of its prefixes.
proof fn lemma_dec_val_prefix(s: Seq<char>, j: int)
    requires
        0 <= j <= s.len(),
        all_digits(s),
    ensures
        dec_val(s.take(j)) <= dec_val(s),
    decreases s.len() - j,
{
    if j < s.len() {
        assert(s.take(j + 1).drop_last() =~= s.take(j));
        assert(dec_val(s.take(j + 1)) == dec_val(s.take(j)) * 10 + digit_val(s.take(j + 1).last()));
        lemma_dec_val_prefix(s, j + 1);
    } else {
        assert(s.take(j) =~= s);
    }
}

/// True when `c` is an ASCII upper-case letter.
pub open spec fn is_upper(c: char) -> bool {
    65 <= c as u32 && c as u32 <= 90
}

/// True when `c` is an ASCII lower-case letter.
pub open spec fn is_lower(c: char) -> bool {
    97 <= c as u32 && c as u32 <= 122
}

/// True when `c` is an ASCII letter.
pub open spec fn is_alpha(c: char) -> bool {
    is_upper(c) || is_lower(c)
}

/// Character equality up to ASCII case.
pub open spec fn chars_eq_ci(a: char, b: char) -> bool {
    ||| a == b
    ||| (is_upper(a) && a as u32 + 32 == b as u32)
    ||| (is_upper(b) && b as u32 + 32 == a as u32)
}

/// String equality up to ASCII case.
pub open spec fn eq_ignore_case(a: Seq<char>, b: Seq<char>) -> bool {
    &&& a.len() == b.len()
    &&& forall|i: int| 0 <= i < a.len() ==> chars_eq_ci(#[trigger] a[i], #[trigger] b[i])
}

/// Compares two characters up to ASCII case.
fn char_eq_ci(a: char, b: char) -> (r: bool)
    ensures
        r == chars_eq_ci(a, b),
{
    if a == b {
        true
    } else {
        let x = a as u32;
        let y = b as u32;
        (65 <= x && x <= 90 && x + 32 == y) || (65 <= y && y <= 90 && y + 32 == x)
    }
}

/// Compares two strings up to ASCII case.
pub fn str_eq_ci(a: &str, b: &str) -> (r: bool)
    ensures
        r == eq_ignore_case(a@, b@),
{
    let n = a.unicode_len();
    if n != b.unicode_len() {
        return false;
    }
    let mut i: usize = 0;
    while i < n
        invariant
            0 <= i <= n,
            n == a@.len(),
            n == b@.len(),
            forall|k: int| 0 <= k < i ==> chars_eq_ci(#[trigger] a@[k], #[trigger] b@[k]),
        decreases n - i,
    {
        if !char_eq_ci(a.get_char(i), b.get_char(i)) {
            return false;
        }
        i = i + 1;
    }
    true
}

/// Compares two strings character by character.
pub fn str_eq(a: &str, b: &str) -> (r: bool)
    ensures
        r == (a@ == b@),
{
    let n = a.unicode_len();
    if n != b.unicode_len() {
        return false;
    }
    let mut i: usize = 0;
    while i < n
        invariant
            0 <= i <= n,
            n == a@.len(),
            n == b@.len(),
            forall|k: int| 0 <= k < i ==> a@[k] == b@[k],
        decreases n - i,
    {
        if a.get_char(i) != b.get_char(i) {
            return false;
        }
        i = i + 1;
    }
    proof {
        assert(a@ =~= b@);
    }
    true
}

/// The first index at or after `i` where `c` occurs in `s`.
pub open spec fn index_of_from(s: Seq<char>, c: char, i: int) -> Option<int>
    decreases s.len() - i,
{
    if i < 0 || i >= s.len() {
        None
    } else if s[i] == c {
        Some(i)
    } else {
        index_of_from(s, c, i + 1)
    }
}

/// What `index_of_from` returns: the first occurrence, or none at all.
pub proof fn lemma_index_of_from(s: Seq<char>, c: char, i: int)
    requires
        0 <= i <= s.len(),
    ensures
        match index_of_from(s, c, i) {
            Some(j) => i <= j < s.len() && s[j] == c && forall|k: int| i <= k < j ==> s[k] != c,
            None => forall|k: int| i <= k < s.len() ==> s[k] != c,
        },
    decreases s.len() - i,
{
    if i < s.len() && s[i] != c {
        lemma_index_of_from(s, c, i + 1);
    }
}

/// If `j` is the first occurrence of `c` at or after `i`, the search finds it.
pub proof fn lemma_index_of_from_is(s: Seq<char>, c: char, i: int, j: int)
    requires
        0 <= i <= j < s.len(),
        s[j] == c,
        forall|k: int| i <= k < j ==> s[k] != c,
    ensures
        index_of_from(s, c, i) == Some(j),
    decreases j - i,
{
    if i < j {
        lemma_index_of_from_is(s, c, i + 1, j);
    }
}

/// If `c` occurs nowhere at or after `i`, the search fails.
pub proof fn lemma_index_of_from_none(s: Seq<char>, c: char, i: int)
    requires
        0 <= i,
        forall|k: int| i <= k < s.len() ==> s[k] != c,
    ensures
        index_of_from(s, c, i) is None,
    decreases s.len() - i,
{
    if i < s.len() {
        lemma_index_of_from_none(s, c, i + 1);
    }
}

/// Finds the first occurrence of `c` in `s` at or after `from`.
pub fn find_char_from(s: &str, c: char, from: usize) -> (r: Option<usize>)
    requires
        from <= s@.len(),
    ensures
        match r {
            Some(j) => index_of_from(s@, c, from as int) == Some(j as int),
            None => index_of_from(s@, c, from as int) is None,
        },
{
    let n = s.unicode_len();
    let mut i: usize = from;
    while i < n
        invariant
            from <= i <= n,
            n == s@.len(),
            forall|k: int| from <= k < i ==> s@[k] != c,
        decreases n - i,
    {
        if s.get_char(i) == c {
            proof {
                lemma_index_of_from_is(s@, c, from as int, i as int);
            }
            return Some(i);
        }
        i = i + 1;
    }
    proof {
        lemma_index_of_from_none(s@, c, from as int);
    }
    None
}

} // verus!
