use vstd::prelude::*;

use crate::text::{chars_of, push_char};

verus! {

pub open spec fn is_digit(c: char) -> bool {
    '0' <= c && c <= '9'
}

pub open spec fn digit_value(c: char) -> int {
    c as int - '0' as int
}

pub open spec fn digit_char(d: int) -> char {
    (d + '0' as int) as char
}

/// Whether `s` is a non-empty run of ASCII digits.
pub open spec fn is_digit_run(s: Seq<char>) -> bool {
    s.len() > 0 && forall|i: int| 0 <= i < s.len() ==> is_digit(#[trigger] s[i])
}

/// The number that a run of decimal digits denotes.
pub open spec fn decimal_value(s: Seq<char>) -> int
    decreases s.len(),
{
    if s.len() == 0 {
        0
    } else {
        decimal_value(s.drop_last()) * 10 + digit_value(s.last())
    }
}

/// The digits of an unsigned number, after an optional leading `+`.
pub open spec fn unsigned_digits(s: Seq<char>) -> Seq<char> {
    if s.len() > 0 && s[0] == '+' {
        s.skip(1)
    } else {
        s
    }
}

/// The `u32` that a text denotes in decimal: an optional `+` and at least one
/// digit, with a value that fits.
pub open spec fn parsed_u32(s: Seq<char>) -> Option<u32> {
    let d = unsigned_digits(s);
    if is_digit_run(d) && decimal_value(d) <= u32::MAX {
        Some(decimal_value(d) as u32)
    } else {
        None
    }
}

/// The shortest decimal writing of a natural number.
pub open spec fn decimal_text(n: nat) -> Seq<char>
    decreases n,
{
    if n < 10 {
        seq![digit_char(n as int)]
    } else {
        decimal_text(n / 10).push(digit_char((n % 10) as int))
    }
}

/// The decimal writing of an integer, with a leading `-` when it is negative.
pub open spec fn signed_decimal_text(n: int) -> Seq<char> {
    if n < 0 {
        seq!['-'] + decimal_text((-n) as nat)
    } else {
        decimal_text(n as nat)
    }
}

proof fn lemma_decimal_value_grows(s: Seq<char>, i: int)
    requires
        0 <= i < s.len(),
        forall|k: int| 0 <= k <= i ==> is_digit(#[trigger] s[k]),
    ensures
        decimal_value(s.take(i + 1)) >= decimal_value(s.take(i)),
        decimal_value(s.take(i + 1)) == decimal_value(s.take(i)) * 10 + digit_value(s[i]),
{
    assert(s.take(i + 1).drop_last() == s.take(i));
    let v = decimal_value(s.take(i));
    assert(v >= 0) by {
        assert forall|k: int| 0 <= k < s.take(i).len() implies is_digit(#[trigger] s.take(i)[k]) by {
            assert(s.take(i)[k] == s[k]);
        }
        lemma_decimal_value_nonneg(s.take(i));
    }
}

proof fn lemma_decimal_value_nonneg(s: Seq<char>)
    requires
        forall|i: int| 0 <= i < s.len() ==> is_digit(#[trigger] s[i]),
    ensures
        decimal_value(s) >= 0,
    decreases s.len(),
{
    if s.len() > 0 {
        lemma_decimal_value_nonneg(s.drop_last());
    }
}

/// Reads a `u32` written in decimal.
pub fn parse_u32(text: &str) -> (r: Option<u32>)
    ensures
        r == parsed_u32(text@),
{
    let chars = chars_of(text);
    let mut start: usize = 0;
    if chars.len() > 0 && chars[0] == '+' {
        start = 1;
    }
    let ghost d = unsigned_digits(text@);
    assert(d == chars@.skip(start as int));
    if start >= chars.len() {
        return None;
    }
    let mut value: u64 = 0;
    let mut too_large = false;
    let mut i: usize = start;
    while i < chars.len()
        invariant
            start <= i <= chars.len(),
            chars@ == text@,
            d == chars@.skip(start as int),
            d == unsigned_digits(text@),
            forall|k: int| 0 <= k < i - start ==> is_digit(#[trigger] d[k]),
            !too_large ==> value == decimal_value(d.take(i - start)),
            !too_large ==> value <= u32::MAX,
            too_large ==> decimal_value(d.take(i - start)) > u32::MAX,
        decreases chars.len() - i,
    {
        let c = chars[i];
        let ghost j = i - start;
        assert(d[j] == chars@[i as int]);
        if !('0' <= c && c <= '9') {
            assert(!is_digit(d[j]));
            assert(!is_digit_run(d));
            return None;
        }
        assert(d[j] == c);
        proof {
            lemma_decimal_value_grows(d, j);
        }
        if !too_large {
            let digit = (c as u32 - '0' as u32) as u64;
            value = value * 10 + digit;
            if value > 0xffff_ffffu64 {
                too_large = true;
            }
        }
        i = i + 1;
    }
    assert(d.take(d.len() as int) == d);
    if too_large {
        None
    } else {
        Some(value as u32)
    }
}

/// Writes a natural number in decimal.
pub fn write_decimal(n: u64, out: &mut String)
    ensures
        final(out)@ == old(out)@ + decimal_text(n as nat),
{
    let mut digits: Vec<char> = Vec::new();
    let mut m = n;
    assert(decimal_text(n as nat) == decimal_text(m as nat) + digits@.reverse()) by {
        assert(digits@.reverse() =~= Seq::<char>::empty());
        assert(decimal_text(n as nat) + Seq::<char>::empty() =~= decimal_text(n as nat));
    }
    loop
        invariant_except_break
            m <= n,
            decimal_text(n as nat) == decimal_text(m as nat) + digits@.reverse(),
        ensures
            decimal_text(n as nat) == digits@.reverse(),
        decreases m,
    {
        let d = (m % 10) as u32;
        let c = char_of_digit(d);
        let ghost before = digits@;
        digits.push(c);
        assert(digits@.reverse() =~= seq![c] + before.reverse());
        if m < 10 {
            assert(decimal_text(m as nat) == seq![c]);
            break;
        }
        assert(decimal_text(m as nat) == decimal_text((m / 10) as nat).push(c));
        assert(decimal_text(n as nat) =~= decimal_text((m / 10) as nat) + digits@.reverse());
        m = m / 10;
    }
    let mut k = digits.len();
    let ghost start = out@;
    assert(out@ =~= start + digits@.reverse().take(0));
    while k > 0
        invariant
            k <= digits.len(),
            out@ == start + digits@.reverse().take(digits.len() - k),
        decreases k,
    {
        k = k - 1;
        push_char(out, digits[k]);
        assert(digits@.reverse().take(digits.len() - k) =~= digits@.reverse().take(
            digits.len() - k - 1,
        ).push(digits@[k as int]));
    }
    assert(digits@.reverse().take(digits.len() as int) =~= digits@.reverse());
}

fn char_of_digit(d: u32) -> (c: char)
    requires
        d < 10,
    ensures
        c == digit_char(d as int),
        is_digit(c),
{
    if d == 0 { '0' }
    else if d == 1 { '1' }
    else if d == 2 { '2' }
    else if d == 3 { '3' }
    else if d == 4 { '4' }
    else if d == 5 { '5' }
    else if d == 6 { '6' }
    else if d == 7 { '7' }
    else if d == 8 { '8' }
    else { '9' }
}

/// Writes an `i32` in decimal.
pub fn write_i32(n: i32, out: &mut String)
    ensures
        final(out)@ == old(out)@ + signed_decimal_text(n as int),
{
    if n < 0 {
        push_char(out, '-');
        let magnitude = (-(n as i64)) as u64;
        write_decimal(magnitude, out);
        assert(old(out)@.push('-') + decimal_text(magnitude as nat) == old(out)@ + (seq!['-']
            + decimal_text(magnitude as nat)));
    } else {
        write_decimal(n as u64, out);
    }
}

pub open spec fn lower_ascii(c: char) -> char {
    if 'A' <= c && c <= 'Z' {
        ((c as u32) + 32) as char
    } else {
        c
    }
}

pub open spec fn is_sign(c: char) -> bool {
    c == '+' || c == '-'
}

/// Whether every character of `s` is a digit (an empty `s` included).
pub open spec fn all_digits(s: Seq<char>) -> bool {
    forall|i: int| 0 <= i < s.len() ==> is_digit(#[trigger] s[i])
}

/// Whether `s` spells `w`, ignoring the case of ASCII letters.
pub open spec fn spells(s: Seq<char>, w: Seq<char>) -> bool {
    s.len() == w.len() && forall|i: int| 0 <= i < s.len() ==> lower_ascii(#[trigger] s[i]) == w[i]
}

/// Digits with at most one decimal point, and at least one digit.
pub open spec fn is_mantissa(s: Seq<char>) -> bool {
    ||| s.len() > 0 && all_digits(s)
    ||| s.len() >= 2 && exists|k: int|
        0 <= k < s.len() && s[k] == '.' && all_digits(#[trigger] s.take(k)) && all_digits(
            s.skip(k + 1),
        )
}

/// An `e` or `E`, an optional sign, then at least one digit.
pub open spec fn is_exponent(s: Seq<char>) -> bool {
    &&& s.len() >= 2
    &&& lower_ascii(s[0]) == 'e'
    &&& {
        let t = if is_sign(s[1]) {
            s.skip(2)
        } else {
            s.skip(1)
        };
        t.len() > 0 && all_digits(t)
    }
}

pub open spec fn is_unsigned_number(s: Seq<char>) -> bool {
    ||| is_mantissa(s)
    ||| exists|m: int| 0 < m < s.len() && is_mantissa(#[trigger] s.take(m)) && is_exponent(s.skip(m))
}

pub open spec fn unsigned_part(s: Seq<char>) -> Seq<char> {
    if s.len() > 0 && is_sign(s[0]) {
        s.skip(1)
    } else {
        s
    }
}

/// Whether a text is a floating-point literal in the standard library's
/// grammar: an optional sign, then `inf`, `infinity`, `nan` (in any case) or
/// a decimal number with an optional exponent.
pub open spec fn is_float_text(s: Seq<char>) -> bool {
    let u = unsigned_part(s);
    ||| spells(u, seq!['i', 'n', 'f'])
    ||| spells(u, seq!['i', 'n', 'f', 'i', 'n', 'i', 't', 'y'])
    ||| spells(u, seq!['n', 'a', 'n'])
    ||| is_unsigned_number(u)
}

proof fn lemma_mantissa_chars(s: Seq<char>, i: int)
    requires
        is_mantissa(s),
        0 <= i < s.len(),
    ensures
        is_digit(s[i]) || s[i] == '.',
{
    if !(s.len() > 0 && all_digits(s)) {
        let k = choose|k: int|
            0 <= k < s.len() && s[k] == '.' && all_digits(#[trigger] s.take(k)) && all_digits(
                s.skip(k + 1),
            );
        if i < k {
            assert(s.take(k)[i] == s[i]);
        } else if i > k {
            assert(s.skip(k + 1)[i - k - 1] == s[i]);
        }
    }
}

fn lower_char(c: char) -> (r: char)
    ensures
        r == lower_ascii(c),
{
    if 'A' <= c && c <= 'Z' {
        (((c as u32) + 32) as u8) as char
    } else {
        c
    }
}

fn spells_at(v: &Vec<char>, lo: usize, w: &Vec<char>) -> (r: bool)
    requires
        lo <= v.len(),
    ensures
        r == spells(v@.skip(lo as int), w@),
{
    let ghost s = v@.skip(lo as int);
    if v.len() - lo != w.len() {
        return false;
    }
    let mut i: usize = 0;
    while i < w.len()
        invariant
            s == v@.skip(lo as int),
            s.len() == w.len(),
            lo <= v.len(),
            v.len() - lo == w.len(),
            i <= w.len(),
            forall|k: int| 0 <= k < i ==> lower_ascii(#[trigger] s[k]) == w@[k],
        decreases w.len() - i,
    {
        assert(s[i as int] == v@[lo + i]);
        if lower_char(v[lo + i]) != w[i] {
            return false;
        }
        i = i + 1;
    }
    true
}

fn mantissa_at(v: &Vec<char>, lo: usize, hi: usize) -> (r: bool)
    requires
        lo <= hi <= v.len(),
    ensures
        r == is_mantissa(v@.subrange(lo as int, hi as int)),
{
    let ghost s = v@.subrange(lo as int, hi as int);
    let mut dot: Option<usize> = None;
    let mut i: usize = lo;
    while i < hi
        invariant
            s == v@.subrange(lo as int, hi as int),
            lo <= i <= hi <= v.len(),
            dot matches Some(k) ==> lo <= k < i && s[k - lo] == '.',
            forall|j: int|
                0 <= j < i - lo && !(dot matches Some(k) && j == k - lo) ==> is_digit(#[trigger] s[j]),
        decreases hi - i,
    {
        let c = v[i];
        assert(s[i - lo] == c);
        if c == '.' {
            if let Some(k) = dot {
                assert(!is_mantissa(s)) by {
                    if s.len() > 0 && all_digits(s) {
                        assert(is_digit(s[i - lo]));
                    }
                    if exists|k2: int|
                        0 <= k2 < s.len() && s[k2] == '.' && all_digits(#[trigger] s.take(k2))
                            && all_digits(s.skip(k2 + 1)) {
                        let k2 = choose|k2: int|
                            0 <= k2 < s.len() && s[k2] == '.' && all_digits(#[trigger] s.take(k2))
                                && all_digits(s.skip(k2 + 1));
                        let a = (k - lo) as int;
                        let b = (i - lo) as int;
                        if k2 != a {
                            if a < k2 {
                                assert(s.take(k2)[a] == s[a]);
                            } else {
                                assert(s.skip(k2 + 1)[a - k2 - 1] == s[a]);
                            }
                        } else {
                            assert(s.skip(k2 + 1)[b - k2 - 1] == s[b]);
                        }
                    }
                }
                return false;
            }
            dot = Some(i);
        } else if !('0' <= c && c <= '9') {
            assert(!is_mantissa(s)) by {
                if is_mantissa(s) {
                    lemma_mantissa_chars(s, i - lo);
                }
            }
            return false;
        }
        i = i + 1;
    }
    match dot {
        None => {
            assert(all_digits(s));
            hi > lo
        },
        Some(k) => {
            let ghost a = (k - lo) as int;
            assert(all_digits(s.take(a))) by {
                assert forall|j: int| 0 <= j < a implies is_digit(#[trigger] s.take(a)[j]) by {
                    assert(s.take(a)[j] == s[j]);
                }
            }
            assert(all_digits(s.skip(a + 1))) by {
                assert forall|j: int| 0 <= j < s.len() - a - 1 implies is_digit(
                    #[trigger] s.skip(a + 1)[j],
                ) by {
                    assert(s.skip(a + 1)[j] == s[j + a + 1]);
                }
            }
            assert(!all_digits(s)) by {
                assert(!is_digit(s[a]));
            }
            hi - lo >= 2
        },
    }
}

fn digits_at(v: &Vec<char>, lo: usize) -> (r: bool)
    requires
        lo <= v.len(),
    ensures
        r == (v@.skip(lo as int).len() > 0 && all_digits(v@.skip(lo as int))),
{
    let ghost s = v@.skip(lo as int);
    let mut i: usize = lo;
    while i < v.len()
        invariant
            s == v@.skip(lo as int),
            lo <= i <= v.len(),
            forall|j: int| 0 <= j < i - lo ==> is_digit(#[trigger] s[j]),
        decreases v.len() - i,
    {
        assert(s[i - lo] == v@[i as int]);
        if !('0' <= v[i] && v[i] <= '9') {
            return false;
        }
        i = i + 1;
    }
    i > lo
}

fn exponent_at(v: &Vec<char>, lo: usize) -> (r: bool)
    requires
        lo <= v.len(),
    ensures
        r == is_exponent(v@.skip(lo as int)),
{
    let ghost s = v@.skip(lo as int);
    if v.len() - lo < 2 || lower_char(v[lo]) != 'e' {
        return false;
    }
    assert(s[0] == v@[lo as int] && s[1] == v@[lo + 1]);
    if v[lo + 1] == '+' || v[lo + 1] == '-' {
        assert(s.skip(2) == v@.skip(lo + 2));
        digits_at(v, lo + 2)
    } else {
        assert(s.skip(1) == v@.skip(lo + 1));
        digits_at(v, lo + 1)
    }
}

/// Whether a text is a floating-point literal.
pub fn is_float_literal(text: &str) -> (r: bool)
    ensures
        r == is_float_text(text@),
{
    let v = chars_of(text);
    let mut lo: usize = 0;
    if v.len() > 0 && (v[0] == '+' || v[0] == '-') {
        lo = 1;
    }
    let ghost u = unsigned_part(text@);
    assert(u == v@.skip(lo as int));
    if spells_at(&v, lo, &vec!['i', 'n', 'f']) || spells_at(
        &v,
        lo,
        &vec!['i', 'n', 'f', 'i', 'n', 'i', 't', 'y'],
    ) || spells_at(&v, lo, &vec!['n', 'a', 'n']) {
        return true;
    }
    let mut m: usize = lo;
    while m < v.len() && lower_char(v[m]) != 'e'
        invariant
            lo <= m <= v.len(),
            u == v@.skip(lo as int),
            forall|j: int| 0 <= j < m - lo ==> lower_ascii(#[trigger] u[j]) != 'e',
        decreases v.len() - m,
    {
        assert(u[m - lo] == v@[m as int]);
        m = m + 1;
    }
    let ghost e = (m - lo) as int;
    if m == v.len() {
        assert(v@.subrange(lo as int, m as int) == u);
        let r = mantissa_at(&v, lo, m);
        assert(r == is_unsigned_number(u)) by {
            if exists|m2: int|
                0 < m2 < u.len() && is_mantissa(#[trigger] u.take(m2)) && is_exponent(u.skip(m2)) {
                let m2 = choose|m2: int|
                    0 < m2 < u.len() && is_mantissa(#[trigger] u.take(m2)) && is_exponent(
                        u.skip(m2),
                    );
                assert(u.skip(m2)[0] == u[m2]);
            }
        }
        return r;
    }
    assert(u[e] == v@[m as int]);
    assert(!is_mantissa(u)) by {
        if is_mantissa(u) {
            lemma_mantissa_chars(u, e);
        }
    }
    assert(is_unsigned_number(u) <==> e > 0 && is_mantissa(u.take(e)) && is_exponent(u.skip(e)))
        by {
        if exists|m2: int|
            0 < m2 < u.len() && is_mantissa(#[trigger] u.take(m2)) && is_exponent(u.skip(m2)) {
            let m2 = choose|m2: int|
                0 < m2 < u.len() && is_mantissa(#[trigger] u.take(m2)) && is_exponent(u.skip(m2));
            assert(u.skip(m2)[0] == u[m2]);
            if m2 > e {
                assert(u.take(m2)[e] == u[e]);
                lemma_mantissa_chars(u.take(m2), e);
            }
        }
    }
    if m == lo {
        return false;
    }
    assert(v@.subrange(lo as int, m as int) == u.take(e));
    assert(v@.skip(m as int) == u.skip(e));
    mantissa_at(&v, lo, m) && exponent_at(&v, m)
}

} // verus!
