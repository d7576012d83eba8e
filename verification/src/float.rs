//! Which texts `str::parse::<f64>` accepts as numbers, by its documented grammar.
use vstd::prelude::*;

use crate::number::{has_sign, is_digit};

verus! {

/// `e` or `E`, which begins an exponent.
pub open spec fn is_exponent_marker(c: char) -> bool {
    c == 'e' || c == 'E'
}

/// `Digit+ | Digit+ '.' Digit* | Digit* '.' Digit+`: digits with at most one `.`, and at
/// least one digit.
pub open spec fn decimal_mantissa(s: Seq<char>) -> bool {
    &&& forall|i: int| 0 <= i < s.len() ==> is_digit(#[trigger] s[i]) || s[i] == '.'
    &&& forall|i: int, j: int| 0 <= i < j < s.len() ==> !(#[trigger] s[i] == '.' && #[trigger] s[j] == '.')
    &&& exists|i: int| 0 <= i < s.len() && is_digit(#[trigger] s[i])
}

/// `s` without its leading sign, if it has one.
pub open spec fn unsigned_part(s: Seq<char>) -> Seq<char> {
    if has_sign(s) {
        s.drop_first()
    } else {
        s
    }
}

/// `Sign? Digit+`: the part after `e`.
pub open spec fn exponent_digits(s: Seq<char>) -> bool {
    let d = unsigned_part(s);
    d.len() > 0 && forall|i: int| 0 <= i < d.len() ==> is_digit(#[trigger] d[i])
}

/// `Number ::= Mantissa Exp?` with `Exp ::= ('e' | 'E') Sign? Digit+`.
pub open spec fn float_number(s: Seq<char>) -> bool {
    ||| decimal_mantissa(s)
    ||| exists|e: int|
        0 <= e < s.len() && is_exponent_marker(#[trigger] s[e]) && decimal_mantissa(s.take(e))
            && exponent_digits(s.skip(e + 1))
}

/// A decimal float literal as `str::parse::<f64>` reads one: an optional sign, then a
/// `Number`. (Its other accepted words, infinity and NaN, are not numbers here.)
pub open spec fn float_literal(s: Seq<char>) -> bool {
    float_number(unsigned_part(s))
}

/// Whether `s` is digits with at most one `.` and at least one digit.
pub fn is_decimal_mantissa(s: &str) -> (res: bool)
    ensures
        res == decimal_mantissa(s@),
{
    let n: usize = s.unicode_len();
    let mut dot: Option<usize> = None;
    let mut digit: Option<usize> = None;
    let mut i: usize = 0;
    while i < n
        invariant
            i <= n,
            n == s@.len(),
            forall|k: int| 0 <= k < i ==> is_digit(#[trigger] s@[k]) || s@[k] == '.',
            match dot {
                Some(d) => d < i && s@[d as int] == '.' && forall|k: int|
                    0 <= k < i && k != d ==> #[trigger] s@[k] != '.',
                None => forall|k: int| 0 <= k < i ==> #[trigger] s@[k] != '.',
            },
            match digit {
                Some(d) => d < i && is_digit(s@[d as int]),
                None => forall|k: int| 0 <= k < i ==> !is_digit(#[trigger] s@[k]),
            },
        decreases n - i,
    {
        let c = s.get_char(i);
        if '0' <= c && c <= '9' {
            digit = Some(i);
        } else if c == '.' {
            if dot.is_some() {
                let d: usize = dot.unwrap();
                assert(s@[d as int] == '.' && s@[i as int] == '.');
                return false;
            }
            dot = Some(i);
        } else {
            return false;
        }
        i += 1;
    }
    match digit {
        Some(d) => {
            assert(is_digit(s@[d as int]));
            true
        },
        None => false,
    }
}

/// Whether `s` is an optional sign and then one or more digits.
pub fn is_exponent_digits(s: &str) -> (res: bool)
    ensures
        res == exponent_digits(s@),
{
    let n: usize = s.unicode_len();
    let start: usize = if n > 0 && (s.get_char(0) == '+' || s.get_char(0) == '-') {
        1
    } else {
        0
    };
    let ghost d = unsigned_part(s@);
    assert(d =~= s@.skip(start as int));
    if start >= n {
        return false;
    }
    let mut i: usize = start;
    while i < n
        invariant
            start <= i <= n,
            n == s@.len(),
            d == s@.skip(start as int),
            d == unsigned_part(s@),
            forall|k: int| 0 <= k < i - start ==> is_digit(#[trigger] d[k]),
        decreases n - i,
    {
        let c = s.get_char(i);
        assert(d[i - start] == c);
        if !('0' <= c && c <= '9') {
            assert(!is_digit(d[i - start]));
            return false;
        }
        i += 1;
    }
    true
}

/// Whether `s` is a decimal float literal that `str::parse::<f64>` reads as a number.
pub fn is_float_literal(s: &str) -> (res: bool)
    ensures
        res == float_literal(s@),
{
    let n: usize = s.unicode_len();
    let start: usize = if n > 0 && (s.get_char(0) == '+' || s.get_char(0) == '-') {
        1
    } else {
        0
    };
    let body = s.substring_char(start, n);
    assert(body@ =~= unsigned_part(s@));
    let m: usize = body.unicode_len();
    let mut k: usize = 0;
    while k < m && !(body.get_char(k) == 'e' || body.get_char(k) == 'E')
        invariant
            k <= m,
            m == body@.len(),
            forall|j: int| 0 <= j < k ==> !is_exponent_marker(#[trigger] body@[j]),
        decreases m - k,
    {
        k += 1;
    }
    if k == m {
        let r = is_decimal_mantissa(body);
        assert(!(exists|e: int|
            0 <= e < body@.len() && is_exponent_marker(#[trigger] body@[e]) && decimal_mantissa(
                body@.take(e),
            ) && exponent_digits(body@.skip(e + 1))));
        r
    } else {
        assert(is_exponent_marker(body@[k as int]));
        assert(!decimal_mantissa(body@));
        let mant = body.substring_char(0, k);
        let exp = body.substring_char(k + 1, m);
        assert(mant@ =~= body@.take(k as int));
        assert(exp@ =~= body@.skip(k + 1));
        let r = is_decimal_mantissa(mant) && is_exponent_digits(exp);
        proof {
            assert forall|e: int|
                0 <= e < body@.len() && is_exponent_marker(#[trigger] body@[e]) && decimal_mantissa(
                    body@.take(e),
                ) && exponent_digits(body@.skip(e + 1)) implies e == k by {
                if e > k {
                    assert(body@.take(e)[k as int] == body@[k as int]);
                }
            }
            if r {
                assert(is_exponent_marker(body@[k as int]));
            }
        }
        r
    }
}

/// Law: any digits, a `.`, then any digits, with at least one digit in all, is a float
/// literal (as `str::parse::<f64>` reads `12.5`, `.5`, `5.` or `0.75`), and so are digits
/// alone, and either of these with a sign in front.
pub proof fn law_decimal_is_float_literal(a: Seq<char>, b: Seq<char>, sign: Seq<char>)
    requires
        forall|i: int| 0 <= i < a.len() ==> is_digit(#[trigger] a[i]),
        forall|i: int| 0 <= i < b.len() ==> is_digit(#[trigger] b[i]),
        a.len() + b.len() > 0,
        sign == Seq::<char>::empty() || sign == seq!['+'] || sign == seq!['-'],
    ensures
        float_literal(sign + a + seq!['.'] + b),
        a.len() > 0 ==> float_literal(sign + a),
{
    let m = a + seq!['.'] + b;
    let p = a.len() as int;
    assert(m[p] == '.');
    assert forall|i: int| 0 <= i < m.len() implies is_digit(#[trigger] m[i]) || m[i] == '.' by {
        if i < p {
            assert(m[i] == a[i]);
        } else if i > p {
            assert(m[i] == b[i - p - 1]);
        }
    }
    assert forall|i: int, j: int| 0 <= i < j < m.len() implies !(#[trigger] m[i] == '.'
        && #[trigger] m[j] == '.') by {
        if i < p {
            assert(m[i] == a[i]);
        } else if j > p {
            assert(m[j] == b[j - p - 1]);
        }
    }
    if a.len() > 0 {
        assert(m[0] == a[0]);
        assert(is_digit(m[0]));
    } else {
        assert(m[p + 1] == b[0]);
        assert(is_digit(m[p + 1]));
    }
    assert(decimal_mantissa(m));
    let full = sign + a + seq!['.'] + b;
    assert(full =~= sign + m);
    if sign.len() == 0 {
        assert(full =~= m);
        if m.len() > 0 && (m[0] == '+' || m[0] == '-') {
            if a.len() > 0 {
                assert(m[0] == a[0]);
            }
        }
        assert(unsigned_part(full) =~= m);
    } else {
        assert(full[0] == sign[0]);
        assert(full.drop_first() =~= m);
    }
    if a.len() > 0 {
        assert(decimal_mantissa(a)) by {
            assert(is_digit(a[0]));
        }
        let sa = sign + a;
        if sign.len() == 0 {
            assert(sa =~= a);
            assert(!(a[0] == '+' || a[0] == '-'));
        } else {
            assert(sa[0] == sign[0]);
            assert(sa.drop_first() =~= a);
        }
    }
}

} // verus!
