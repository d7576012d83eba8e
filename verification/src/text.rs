//! Character-level helpers on strings, each with an exact specification over `Seq<char>`.
use vstd::prelude::*;

verus! {

/// The number of copies of `c` with which `s` begins.
pub open spec fn leading_count(s: Seq<char>, c: char) -> nat
    decreases s.len(),
{
    if s.len() > 0 && s[0] == c {
        1 + leading_count(s.drop_first(), c)
    } else {
        0
    }
}

/// `s` with every leading copy of `c` removed (`str::trim_start_matches` with a `char`).
pub open spec fn trim_leading(s: Seq<char>, c: char) -> Seq<char> {
    s.skip(leading_count(s, c) as int)
}

/// The index of the first `c` in `s`, or `s.len()` where `s` holds none.
pub open spec fn first_index(s: Seq<char>, c: char) -> nat
    decreases s.len(),
{
    if s.len() == 0 {
        0
    } else if s[0] == c {
        0
    } else {
        1 + first_index(s.drop_first(), c)
    }
}

/// `str::split_once` with a `char`: the parts before and after the first `c`.
pub open spec fn split_once(s: Seq<char>, c: char) -> Option<(Seq<char>, Seq<char>)> {
    let i: nat = first_index(s, c);
    if i < s.len() {
        Some((s.take(i as int), s.skip(i + 1 as int)))
    } else {
        None
    }
}

/// `s` begins with `--`.
pub open spec fn is_long_option(s: Seq<char>) -> bool {
    s.len() >= 2 && s[0] == '-' && s[1] == '-'
}

/// `s` begins with `-`.
pub open spec fn starts_with_dash(s: Seq<char>) -> bool {
    s.len() >= 1 && s[0] == '-'
}

/// Whether `s` begins with `--` (`s.starts_with("--")`).
pub fn has_long_option_prefix(s: &str) -> (res: bool)
    ensures
        res == is_long_option(s@),
{
    let n: usize = s.unicode_len();
    n >= 2 && s.get_char(0) == '-' && s.get_char(1) == '-'
}

/// Whether `s` begins with `-` (`s.starts_with('-')`).
pub fn has_dash_prefix(s: &str) -> (res: bool)
    ensures
        res == starts_with_dash(s@),
{
    let n: usize = s.unicode_len();
    n >= 1 && s.get_char(0) == '-'
}

/// `s.trim_start_matches(c)`.
pub fn trim_start_char(s: &str, c: char) -> (res: &str)
    ensures
        res@ == trim_leading(s@, c),
{
    let len: usize = s.unicode_len();
    let mut i: usize = 0;
    assert(s@.skip(0) =~= s@);
    while i < len && s.get_char(i) == c
        invariant
            i <= len,
            len == s@.len(),
            leading_count(s@, c) == i + leading_count(s@.skip(i as int), c),
        decreases len - i,
    {
        assert(s@.skip(i as int).drop_first() =~= s@.skip(i + 1));
        i += 1;
    }
    s.substring_char(i, len)
}

/// `s.split_once(c)`.
pub fn split_once_char(s: &str, c: char) -> (res: Option<(&str, &str)>)
    ensures
        split_once(s@, c) matches Some((a, b)) ==> res matches Some((x, y)) && x@ == a && y@ == b,
        split_once(s@, c) is None ==> res is None,
{
    let len: usize = s.unicode_len();
    let mut i: usize = 0;
    assert(s@.skip(0) =~= s@);
    while i < len && s.get_char(i) != c
        invariant
            i <= len,
            len == s@.len(),
            first_index(s@, c) == i + first_index(s@.skip(i as int), c),
        decreases len - i,
    {
        assert(s@.skip(i as int).drop_first() =~= s@.skip(i + 1));
        i += 1;
    }
    if i < len {
        Some((s.substring_char(0, i), s.substring_char(i + 1, len)))
    } else {
        None
    }
}

/// A new string holding `a`, then `sep`, then `b`.
pub fn concat3(a: &str, sep: &str, b: &str) -> (res: String)
    ensures
        res@ == a@ + sep@ + b@,
{
    String::from_str(a).concat(sep).concat(b)
}

} // verus!

verus! {

/// Whether two strings hold the same characters.
pub fn str_eq(a: &str, b: &str) -> (res: bool)
    ensures
        res == (a@ == b@),
{
    let n: usize = a.unicode_len();
    if n != b.unicode_len() {
        return false;
    }
    let mut i: usize = 0;
    while i < n
        invariant
            i <= n,
            n == a@.len(),
            n == b@.len(),
            forall|j: int| 0 <= j < i ==> a@[j] == b@[j],
        decreases n - i,
    {
        if a.get_char(i) != b.get_char(i) {
            return false;
        }
        i += 1;
    }
    assert(a@ =~= b@);
    true
}

} // verus!
