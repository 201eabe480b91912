//! Character-level helpers over log text: searching, token bounds, trimming
//! and decimal numbers, each stated over `Seq<char>`.

use vstd::prelude::*;

verus! {

/// Whitespace: the characters with the Unicode White_Space property, which
/// are those that `char::is_whitespace` accepts.
pub open spec fn is_space(c: char) -> bool {
    let v = c as u32;
    (0x09 <= v && v <= 0x0d) || v == 0x20 || v == 0x85 || v == 0xa0 || v == 0x1680 || (0x2000
        <= v && v <= 0x200a) || v == 0x2028 || v == 0x2029 || v == 0x202f || v == 0x205f || v
        == 0x3000
}

/// Characters that end a token inside a log line.
pub open spec fn is_delim(c: char) -> bool {
    is_space(c) || c == ',' || c == '\'' || c == '/'
}

pub open spec fn is_digit(c: char) -> bool {
    '0' <= c && c <= '9'
}

pub open spec fn digit_value(c: char) -> nat {
    ((c as int) - ('0' as int)) as nat
}

/// `m` occurs in `s` starting at index `i`.
pub open spec fn occurs_at(s: Seq<char>, m: Seq<char>, i: int) -> bool {
    0 <= i && i + m.len() <= s.len() && s.subrange(i, i + m.len()) == m
}

/// The first index at or after `i` where `m` occurs in `s`.
pub open spec fn find_from(s: Seq<char>, m: Seq<char>, i: int) -> Option<int>
    decreases s.len() + 1 - i,
{
    if i < 0 || i + m.len() > s.len() {
        None
    } else if occurs_at(s, m, i) {
        Some(i)
    } else {
        find_from(s, m, i + 1)
    }
}

/// `s` contains `m`.
pub open spec fn contains(s: Seq<char>, m: Seq<char>) -> bool {
    find_from(s, m, 0) is Some
}

/// The index of the last `c` in `t`.
pub open spec fn last_index(t: Seq<char>, c: char) -> Option<int>
    decreases t.len(),
{
    if t.len() == 0 {
        None
    } else if t.last() == c {
        Some(t.len() - 1)
    } else {
        last_index(t.drop_last(), c)
    }
}

/// The first index at or after `i` that holds `c`, or the end of `s`.
pub open spec fn index_from(s: Seq<char>, c: char, i: int) -> int
    decreases s.len() - i,
{
    if i < 0 || i >= s.len() {
        s.len() as int
    } else if s[i] == c {
        i
    } else {
        index_from(s, c, i + 1)
    }
}

/// The end of the token that starts at `i`: the first delimiter at or after
/// `i`, or the end of `s`.
pub open spec fn token_end_from(s: Seq<char>, i: int) -> int
    decreases s.len() - i,
{
    if i < 0 || i >= s.len() {
        s.len() as int
    } else if is_delim(s[i]) {
        i
    } else {
        token_end_from(s, i + 1)
    }
}

/// The first index at or after `i` that holds no space, or the end of `s`.
pub open spec fn skip_spaces_from(s: Seq<char>, i: int) -> int
    decreases s.len() - i,
{
    if i < 0 || i >= s.len() {
        s.len() as int
    } else if !is_space(s[i]) {
        i
    } else {
        skip_spaces_from(s, i + 1)
    }
}

pub open spec fn trim_start(t: Seq<char>) -> Seq<char>
    decreases t.len(),
{
    if t.len() > 0 && is_space(t[0]) {
        trim_start(t.drop_first())
    } else {
        t
    }
}

pub open spec fn trim_end(t: Seq<char>) -> Seq<char>
    decreases t.len(),
{
    if t.len() > 0 && is_space(t.last()) {
        trim_end(t.drop_last())
    } else {
        t
    }
}

/// `t` without its leading and trailing spaces.
pub open spec fn trim(t: Seq<char>) -> Seq<char> {
    trim_end(trim_start(t))
}

pub open spec fn all_digits(t: Seq<char>) -> bool {
    forall|i: int| 0 <= i < t.len() ==> is_digit(#[trigger] t[i])
}

/// The number that the digits of `t` write in base ten.
pub open spec fn decimal_value(t: Seq<char>) -> nat
    decreases t.len(),
{
    if t.len() == 0 {
        0
    } else {
        decimal_value(t.drop_last()) * 10 + digit_value(t.last())
    }
}

/// `t` read as an unsigned decimal number: one or more digits and nothing
/// else, whose value fits in a `u64`.
pub open spec fn decimal_of(t: Seq<char>) -> Option<u64> {
    if t.len() > 0 && all_digits(t) && decimal_value(t) <= u64::MAX {
        Some(decimal_value(t) as u64)
    } else {
        None
    }
}

/// `t` read as a `u64` in the way `u64::from_str` reads it: an optional
/// `+`, then one or more digits and nothing else, whose value fits.
pub open spec fn unsigned_of(t: Seq<char>) -> Option<u64> {
    if t.len() > 0 && t[0] == '+' {
        decimal_of(t.drop_first())
    } else {
        decimal_of(t)
    }
}

pub open spec fn as_int(r: Option<usize>) -> Option<int> {
    match r {
        Some(k) => Some(k as int),
        None => None,
    }
}

/// Whether `c` is whitespace.
pub fn is_whitespace(c: char) -> (r: bool)
    ensures
        r == is_space(c),
{
    let v = c as u32;
    (0x09 <= v && v <= 0x0d) || v == 0x20 || v == 0x85 || v == 0xa0 || v == 0x1680 || (0x2000
        <= v && v <= 0x200a) || v == 0x2028 || v == 0x2029 || v == 0x202f || v == 0x205f || v
        == 0x3000
}

/// The characters of `s`, in order.
pub fn chars_of(s: &str) -> (r: Vec<char>)
    ensures
        r@ == s@,
{
    let mut r: Vec<char> = Vec::new();
    for c in it: s.chars()
        invariant
            it.seq() == s@,
            r@ == it.seq().subrange(0, it.index() as int),
    {
        r.push(c);
    }
    assert(r@ =~= s@);
    r
}

/// The characters `s[a..b]` as a `String`.
pub fn string_of(s: &str, a: usize, b: usize) -> (r: String)
    requires
        a <= b <= s@.len(),
    ensures
        r@ == s@.subrange(a as int, b as int),
{
    s.substring_char(a, b).to_owned()
}

/// Searching the suffix of `s` from `a` gives the same index, shifted.
pub proof fn lemma_index_from_shift(s: Seq<char>, c: char, a: int, j: int)
    requires
        0 <= a <= j <= s.len(),
    ensures
        index_from(s.subrange(a, s.len() as int), c, j - a) + a == index_from(s, c, j),
    decreases s.len() - j,
{
    if j < s.len() && s[j] != c {
        lemma_index_from_shift(s, c, a, j + 1);
    }
}

/// The first index at or after `i` that holds `c`.
pub fn index_of_char(s: &Vec<char>, c: char, i: usize) -> (r: usize)
    requires
        i <= s@.len(),
    ensures
        r as int == index_from(s@, c, i as int),
        i <= r <= s@.len(),
{
    let mut j: usize = i;
    while j < s.len()
        invariant
            i <= j <= s@.len(),
            index_from(s@, c, i as int) == index_from(s@, c, j as int),
        decreases s@.len() - j,
    {
        if s[j] == c {
            return j;
        }
        j = j + 1;
    }
    j
}

pub fn matches_at(s: &Vec<char>, m: &Vec<char>, i: usize) -> (r: bool)
    requires
        i + m@.len() <= s@.len(),
    ensures
        r == occurs_at(s@, m@, i as int),
{
    let n = s.len();
    let mut j: usize = 0;
    while j < m.len()
        invariant
            n == s@.len(),
            i + m@.len() <= s@.len(),
            j <= m@.len(),
            forall|k: int| 0 <= k < j ==> s@[i + k] == m@[k],
        decreases m@.len() - j,
    {
        if s[i + j] != m[j] {
            assert(s@.subrange(i as int, i + m@.len())[j as int] != m@[j as int]);
            return false;
        }
        j = j + 1;
    }
    assert(s@.subrange(i as int, i + m@.len()) =~= m@);
    true
}

/// The first index at or after `from` where `m` occurs in `s`.
pub fn find(s: &Vec<char>, m: &Vec<char>, from: usize) -> (r: Option<usize>)
    ensures
        as_int(r) == find_from(s@, m@, from as int),
        match r {
            Some(k) => from <= k && k + m@.len() <= s@.len(),
            None => true,
        },
{
    if m.len() == 0 {
        if from <= s.len() {
            assert(s@.subrange(from as int, from as int) =~= m@);
            return Some(from);
        }
        return None;
    }
    let mut i: usize = from;
    while i <= s.len() && m.len() <= s.len() - i
        invariant
            from <= i,
            m@.len() >= 1,
            find_from(s@, m@, from as int) == find_from(s@, m@, i as int),
        decreases s@.len() + 1 - i,
    {
        if matches_at(s, m, i) {
            return Some(i);
        }
        i = i + 1;
    }
    None
}

/// The index of the last `c` in `s[a..b]`.
pub fn find_last(s: &Vec<char>, c: char, a: usize, b: usize) -> (r: Option<usize>)
    requires
        a <= b <= s@.len(),
    ensures
        match r {
            Some(k) => a <= k < b && last_index(s@.subrange(a as int, b as int), c) == Some(k - a),
            None => last_index(s@.subrange(a as int, b as int), c) is None,
        },
{
    let mut j: usize = b;
    while j > a
        invariant
            a <= j <= b <= s@.len(),
            last_index(s@.subrange(a as int, b as int), c) == last_index(
                s@.subrange(a as int, j as int),
                c,
            ),
        decreases j,
    {
        let ghost t = s@.subrange(a as int, j as int);
        assert(t.drop_last() =~= s@.subrange(a as int, j - 1));
        if s[j - 1] == c {
            return Some(j - 1);
        }
        j = j - 1;
    }
    None
}

/// The end of the token of `s` that starts at `i`.
pub fn token_end(s: &Vec<char>, i: usize) -> (r: usize)
    requires
        i <= s@.len(),
    ensures
        r as int == token_end_from(s@, i as int),
        i <= r <= s@.len(),
{
    let mut j: usize = i;
    while j < s.len()
        invariant
            i <= j <= s@.len(),
            token_end_from(s@, i as int) == token_end_from(s@, j as int),
        decreases s@.len() - j,
    {
        let c = s[j];
        if is_whitespace(c) || c == ',' || c == '\'' || c == '/' {
            return j;
        }
        j = j + 1;
    }
    j
}

/// The first index at or after `i` that holds no space.
pub fn skip_spaces(s: &Vec<char>, i: usize) -> (r: usize)
    requires
        i <= s@.len(),
    ensures
        r as int == skip_spaces_from(s@, i as int),
        i <= r <= s@.len(),
{
    let mut j: usize = i;
    while j < s.len()
        invariant
            i <= j <= s@.len(),
            skip_spaces_from(s@, i as int) == skip_spaces_from(s@, j as int),
        decreases s@.len() - j,
    {
        let c = s[j];
        if !is_whitespace(c) {
            return j;
        }
        j = j + 1;
    }
    j
}

/// The bounds of `s[a..b]` without its leading and trailing spaces.
pub fn trim_bounds(s: &Vec<char>, a: usize, b: usize) -> (r: (usize, usize))
    requires
        a <= b <= s@.len(),
    ensures
        a <= r.0 <= r.1 <= b,
        s@.subrange(r.0 as int, r.1 as int) == trim(s@.subrange(a as int, b as int)),
{
    let mut lo: usize = a;
    while lo < b && is_whitespace(s[lo])
        invariant
            a <= lo <= b <= s@.len(),
            trim_start(s@.subrange(a as int, b as int)) == trim_start(
                s@.subrange(lo as int, b as int),
            ),
        decreases b - lo,
    {
        assert(s@.subrange(lo as int, b as int).drop_first() =~= s@.subrange(lo + 1, b as int));
        lo = lo + 1;
    }
    let mut hi: usize = b;
    while hi > lo && is_whitespace(s[hi - 1])
        invariant
            a <= lo <= hi <= b <= s@.len(),
            trim_start(s@.subrange(a as int, b as int)) == s@.subrange(lo as int, b as int),
            trim(s@.subrange(a as int, b as int)) == trim_end(s@.subrange(lo as int, hi as int)),
        decreases hi - lo,
    {
        assert(s@.subrange(lo as int, hi as int).drop_last() =~= s@.subrange(
            lo as int,
            hi - 1,
        ));
        hi = hi - 1;
    }
    (lo, hi)
}

proof fn lemma_decimal_prefix_le(t: Seq<char>, j: int)
    requires
        0 <= j <= t.len(),
    ensures
        decimal_value(t.subrange(0, j)) <= decimal_value(t),
    decreases t.len() - j,
{
    if j == t.len() {
        assert(t.subrange(0, j) =~= t);
    } else {
        lemma_decimal_prefix_le(t, j + 1);
        assert(t.subrange(0, j + 1).drop_last() =~= t.subrange(0, j));
    }
}

/// `s[a..b]` read as an unsigned decimal number.
pub fn parse_decimal(s: &Vec<char>, a: usize, b: usize) -> (r: Option<u64>)
    requires
        a <= b <= s@.len(),
    ensures
        r == decimal_of(s@.subrange(a as int, b as int)),
{
    let ghost t = s@.subrange(a as int, b as int);
    if a == b {
        return None;
    }
    let mut acc: u64 = 0;
    let mut i: usize = a;
    while i < b
        invariant
            a <= i <= b <= s@.len(),
            t == s@.subrange(a as int, b as int),
            all_digits(s@.subrange(a as int, i as int)),
            acc as nat == decimal_value(s@.subrange(a as int, i as int)),
        decreases b - i,
    {
        let c = s[i];
        if !(c >= '0' && c <= '9') {
            assert(t[i - a] == c);
            return None;
        }
        let d = (c as u32 - '0' as u32) as u64;
        assert(s@.subrange(a as int, i + 1).drop_last() =~= s@.subrange(a as int, i as int));
        assert(t.subrange(0, i + 1 - a) =~= s@.subrange(a as int, i + 1));
        if acc > (u64::MAX - d) / 10 {
            proof {
                lemma_decimal_prefix_le(t, i + 1 - a);
            }
            return None;
        }
        acc = acc * 10 + d;
        i = i + 1;
    }
    Some(acc)
}

/// `s[a..b]` read as a `u64` in the way `u64::from_str` reads it.
pub fn parse_unsigned(s: &Vec<char>, a: usize, b: usize) -> (r: Option<u64>)
    requires
        a <= b <= s@.len(),
    ensures
        r == unsigned_of(s@.subrange(a as int, b as int)),
{
    if a < b && s[a] == '+' {
        assert(s@.subrange(a as int, b as int).drop_first() =~= s@.subrange(a + 1, b as int));
        parse_decimal(s, a + 1, b)
    } else {
        parse_decimal(s, a, b)
    }
}

} // verus!
