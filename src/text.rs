//! Character-level helpers on strings, stated over `Seq<char>`.

use vstd::prelude::*;

verus! {

/// The characters of `s`, in order.
pub fn chars_of(s: &str) -> (r: Vec<char>)
    ensures
        r@ == s@,
{
    let mut r: Vec<char> = Vec::new();
    for c in it: s.chars()
        invariant
            r@ == it.seq().subrange(0, it.index() as int),
    {
        r.push(c);
    }
    r
}

/// Relies on `String`'s `FromIterator<char>`: the string holds the given
/// characters in order.
#[verifier::external_body]
pub(crate) fn string_of(v: &[char]) -> (r: String)
    ensures
        r@ == v@,
{
    v.iter().collect()
}

/// A string of the characters `v[from..to]`.
pub fn string_of_range(v: &Vec<char>, from: usize, to: usize) -> (r: String)
    requires
        from <= to <= v@.len(),
    ensures
        r@ == v@.subrange(from as int, to as int),
{
    let mut w: Vec<char> = Vec::new();
    let mut i: usize = from;
    while i < to
        invariant
            from <= i <= to <= v@.len(),
            w@ == v@.subrange(from as int, i as int),
        decreases to - i,
    {
        w.push(v[i]);
        i = i + 1;
        assert(w@ =~= v@.subrange(from as int, i as int));
    }
    string_of(w.as_slice())
}


/// Unicode `White_Space`, the set that `char::is_whitespace` tests.
pub open spec fn is_space(c: char) -> bool {
    c == '\t' || c == '\n' || c == '\u{0B}' || c == '\u{0C}' || c == '\r' || c == ' '
        || c == '\u{85}' || c == '\u{A0}' || c == '\u{1680}' || ('\u{2000}' <= c && c
        <= '\u{200A}') || c == '\u{2028}' || c == '\u{2029}' || c == '\u{202F}' || c
        == '\u{205F}' || c == '\u{3000}'
}

pub fn is_space_char(c: char) -> (r: bool)
    ensures
        r == is_space(c),
{
    c == '\t' || c == '\n' || c == '\u{0B}' || c == '\u{0C}' || c == '\r' || c == ' '
        || c == '\u{85}' || c == '\u{A0}' || c == '\u{1680}' || ('\u{2000}' <= c && c
        <= '\u{200A}') || c == '\u{2028}' || c == '\u{2029}' || c == '\u{202F}' || c
        == '\u{205F}' || c == '\u{3000}'
}

/// The characters that a trim removes: line-end characters when `line_ends`
/// holds, else white space.
pub open spec fn trims(c: char, line_ends: bool) -> bool {
    if line_ends {
        c == '\r' || c == '\n'
    } else {
        is_space(c)
    }
}

fn trims_char(c: char, line_ends: bool) -> (r: bool)
    ensures
        r == trims(c, line_ends),
{
    if line_ends {
        c == '\r' || c == '\n'
    } else {
        is_space_char(c)
    }
}

/// `s` without the leading characters that `trims` names.
pub open spec fn trim_start_by(s: Seq<char>, line_ends: bool) -> Seq<char>
    decreases s.len(),
{
    if s.len() > 0 && trims(s[0], line_ends) {
        trim_start_by(s.subrange(1, s.len() as int), line_ends)
    } else {
        s
    }
}

/// `s` without the trailing characters that `trims` names.
pub open spec fn trim_end_by(s: Seq<char>, line_ends: bool) -> Seq<char>
    decreases s.len(),
{
    if s.len() > 0 && trims(s[s.len() - 1], line_ends) {
        trim_end_by(s.subrange(0, s.len() - 1), line_ends)
    } else {
        s
    }
}

/// `s` without white space at either end, as `str::trim` gives it.
pub open spec fn trim_seq(s: Seq<char>) -> Seq<char> {
    trim_end_by(trim_start_by(s, false), false)
}

/// `s` without `\r` and `\n` at either end.
pub open spec fn trim_line_ends_seq(s: Seq<char>) -> Seq<char> {
    trim_end_by(trim_start_by(s, true), true)
}

/// The bounds of `v[from..to]` once the characters that `trims` names are
/// removed from both ends.
pub fn trim_range_by(v: &Vec<char>, from: usize, to: usize, line_ends: bool) -> (r: (
    usize,
    usize,
))
    requires
        from <= to <= v@.len(),
    ensures
        from <= r.0 <= r.1 <= to,
        v@.subrange(r.0 as int, r.1 as int) == trim_end_by(
            trim_start_by(v@.subrange(from as int, to as int), line_ends),
            line_ends,
        ),
{
    let mut a: usize = from;
    while a < to && trims_char(v[a], line_ends)
        invariant
            from <= a <= to <= v@.len(),
            trim_start_by(v@.subrange(from as int, to as int), line_ends) == trim_start_by(
                v@.subrange(a as int, to as int),
                line_ends,
            ),
        decreases to - a,
    {
        let ghost s = v@.subrange(a as int, to as int);
        assert(s.subrange(1, s.len() as int) =~= v@.subrange(a + 1, to as int));
        a = a + 1;
    }
    assert(trim_start_by(v@.subrange(a as int, to as int), line_ends) == v@.subrange(
        a as int,
        to as int,
    ));
    let mut b: usize = to;
    while b > a && trims_char(v[b - 1], line_ends)
        invariant
            from <= a <= b <= to <= v@.len(),
            trim_end_by(trim_start_by(v@.subrange(from as int, to as int), line_ends), line_ends)
                == trim_end_by(v@.subrange(a as int, b as int), line_ends),
        decreases b,
    {
        let ghost s = v@.subrange(a as int, b as int);
        assert(s.subrange(0, s.len() - 1) =~= v@.subrange(a as int, b - 1));
        b = b - 1;
    }
    (a, b)
}

/// The bounds of `v[from..to]` once white space is trimmed from both ends.
pub fn trim_range(v: &Vec<char>, from: usize, to: usize) -> (r: (usize, usize))
    requires
        from <= to <= v@.len(),
    ensures
        from <= r.0 <= r.1 <= to,
        v@.subrange(r.0 as int, r.1 as int) == trim_seq(v@.subrange(from as int, to as int)),
{
    trim_range_by(v, from, to, false)
}

/// `s` with leading and trailing `White_Space` removed, as `str::trim` does.
pub fn trim(s: &str) -> (r: String)
    ensures
        r@ == trim_seq(s@),
{
    let v = chars_of(s);
    let (a, b) = trim_range(&v, 0, v.len());
    assert(v@.subrange(0, v@.len() as int) =~= s@);
    string_of_range(&v, a, b)
}

/// Whether `v[from..to]` begins with `p`.
pub fn range_starts_with(v: &Vec<char>, from: usize, to: usize, p: &Vec<char>) -> (r: bool)
    requires
        from <= to <= v@.len(),
    ensures
        r == (p@.len() <= to - from && v@.subrange(from as int, from + p@.len()) == p@),
{
    if p.len() > to - from {
        return false;
    }
    let mut i: usize = 0;
    while i < p.len()
        invariant
            from <= to <= v@.len(),
            p@.len() <= to - from,
            i <= p@.len(),
            forall|j: int| 0 <= j < i ==> v@[from + j] == p@[j],
        decreases p@.len() - i,
    {
        if v[from + i] != p[i] {
            assert(v@.subrange(from as int, from + p@.len())[i as int] != p@[i as int]);
            return false;
        }
        i = i + 1;
    }
    assert(v@.subrange(from as int, from + p@.len()) =~= p@);
    true
}

/// Whether `v[from..to]` is exactly `p`.
pub fn range_equals(v: &Vec<char>, from: usize, to: usize, p: &Vec<char>) -> (r: bool)
    requires
        from <= to <= v@.len(),
    ensures
        r == (v@.subrange(from as int, to as int) == p@),
{
    let b = p.len() == to - from && range_starts_with(v, from, to, p);
    proof {
        if v@.subrange(from as int, to as int) == p@ {
            assert(v@.subrange(from as int, to as int).len() == p@.len());
        }
    }
    b
}

/// Whether `s` begins with `p`, as `str::starts_with` tests it.
pub fn starts_with(s: &str, p: &str) -> (r: bool)
    ensures
        r == (p@.len() <= s@.len() && s@.subrange(0, p@.len() as int) == p@),
{
    let v = chars_of(s);
    let w = chars_of(p);
    range_starts_with(&v, 0, v.len(), &w)
}

/// Whether the two strings hold the same characters.
pub fn str_equals(a: &str, b: &str) -> (r: bool)
    ensures
        r == (a@ == b@),
{
    let v = chars_of(a);
    let w = chars_of(b);
    let r = range_equals(&v, 0, v.len(), &w);
    assert(v@.subrange(0, v@.len() as int) =~= a@);
    r
}

/// The first index in `from..to` at which `v` holds `c`.
pub fn find_char(v: &Vec<char>, from: usize, to: usize, c: char) -> (r: Option<usize>)
    requires
        from <= to <= v@.len(),
    ensures
        match r {
            Some(i) => from <= i < to && v@[i as int] == c && forall|j: int|
                from <= j < i ==> v@[j] != c,
            None => forall|j: int| from <= j < to ==> v@[j] != c,
        },
{
    let mut i: usize = from;
    while i < to
        invariant
            from <= i <= to <= v@.len(),
            forall|j: int| from <= j < i ==> v@[j] != c,
        decreases to - i,
    {
        if v[i] == c {
            return Some(i);
        }
        i = i + 1;
    }
    None
}

/// `k` is the first index of `c` in `s`, or the length of `s` where `c` does
/// not occur.
pub open spec fn first_at(s: Seq<char>, c: char, k: int) -> bool {
    &&& 0 <= k <= s.len()
    &&& forall|j: int| 0 <= j < k ==> #[trigger] s[j] != c
    &&& (k == s.len() || s[k] == c)
}

/// The first index of `c` in `s`, or the length of `s`.
pub open spec fn index_of(s: Seq<char>, c: char) -> int {
    choose|k: int| first_at(s, c, k)
}

pub proof fn lemma_index_of(s: Seq<char>, c: char, k: int)
    requires
        first_at(s, c, k),
    ensures
        index_of(s, c) == k,
{
    let m = index_of(s, c);
    assert(first_at(s, c, m));
    if m < k {
        assert(s[m] != c);
    } else if k < m {
        assert(s[k] != c);
    }
}

/// The first index of `c` in `from..to`, or `to`.
pub fn index_in(v: &Vec<char>, from: usize, to: usize, c: char) -> (r: usize)
    requires
        from <= to <= v@.len(),
    ensures
        from <= r <= to,
        r - from == index_of(v@.subrange(from as int, to as int), c),
        first_at(v@.subrange(from as int, to as int), c, r - from),
{
    let ghost s = v@.subrange(from as int, to as int);
    match find_char(v, from, to, c) {
        Some(i) => {
            proof {
                assert(first_at(s, c, i - from));
                lemma_index_of(s, c, i - from);
            }
            i
        },
        None => {
            proof {
                assert(first_at(s, c, to - from));
                lemma_index_of(s, c, to - from);
            }
            to
        },
    }
}

/// `e` ends the first word of `s`: no white space before it, and white
/// space or the end of `s` at it.
pub open spec fn word_end(s: Seq<char>, e: int) -> bool {
    &&& 0 <= e <= s.len()
    &&& forall|j: int| 0 <= j < e ==> !is_space(#[trigger] s[j])
    &&& (e == s.len() || is_space(s[e]))
}

/// The run of non-space characters at the start of `s`.
pub open spec fn leading_word(s: Seq<char>) -> Seq<char> {
    s.subrange(0, choose|e: int| word_end(s, e))
}

pub proof fn lemma_word_end_unique(s: Seq<char>, e1: int, e2: int)
    requires
        word_end(s, e1),
        word_end(s, e2),
    ensures
        e1 == e2,
{
    if e1 < e2 {
        assert(!is_space(s[e1]));
    } else if e2 < e1 {
        assert(!is_space(s[e2]));
    }
}

/// The end of the run of non-space characters that starts at `from`.
pub fn word_end_in(v: &Vec<char>, from: usize, to: usize) -> (r: usize)
    requires
        from <= to <= v@.len(),
    ensures
        from <= r <= to,
        v@.subrange(from as int, r as int) == leading_word(v@.subrange(from as int, to as int)),
{
    let mut i: usize = from;
    while i < to && !is_space_char(v[i])
        invariant
            from <= i <= to <= v@.len(),
            forall|j: int| from <= j < i ==> !is_space(v@[j]),
        decreases to - i,
    {
        i = i + 1;
    }
    let ghost s = v@.subrange(from as int, to as int);
    proof {
        let e = (i - from) as int;
        assert(word_end(s, e));
        let c = choose|e: int| word_end(s, e);
        lemma_word_end_unique(s, e, c);
        assert(s.subrange(0, e) =~= v@.subrange(from as int, i as int));
    }
    i
}

/// The value of a string of decimal digits.
pub open spec fn digits_value(s: Seq<char>) -> nat
    decreases s.len(),
{
    if s.len() == 0 {
        0
    } else {
        (digits_value(s.subrange(0, s.len() - 1)) * 10 + (s[s.len() - 1] as int - '0' as int)) as nat
    }
}

pub open spec fn is_digit(c: char) -> bool {
    '0' <= c && c <= '9'
}

/// Every character of `s` is a decimal digit.
pub open spec fn all_digits(s: Seq<char>) -> bool {
    forall|i: int| 0 <= i < s.len() ==> is_digit(#[trigger] s[i])
}

/// `s` without one leading `+`, if it has one.
pub open spec fn unsigned_part(s: Seq<char>) -> Seq<char> {
    if s.len() > 0 && s[0] == '+' {
        s.subrange(1, s.len() as int)
    } else {
        s
    }
}

/// What `str::parse` gives for an unsigned type whose largest value is
/// `max`: an optional `+`, then one or more decimal digits whose value is at
/// most `max`.
pub open spec fn parse_uint_seq(s: Seq<char>, max: nat) -> Option<nat> {
    let d = unsigned_part(s);
    if d.len() > 0 && all_digits(d) && digits_value(d) <= max {
        Some(digits_value(d))
    } else {
        None
    }
}

/// What `str::parse::<u16>` gives.
pub open spec fn parse_u16_seq(s: Seq<char>) -> Option<u16> {
    match parse_uint_seq(s, 0xffff) {
        Some(n) => Some(n as u16),
        None => None,
    }
}

/// Reads `v[from..to]` as an unsigned decimal of at most `max`.
pub fn parse_uint_range(v: &Vec<char>, from: usize, to: usize, max: u64) -> (r: Option<u64>)
    requires
        from <= to <= v@.len(),
    ensures
        match parse_uint_seq(v@.subrange(from as int, to as int), max as nat) {
            Some(n) => r == Some(n as u64),
            None => r is None,
        },
{
    let ghost s = v@.subrange(from as int, to as int);
    let start: usize = if from < to && v[from] == '+' {
        from + 1
    } else {
        from
    };
    let ghost d = v@.subrange(start as int, to as int);
    assert(d =~= unsigned_part(s));
    if start == to {
        return None;
    }
    let cap: u128 = max as u128 + 1;
    let mut acc: u128 = 0;
    let mut i: usize = start;
    while i < to
        invariant
            from <= start <= i <= to <= v@.len(),
            cap == max + 1,
            d == v@.subrange(start as int, to as int),
            s == v@.subrange(from as int, to as int),
            d == unsigned_part(s),
            forall|j: int| start <= j < i ==> is_digit(#[trigger] v@[j]),
            acc == (if digits_value(v@.subrange(start as int, i as int)) > max {
                cap as nat
            } else {
                digits_value(v@.subrange(start as int, i as int))
            }),
        decreases to - i,
    {
        let c = v[i];
        if !('0' <= c && c <= '9') {
            proof {
                let k = (i - start) as int;
                assert(d[k] == v@[i as int]);
                assert(!is_digit(d[k]));
                assert(!all_digits(d));
            }
            return None;
        }
        let ghost prev = v@.subrange(start as int, i as int);
        let ghost next = v@.subrange(start as int, i + 1);
        assert(next.subrange(0, next.len() - 1) =~= prev);
        assert(digits_value(next) == digits_value(prev) * 10 + (c as int - '0' as int));
        let digit: u128 = (c as u128) - ('0' as u128);
        if acc > max as u128 {
            acc = cap;
        } else {
            let n = acc * 10 + digit;
            acc = if n > max as u128 {
                cap
            } else {
                n
            };
        }
        i = i + 1;
    }
    assert(v@.subrange(start as int, to as int) =~= d);
    if acc > max as u128 {
        None
    } else {
        Some(acc as u64)
    }
}

/// Reads `v[from..to]` as a 16-bit unsigned decimal.
pub fn parse_u16_range(v: &Vec<char>, from: usize, to: usize) -> (r: Option<u16>)
    requires
        from <= to <= v@.len(),
    ensures
        r == parse_u16_seq(v@.subrange(from as int, to as int)),
{
    match parse_uint_range(v, from, to, 0xffff) {
        Some(n) => Some(n as u16),
        None => None,
    }
}

/// The decimal digits of `n`, without leading zeros.
pub open spec fn decimal_seq(n: nat) -> Seq<char>
    decreases n,
{
    let d = ((n % 10) + ('0' as nat)) as char;
    if n < 10 {
        seq![d]
    } else {
        decimal_seq(n / 10).push(d)
    }
}

/// Appends the decimal digits of `n`.
pub fn push_decimal(v: &mut Vec<char>, n: u64)
    ensures
        final(v)@ == old(v)@ + decimal_seq(n as nat),
    decreases n,
{
    if n >= 10 {
        push_decimal(v, n / 10);
    }
    let d = ((n % 10) as u8 + 48u8) as char;
    v.push(d);
    assert(final(v)@ =~= old(v)@ + decimal_seq(n as nat));
}

/// `prefix` followed by the decimal digits of `n`.
pub fn with_decimal(prefix: &str, n: u64) -> (r: String)
    ensures
        r@ == prefix@ + decimal_seq(n as nat),
{
    let mut v = chars_of(prefix);
    push_decimal(&mut v, n);
    string_of(v.as_slice())
}

/// The name that `String::from_utf8_lossy` gives to its result.
pub uninterp spec fn lossy_of(b: Seq<u8>) -> Seq<char>;

/// Relies on `String::from_utf8_lossy`: invalid sequences become U+FFFD;
/// the result depends on the bytes alone.
#[verifier::external_body]
pub(crate) fn utf8_lossy(b: &[u8]) -> (r: String)
    ensures
        r@ == lossy_of(b@),
{
    String::from_utf8_lossy(b).into_owned()
}

/// The name that `str::to_lowercase` gives to its result.
pub uninterp spec fn lower_of(s: Seq<char>) -> Seq<char>;

/// Relies on `str::to_lowercase`: the result depends on the characters alone.
#[verifier::external_body]
pub(crate) fn lowercase(s: &str) -> (r: String)
    ensures
        r@ == lower_of(s@),
{
    s.to_lowercase()
}

/// The name that `str::to_uppercase` gives to its result.
pub uninterp spec fn upper_of(s: Seq<char>) -> Seq<char>;

/// Relies on `str::to_uppercase`: the result depends on the characters alone.
#[verifier::external_body]
pub(crate) fn uppercase(s: &str) -> (r: String)
    ensures
        r@ == upper_of(s@),
{
    s.to_uppercase()
}

} // verus!
