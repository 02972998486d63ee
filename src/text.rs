//! Character-level helpers shared by the parsers: whitespace, substring
//! search, trimming and ordering of strings, all over `Seq<char>` views.
use vstd::prelude::*;

verus! {

/// The Unicode `White_Space` property, which both `char::is_whitespace` and
/// the `\s` class of a Unicode regular expression use.
pub open spec fn is_ws(c: char) -> bool {
    let u = c as u32;
    (0x09 <= u && u <= 0x0d) || u == 0x20 || u == 0x85 || u == 0xa0 || u == 0x1680
        || (0x2000 <= u && u <= 0x200a) || u == 0x2028 || u == 0x2029 || u == 0x202f
        || u == 0x205f || u == 0x3000
}

pub fn is_whitespace(c: char) -> (r: bool)
    ensures
        r == is_ws(c),
{
    let u = c as u32;
    (0x09 <= u && u <= 0x0d) || u == 0x20 || u == 0x85 || u == 0xa0 || u == 0x1680
        || (0x2000 <= u && u <= 0x200a) || u == 0x2028 || u == 0x2029 || u == 0x202f
        || u == 0x205f || u == 0x3000
}

/// The end of the run of whitespace that starts at `j`.
pub open spec fn ws_end(s: Seq<char>, j: int) -> int
    decreases s.len() - j,
{
    if 0 <= j < s.len() && is_ws(s[j]) {
        ws_end(s, j + 1)
    } else {
        j
    }
}

/// The end of the run of whitespace that starts at `j`.
pub fn ws_end_exec(s: &Vec<char>, j: usize) -> (r: usize)
    requires
        j <= s@.len(),
    ensures
        r == ws_end(s@, j as int),
        j <= r <= s@.len(),
{
    let mut p = j;
    while p < s.len() && is_whitespace(s[p])
        invariant
            j <= p <= s@.len(),
            ws_end(s@, j as int) == ws_end(s@, p as int),
        decreases s@.len() - p,
    {
        p += 1;
    }
    p
}

/// Relies on `String::push`: appends one character.
#[verifier::external_body]
pub fn push_char(s: &mut String, c: char)
    ensures
        final(s)@ == old(s)@.push(c),
{
    s.push(c)
}

/// The characters of `s`, in order.
pub fn chars_of(s: &str) -> (r: Vec<char>)
    ensures
        r@ == s@,
{
    let mut r: Vec<char> = Vec::new();
    for c in it: s.chars()
        invariant
            r@ == it.seq().take(it.index() as int),
    {
        r.push(c);
    }
    r
}

/// A copy of `v[start..end]`.
pub fn copy_range(v: &Vec<char>, start: usize, end: usize) -> (r: Vec<char>)
    requires
        start <= end <= v@.len(),
    ensures
        r@ == v@.subrange(start as int, end as int),
{
    let mut r: Vec<char> = Vec::new();
    let mut i: usize = start;
    while i < end
        invariant
            start <= i <= end <= v@.len(),
            r@ == v@.subrange(start as int, i as int),
        decreases end - i,
    {
        r.push(v[i]);
        assert(v@.subrange(start as int, i + 1) =~= v@.subrange(start as int, i as int).push(
            v@[i as int],
        ));
        i += 1;
    }
    r
}

/// Appends `v[start..end]` to `dst`.
pub fn append_range(dst: &mut Vec<char>, v: &Vec<char>, start: usize, end: usize)
    requires
        start <= end <= v@.len(),
    ensures
        final(dst)@ == old(dst)@ + v@.subrange(start as int, end as int),
{
    let mut i: usize = start;
    while i < end
        invariant
            start <= i <= end <= v@.len(),
            dst@ == old(dst)@ + v@.subrange(start as int, i as int),
        decreases end - i,
    {
        dst.push(v[i]);
        assert(old(dst)@ + v@.subrange(start as int, i + 1) =~= old(dst)@ + v@.subrange(
            start as int,
            i as int,
        ) + seq![v@[i as int]]);
        i += 1;
    }
}

/// A copy of `v`.
pub fn copy_chars(v: &Vec<char>) -> (r: Vec<char>)
    ensures
        r@ == v@,
{
    let mut r: Vec<char> = Vec::new();
    let mut i: usize = 0;
    while i < v.len()
        invariant
            i <= v@.len(),
            r@ == v@.take(i as int),
        decreases v@.len() - i,
    {
        r.push(v[i]);
        assert(v@.take(i + 1) =~= v@.take(i as int).push(v@[i as int]));
        i += 1;
    }
    assert(v@.take(v@.len() as int) =~= v@);
    r
}

/// A `String` holding the characters `v[start..end]`.
pub fn string_of(v: &Vec<char>, start: usize, end: usize) -> (r: String)
    requires
        start <= end <= v@.len(),
    ensures
        r@ == v@.subrange(start as int, end as int),
{
    let mut r = String::new();
    let mut i = start;
    while i < end
        invariant
            start <= i <= end <= v@.len(),
            r@ == v@.subrange(start as int, i as int),
        decreases end - i,
    {
        push_char(&mut r, v[i]);
        i += 1;
    }
    r
}

/// `pat` occurs in `s` at position `i`.
pub open spec fn occurs_at(s: Seq<char>, pat: Seq<char>, i: int) -> bool {
    0 <= i && i + pat.len() <= s.len() && s.subrange(i, i + pat.len()) == pat
}

/// The first position at or after `i` where `pat` occurs in `s`.
pub open spec fn find_from(s: Seq<char>, pat: Seq<char>, i: int) -> Option<int>
    decreases s.len() + 1 - i,
{
    if i < 0 || i + pat.len() > s.len() {
        None
    } else if s.subrange(i, i + pat.len()) == pat {
        Some(i)
    } else {
        find_from(s, pat, i + 1)
    }
}

/// What `find_from` returns is an occurrence, and the first one.
pub proof fn lemma_find_from(s: Seq<char>, pat: Seq<char>, i: int)
    ensures
        find_from(s, pat, i) matches Some(k) ==> i <= k && occurs_at(s, pat, k)
            && forall|m: int| i <= m < k ==> !occurs_at(s, pat, m),
        find_from(s, pat, i) is None && 0 <= i ==> forall|m: int| i <= m ==> !occurs_at(s, pat, m),
    decreases s.len() + 1 - i,
{
    if i < 0 || i + pat.len() > s.len() {
    } else if s.subrange(i, i + pat.len()) == pat {
    } else {
        lemma_find_from(s, pat, i + 1);
    }
}

/// `pat` occurs somewhere in `s`.
pub open spec fn contains(s: Seq<char>, pat: Seq<char>) -> bool {
    find_from(s, pat, 0) is Some
}

/// Whether `pat` occurs in `s` at position `i`.
pub fn occurs_at_exec(s: &Vec<char>, pat: &Vec<char>, i: usize) -> (r: bool)
    ensures
        r == occurs_at(s@, pat@, i as int),
{
    if i > s.len() || pat.len() > s.len() - i {
        return false;
    }
    let mut k: usize = 0;
    while k < pat.len()
        invariant
            i + pat@.len() <= s@.len() <= usize::MAX,
            k <= pat@.len(),
            forall|m: int| 0 <= m < k ==> s@[i + m] == pat@[m],
        decreases pat@.len() - k,
    {
        if s[i + k] != pat[k] {
            assert(s@.subrange(i as int, i + pat@.len())[k as int] != pat@[k as int]);
            return false;
        }
        k += 1;
    }
    assert(s@.subrange(i as int, i + pat@.len()) =~= pat@);
    true
}

/// The first position at or after `from` where `pat` occurs in `s`.
pub fn find(s: &Vec<char>, pat: &Vec<char>, from: usize) -> (r: Option<usize>)
    ensures
        match r {
            Some(k) => find_from(s@, pat@, from as int) == Some(k as int),
            None => find_from(s@, pat@, from as int) is None,
        },
{
    let mut i = from;
    loop
        invariant
            find_from(s@, pat@, from as int) == find_from(s@, pat@, i as int),
        decreases s@.len() + 1 - i,
    {
        if occurs_at_exec(s, pat, i) {
            return Some(i);
        }
        if i >= s.len() {
            assert(find_from(s@, pat@, i + 1) is None);
            return None;
        }
        i += 1;
    }
}

/// Whether `pat` occurs anywhere in `s`.
pub fn contains_exec(s: &Vec<char>, pat: &Vec<char>) -> (r: bool)
    ensures
        r == contains(s@, pat@),
{
    find(s, pat, 0).is_some()
}

/// Strict lexicographic order of character sequences by code point; this is
/// the order of `str`, whose byte-wise comparison of UTF-8 agrees with it.
pub open spec fn lex_lt(a: Seq<char>, b: Seq<char>) -> bool {
    exists|i: int|
        #![trigger a.subrange(0, i), b.subrange(0, i)]
        0 <= i <= a.len() && i <= b.len() && a.subrange(0, i) == b.subrange(0, i) && ((i == a.len()
            && i < b.len()) || (i < a.len() && i < b.len() && (a[i] as int) < (b[i] as int)))
}

/// The prefixes of length `i` of `a` and `b` agree.
pub open spec fn same_prefix(a: Seq<char>, b: Seq<char>, i: int) -> bool {
    0 <= i <= a.len() && i <= b.len() && forall|m: int| 0 <= m < i ==> a[m] == b[m]
}

proof fn lemma_same_prefix(a: Seq<char>, b: Seq<char>, i: int)
    requires
        0 <= i <= a.len(),
        i <= b.len(),
    ensures
        same_prefix(a, b, i) <==> a.subrange(0, i) == b.subrange(0, i),
{
    if same_prefix(a, b, i) {
        assert(a.subrange(0, i) =~= b.subrange(0, i));
    }
    if a.subrange(0, i) == b.subrange(0, i) {
        assert forall|m: int| 0 <= m < i implies a[m] == b[m] by {
            assert(a.subrange(0, i)[m] == b.subrange(0, i)[m]);
        }
    }
}

/// `lex_lt(a, b)` through a witness position `i`.
pub open spec fn lex_lt_at(a: Seq<char>, b: Seq<char>, i: int) -> bool {
    same_prefix(a, b, i) && ((i == a.len() && i < b.len()) || (i < a.len() && i < b.len()
        && (a[i] as int) < (b[i] as int)))
}

proof fn lemma_lex_lt_at(a: Seq<char>, b: Seq<char>, i: int)
    requires
        lex_lt_at(a, b, i),
    ensures
        lex_lt(a, b),
{
    lemma_same_prefix(a, b, i);
}

proof fn lemma_lex_lt_witness(a: Seq<char>, b: Seq<char>) -> (i: int)
    requires
        lex_lt(a, b),
    ensures
        lex_lt_at(a, b, i),
{
    let i = choose|i: int|
        #![trigger a.subrange(0, i), b.subrange(0, i)]
        0 <= i <= a.len() && i <= b.len() && a.subrange(0, i) == b.subrange(0, i) && ((i
            == a.len() && i < b.len()) || (i < a.len() && i < b.len() && (a[i] as int) < (
        b[i] as int)));
    lemma_same_prefix(a, b, i);
    i
}

/// `lex_lt` is asymmetric, hence irreflexive.
pub proof fn lemma_lex_asym(a: Seq<char>, b: Seq<char>)
    ensures
        !(lex_lt(a, b) && lex_lt(b, a)),
        !lex_lt(a, a),
{
    if lex_lt(a, b) && lex_lt(b, a) {
        let i = lemma_lex_lt_witness(a, b);
        let j = lemma_lex_lt_witness(b, a);
    }
    if lex_lt(a, a) {
        let i = lemma_lex_lt_witness(a, a);
    }
}

/// `lex_lt` is transitive.
pub proof fn lemma_lex_trans(a: Seq<char>, b: Seq<char>, c: Seq<char>)
    requires
        lex_lt(a, b),
        lex_lt(b, c),
    ensures
        lex_lt(a, c),
{
    let i = lemma_lex_lt_witness(a, b);
    let j = lemma_lex_lt_witness(b, c);
    let k = if i < j { i } else { j };
    assert(lex_lt_at(a, c, k));
    lemma_lex_lt_at(a, c, k);
}

/// Three-way comparison of two character sequences: negative, zero or
/// positive as `a` sorts before, equal to or after `b`.
pub fn compare_chars(a: &Vec<char>, b: &Vec<char>) -> (r: i8)
    ensures
        r < 0 <==> lex_lt(a@, b@),
        r == 0 <==> a@ == b@,
        r > 0 <==> lex_lt(b@, a@),
{
    proof {
        lemma_lex_asym(a@, b@);
    }
    let mut i: usize = 0;
    while i < a.len() && i < b.len() && a[i] == b[i]
        invariant
            same_prefix(a@, b@, i as int),
        decreases a@.len() - i,
    {
        i += 1;
    }
    if i < a.len() && i < b.len() {
        if a[i] < b[i] {
            proof {
                lemma_lex_lt_at(a@, b@, i as int);
            }
            -1
        } else {
            assert(same_prefix(b@, a@, i as int));
            proof {
                lemma_lex_lt_at(b@, a@, i as int);
            }
            1
        }
    } else if i == a.len() && i == b.len() {
        assert(a@ =~= b@);
        0
    } else if i == a.len() {
        proof {
            lemma_lex_lt_at(a@, b@, i as int);
        }
        -1
    } else {
        assert(same_prefix(b@, a@, i as int));
        proof {
            lemma_lex_lt_at(b@, a@, i as int);
        }
        1
    }
}

} // verus!
verus! {

/// `s` without its leading whitespace.
pub open spec fn trim_start(s: Seq<char>) -> Seq<char> {
    s.subrange(ws_end(s, 0), s.len() as int)
}

/// The end of `s[..e]` once trailing whitespace is dropped.
pub open spec fn trail_start(s: Seq<char>, e: int) -> int
    decreases e,
{
    if 0 < e <= s.len() && is_ws(s[e - 1]) {
        trail_start(s, e - 1)
    } else {
        e
    }
}

/// `s` without its trailing whitespace.
pub open spec fn trim_end(s: Seq<char>) -> Seq<char> {
    s.subrange(0, trail_start(s, s.len() as int))
}

/// `s` without leading and trailing whitespace.
pub open spec fn trim(s: Seq<char>) -> Seq<char> {
    trim_end(trim_start(s))
}

/// The start and end of `v[start..end]` once whitespace is dropped on both
/// sides.
pub fn trim_bounds(v: &Vec<char>, start: usize, end: usize) -> (r: (usize, usize))
    requires
        start <= end <= v@.len(),
    ensures
        start <= r.0 <= r.1 <= end,
        v@.subrange(r.0 as int, r.1 as int) == trim(v@.subrange(start as int, end as int)),
{
    let ghost s = v@.subrange(start as int, end as int);
    let mut a = start;
    while a < end && is_whitespace(v[a])
        invariant
            start <= a <= end <= v@.len(),
            s == v@.subrange(start as int, end as int),
            ws_end(s, 0) == ws_end(s, a - start),
        decreases end - a,
    {
        a += 1;
    }
    let ghost t = trim_start(s);
    assert(t =~= v@.subrange(a as int, end as int));
    let mut b = end;
    while b > a && is_whitespace(v[b - 1])
        invariant
            start <= a <= b <= end <= v@.len(),
            t == v@.subrange(a as int, end as int),
            trail_start(t, t.len() as int) == trail_start(t, b - a),
        decreases b,
    {
        b -= 1;
    }
    assert(trim_end(t) =~= v@.subrange(a as int, b as int));
    (a, b)
}

} // verus!
verus! {

/// The whitespace-separated words of `s[i..]`, where `cur` is the part of a
/// word read before `i`.
pub open spec fn words_from(s: Seq<char>, i: int, cur: Seq<char>) -> Seq<Seq<char>>
    decreases s.len() - i,
{
    if i < 0 || i >= s.len() {
        if cur.len() > 0 {
            seq![cur]
        } else {
            seq![]
        }
    } else if is_ws(s[i]) {
        if cur.len() > 0 {
            seq![cur] + words_from(s, i + 1, seq![])
        } else {
            words_from(s, i + 1, seq![])
        }
    } else {
        words_from(s, i + 1, cur.push(s[i]))
    }
}

/// The whitespace-separated words of `s`, as `str::split_whitespace` gives
/// them.
pub open spec fn words(s: Seq<char>) -> Seq<Seq<char>> {
    words_from(s, 0, seq![])
}

/// The start and end of each whitespace-separated word of `s`.
pub fn word_bounds(s: &Vec<char>) -> (r: Vec<(usize, usize)>)
    ensures
        r@.len() == words(s@).len(),
        forall|k: int|
            0 <= k < r@.len() ==> (#[trigger] r@[k]).0 <= r@[k].1 <= s@.len() && s@.subrange(
                r@[k].0 as int,
                r@[k].1 as int,
            ) == words(s@)[k],
{
    let mut r: Vec<(usize, usize)> = Vec::new();
    let mut start: usize = 0;
    let mut i: usize = 0;
    let ghost done: Seq<Seq<char>> = seq![];
    assert(s@.subrange(0, 0) =~= seq![]);
    while i < s.len()
        invariant
            start <= i <= s@.len(),
            r@.len() == done.len(),
            forall|k: int|
                0 <= k < r@.len() ==> (#[trigger] r@[k]).0 <= r@[k].1 <= s@.len() && s@.subrange(
                    r@[k].0 as int,
                    r@[k].1 as int,
                ) == done[k],
            done + words_from(s@, i as int, s@.subrange(start as int, i as int)) == words(s@),
        decreases s@.len() - i,
    {
        let ghost cur = s@.subrange(start as int, i as int);
        if is_whitespace(s[i]) {
            if start < i {
                proof {
                    assert(done + words_from(s@, i as int, cur) =~= done.push(cur) + words_from(
                        s@,
                        i + 1,
                        seq![],
                    ));
                    done = done.push(cur);
                }
                r.push((start, i));
            }
            i += 1;
            start = i;
            assert(s@.subrange(start as int, i as int) =~= seq![]);
        } else {
            assert(cur.push(s@[i as int]) =~= s@.subrange(start as int, i + 1));
            i += 1;
        }
    }
    let ghost cur = s@.subrange(start as int, i as int);
    if start < i {
        proof {
            assert(done + words_from(s@, i as int, cur) =~= done.push(cur));
            done = done.push(cur);
        }
        r.push((start, i));
    } else {
        assert(done + words_from(s@, i as int, cur) =~= done);
    }
    r
}

/// `s[a..b]` equals `pat`.
pub fn range_equals(s: &Vec<char>, a: usize, b: usize, pat: &Vec<char>) -> (r: bool)
    requires
        a <= b <= s@.len(),
    ensures
        r == (s@.subrange(a as int, b as int) == pat@),
{
    if b - a != pat.len() {
        return false;
    }
    occurs_at_exec(s, pat, a)
}

pub open spec fn is_digit(c: char) -> bool {
    '0' <= c && c <= '9'
}

/// The value of a run of decimal digits.
pub open spec fn digits_value(d: Seq<char>) -> int
    decreases d.len(),
{
    if d.len() == 0 {
        0
    } else {
        digits_value(d.drop_last()) * 10 + (d.last() as int - '0' as int)
    }
}

/// `t` without one leading `+`.
pub open spec fn unsigned_part(t: Seq<char>) -> Seq<char> {
    if t.len() > 0 && t[0] == '+' {
        t.subrange(1, t.len() as int)
    } else {
        t
    }
}

pub open spec fn all_digits(d: Seq<char>) -> bool {
    forall|i: int| 0 <= i < d.len() ==> is_digit(#[trigger] d[i])
}

/// What `str::parse::<u16>` gives: an optional `+`, then at least one decimal
/// digit and nothing else, of value at most 65535.
pub open spec fn parse_u16(t: Seq<char>) -> Option<int> {
    let d = unsigned_part(t);
    if d.len() > 0 && all_digits(d) && digits_value(d) <= 65535 {
        Some(digits_value(d))
    } else {
        None
    }
}

proof fn lemma_digits_value_grows(d: Seq<char>, k: int)
    requires
        0 <= k <= d.len(),
        forall|i: int| 0 <= i < d.len() ==> is_digit(#[trigger] d[i]),
    ensures
        digits_value(d.take(k)) <= digits_value(d),
        0 <= digits_value(d.take(k)),
    decreases d.len(),
{
    if d.len() > 0 {
        if k == d.len() {
            assert(d.take(k) =~= d);
            let e = d.drop_last();
            assert(e.take(e.len() as int) =~= e);
            lemma_digits_value_grows(e, e.len() as int);
        } else {
            let e = d.drop_last();
            assert(d.take(k) =~= e.take(k));
            lemma_digits_value_grows(e, k);
            assert(e.take(e.len() as int) =~= e);
            lemma_digits_value_grows(e, e.len() as int);
        }
    } else {
        assert(d.take(k) =~= d);
    }
}

/// The number that `s[a..b]` spells, as `str::parse::<u16>` reads it.
pub fn parse_u16_range(s: &Vec<char>, a: usize, b: usize) -> (r: Option<u16>)
    requires
        a <= b <= s@.len(),
    ensures
        match r {
            Some(v) => parse_u16(s@.subrange(a as int, b as int)) == Some(v as int),
            None => parse_u16(s@.subrange(a as int, b as int)) is None,
        },
{
    let ghost t = s@.subrange(a as int, b as int);
    let start = if a < b && s[a] == '+' {
        a + 1
    } else {
        a
    };
    let ghost d = s@.subrange(start as int, b as int);
    assert(d == unsigned_part(t));
    if start == b {
        return None;
    }
    let mut v: u32 = 0;
    let mut i = start;
    while i < b
        invariant
            start <= i <= b <= s@.len(),
            d == s@.subrange(start as int, b as int),
            t == s@.subrange(a as int, b as int),
            d == unsigned_part(t),
            v <= 65535,
            forall|m: int| 0 <= m < i - start ==> is_digit(#[trigger] d[m]),
            v == digits_value(d.take(i - start)),
        decreases b - i,
    {
        let c = s[i];
        if !('0' <= c && c <= '9') {
            assert(!is_digit(d[i - start]));
            assert(!all_digits(d));
            assert(parse_u16(t) is None);
            return None;
        }
        assert(d.take(i - start + 1).drop_last() =~= d.take(i - start));
        assert(d.take(i - start + 1).last() == c);
        v = v * 10 + (c as u32 - '0' as u32);
        if v > 65535 {
            proof {
                if all_digits(d) {
                    lemma_digits_value_grows(d, i - start + 1);
                    assert(d.take(d.len() as int) =~= d);
                }
                assert(parse_u16(t) is None);
            }
            return None;
        }
        i += 1;
    }
    assert(d.take(d.len() as int) =~= d);
    Some(v as u16)
}

} // verus!
