//! Simple mode: which log lines summarize a request, and in what tone they
//! are shown. A line is reduced to the text after its last `] `; it is shown
//! when that text holds a completion (`Completed <status> <words> in <n>ms`),
//! a start (`Started <METHOD> "<path>"`), a controller line
//! (`Processing by <Controller>#<action> as <format>`), a parameter line
//! (`Parameters: {...}`), an uncached SQL statement, or a `↳` continuation.
use vstd::prelude::*;
use crate::app_state::{completed_marker, started_marker, StatusType};
use crate::text::{chars_of, contains, contains_exec, find, find_from, is_digit, is_whitespace, is_ws, occurs_at, occurs_at_exec, string_of};

verus! {

/// Membership in the Unicode `\w` class of regular expressions.
pub uninterp spec fn is_word_char(c: char) -> bool;

/// Relies on `regex_syntax::is_word_character`: whether `c` is a Unicode word
/// character (the `\w` class), as the crate's default `unicode-perl` tables
/// say.
#[verifier::external_body]
fn word_char(c: char) -> (r: bool)
    ensures
        r == is_word_char(c),
{
    regex_syntax::is_word_character(c)
}

pub open spec fn is_upper(c: char) -> bool {
    'A' <= c && c <= 'Z'
}

pub open spec fn is_word_or_space(c: char) -> bool {
    is_word_char(c) || is_ws(c)
}

pub open spec fn is_word_or_colon(c: char) -> bool {
    is_word_char(c) || c == ':'
}

/// The end of the run of digits that starts at `j`.
pub open spec fn digit_end(s: Seq<char>, j: int) -> int
    decreases s.len() - j,
{
    if 0 <= j < s.len() && is_digit(s[j]) {
        digit_end(s, j + 1)
    } else {
        j
    }
}

/// The end of the run of capital letters that starts at `j`.
pub open spec fn upper_end(s: Seq<char>, j: int) -> int
    decreases s.len() - j,
{
    if 0 <= j < s.len() && is_upper(s[j]) {
        upper_end(s, j + 1)
    } else {
        j
    }
}

/// The end of the run of word characters that starts at `j`.
pub open spec fn word_end(s: Seq<char>, j: int) -> int
    decreases s.len() - j,
{
    if 0 <= j < s.len() && is_word_char(s[j]) {
        word_end(s, j + 1)
    } else {
        j
    }
}

/// The end of the run of word characters and `:` that starts at `j`.
pub open spec fn path_end(s: Seq<char>, j: int) -> int
    decreases s.len() - j,
{
    if 0 <= j < s.len() && is_word_or_colon(s[j]) {
        path_end(s, j + 1)
    } else {
        j
    }
}

/// The last position at or before `i` where `pat` occurs.
pub open spec fn last_from(s: Seq<char>, pat: Seq<char>, i: int) -> Option<int>
    decreases i + 1,
{
    if i < 0 {
        None
    } else if occurs_at(s, pat, i) {
        Some(i)
    } else {
        last_from(s, pat, i - 1)
    }
}

/// The text after the last `] ` of a line, or the whole line.
pub open spec fn core_message(s: Seq<char>) -> Seq<char> {
    match last_from(s, seq![']', ' '], s.len() - 2) {
        Some(i) => s.subrange(i + 2, s.len() as int),
        None => s,
    }
}

/// ` in <digits>ms` starts at `k`.
pub open spec fn duration_at(s: Seq<char>, k: int) -> bool {
    occurs_at(s, seq![' ', 'i', 'n', ' '], k) && digit_end(s, k + 4) > k + 4 && occurs_at(
        s,
        seq!['m', 's'],
        digit_end(s, k + 4),
    )
}

/// A duration starts at `k` or later, after word characters and whitespace
/// only.
pub open spec fn duration_from(s: Seq<char>, k: int) -> bool
    decreases s.len() + 1 - k,
{
    if k < 0 || k > s.len() {
        false
    } else if duration_at(s, k) {
        true
    } else if k < s.len() && is_word_or_space(s[k]) {
        duration_from(s, k + 1)
    } else {
        false
    }
}

/// The end of the status digits of a completion starting at `i`.
pub open spec fn completion_at(s: Seq<char>, i: int) -> Option<int> {
    if occurs_at(s, completed_marker(), i) {
        let e = digit_end(s, i + 10);
        if e > i + 10 && e + 1 < s.len() && s[e] == ' ' && is_word_or_space(s[e + 1])
            && duration_from(s, e + 2) {
            Some(e)
        } else {
            None
        }
    } else {
        None
    }
}

/// The status digits `(start, end)` of the first completion at or after `i`.
pub open spec fn first_completion(s: Seq<char>, i: int) -> Option<(int, int)>
    decreases s.len() + 1 - i,
{
    if i < 0 || i > s.len() {
        None
    } else {
        match completion_at(s, i) {
            Some(e) => Some((i + 10, e)),
            None => first_completion(s, i + 1),
        }
    }
}

/// A start line `Started <METHOD> "<path>"` begins at `i`.
pub open spec fn start_at(s: Seq<char>, i: int) -> bool {
    let e = upper_end(s, i + 8);
    occurs_at(s, started_marker(), i) && e > i + 8 && e + 2 < s.len() && s[e] == ' ' && s[e + 1]
        == '"' && s[e + 2] != '"' && find_from(s, seq!['"'], e + 3) is Some
}

/// A controller line `Processing by <Controller>#<action> as <format>`
/// begins at `i`.
pub open spec fn processing_at(s: Seq<char>, i: int) -> bool {
    let a = i + 14;
    let b = path_end(s, a);
    let d = word_end(s, b + 1);
    occurs_at(
        s,
        seq!['P', 'r', 'o', 'c', 'e', 's', 's', 'i', 'n', 'g', ' ', 'b', 'y', ' '],
        i,
    ) && b > a && b < s.len() && s[b] == '#' && d > b + 1 && occurs_at(
        s,
        seq![' ', 'a', 's', ' '],
        d,
    ) && word_end(s, d + 4) > d + 4
}

/// A `}` comes at or after `j` before any line break.
pub open spec fn brace_from(s: Seq<char>, j: int) -> bool
    decreases s.len() - j,
{
    if j < 0 || j >= s.len() {
        false
    } else if s[j] == '}' {
        true
    } else if s[j] == '\n' {
        false
    } else {
        brace_from(s, j + 1)
    }
}

pub open spec fn parameters_marker() -> Seq<char> {
    seq!['P', 'a', 'r', 'a', 'm', 'e', 't', 'e', 'r', 's', ':', ' ', '{']
}

/// A parameter line `Parameters: {...}` begins at `i`.
pub open spec fn parameters_at(s: Seq<char>, i: int) -> bool {
    occurs_at(s, parameters_marker(), i) && brace_from(s, i + 13)
}

/// A start, controller or parameter line begins at `i` or later.
pub open spec fn summary_from(s: Seq<char>, i: int) -> bool
    decreases s.len() + 1 - i,
{
    if i < 0 || i > s.len() {
        false
    } else {
        start_at(s, i) || processing_at(s, i) || parameters_at(s, i) || summary_from(s, i + 1)
    }
}

/// An SQL statement that was not served from the query cache.
pub open spec fn uncached_sql(s: Seq<char>) -> bool {
    (contains(s, seq!['S', 'E', 'L', 'E', 'C', 'T']) || contains(s, seq!['I', 'N', 'S', 'E', 'R', 'T'])
        || contains(s, seq!['U', 'P', 'D', 'A', 'T', 'E']) || contains(
        s,
        seq!['D', 'E', 'L', 'E', 'T', 'E'],
    )) && !contains(s, seq!['C', 'A', 'C', 'H', 'E'])
}

/// The tone of a status whose first digit is `d`.
pub open spec fn tone_of(d: char) -> StatusType {
    if d == '2' {
        StatusType::Success
    } else if d == '4' {
        StatusType::Warning
    } else if d == '5' {
        StatusType::Error
    } else {
        StatusType::Unknown
    }
}

/// How simple mode shows the core `m` of a line: `None` where it hides it,
/// else the tone (`Unknown`: no color).
pub open spec fn simple_tone(m: Seq<char>) -> Option<StatusType> {
    match first_completion(m, 0) {
        Some((j, e)) => Some(tone_of(m[j])),
        None => if summary_from(m, 0) || uncached_sql(m) || contains(m, seq!['\u{21b3}']) {
            Some(StatusType::Unknown)
        } else {
            None
        },
    }
}

fn digit_end_exec(s: &Vec<char>, j: usize) -> (r: usize)
    requires
        j <= s@.len(),
    ensures
        r == digit_end(s@, j as int),
        j <= r <= s@.len(),
{
    let mut p = j;
    while p < s.len() && '0' <= s[p] && s[p] <= '9'
        invariant
            j <= p <= s@.len(),
            digit_end(s@, j as int) == digit_end(s@, p as int),
        decreases s@.len() - p,
    {
        p += 1;
    }
    p
}

fn upper_end_exec(s: &Vec<char>, j: usize) -> (r: usize)
    requires
        j <= s@.len(),
    ensures
        r == upper_end(s@, j as int),
        j <= r <= s@.len(),
{
    let mut p = j;
    while p < s.len() && 'A' <= s[p] && s[p] <= 'Z'
        invariant
            j <= p <= s@.len(),
            upper_end(s@, j as int) == upper_end(s@, p as int),
        decreases s@.len() - p,
    {
        p += 1;
    }
    p
}

fn word_end_exec(s: &Vec<char>, j: usize) -> (r: usize)
    requires
        j <= s@.len(),
    ensures
        r == word_end(s@, j as int),
        j <= r <= s@.len(),
{
    let mut p = j;
    while p < s.len() && word_char(s[p])
        invariant
            j <= p <= s@.len(),
            word_end(s@, j as int) == word_end(s@, p as int),
        decreases s@.len() - p,
    {
        p += 1;
    }
    p
}

fn path_end_exec(s: &Vec<char>, j: usize) -> (r: usize)
    requires
        j <= s@.len(),
    ensures
        r == path_end(s@, j as int),
        j <= r <= s@.len(),
{
    let mut p = j;
    while p < s.len() && (word_char(s[p]) || s[p] == ':')
        invariant
            j <= p <= s@.len(),
            path_end(s@, j as int) == path_end(s@, p as int),
        decreases s@.len() - p,
    {
        p += 1;
    }
    p
}

fn word_or_space(c: char) -> (r: bool)
    ensures
        r == is_word_or_space(c),
{
    word_char(c) || is_whitespace(c)
}

fn duration_at_exec(s: &Vec<char>, k: usize) -> (r: bool)
    ensures
        r == duration_at(s@, k as int),
{
    let n = s.len();
    let sep = vec![' ', 'i', 'n', ' '];
    assert(sep@ == seq![' ', 'i', 'n', ' ']);
    if !occurs_at_exec(s, &sep, k) {
        return false;
    }
    let e = digit_end_exec(s, k + 4);
    let ms = vec!['m', 's'];
    assert(ms@ == seq!['m', 's']);
    e > k + 4 && occurs_at_exec(s, &ms, e)
}

fn duration_from_exec(s: &Vec<char>, k: usize) -> (r: bool)
    ensures
        r == duration_from(s@, k as int),
{
    let mut p = k;
    loop
        invariant
            duration_from(s@, k as int) == duration_from(s@, p as int),
        decreases s@.len() + 1 - p,
    {
        if p > s.len() {
            return false;
        }
        if duration_at_exec(s, p) {
            return true;
        }
        if p < s.len() && word_or_space(s[p]) {
            p += 1;
        } else {
            return false;
        }
    }
}

fn completion_at_exec(s: &Vec<char>, i: usize) -> (r: Option<usize>)
    ensures
        match r {
            Some(e) => completion_at(s@, i as int) == Some(e as int) && i + 10 < e < s@.len(),
            None => completion_at(s@, i as int) is None,
        },
{
    let n = s.len();
    let marker = vec!['C', 'o', 'm', 'p', 'l', 'e', 't', 'e', 'd', ' '];
    assert(marker@ == completed_marker());
    if !occurs_at_exec(s, &marker, i) {
        return None;
    }
    let e = digit_end_exec(s, i + 10);
    if e > i + 10 && e < n && n - e > 1 && s[e] == ' ' && word_or_space(s[e + 1]) && duration_from_exec(
        s,
        e + 2,
    ) {
        Some(e)
    } else {
        None
    }
}

fn first_completion_exec(s: &Vec<char>) -> (r: Option<(usize, usize)>)
    ensures
        match r {
            Some((j, e)) => first_completion(s@, 0) == Some((j as int, e as int)) && j < e < s@.len(),
            None => first_completion(s@, 0) is None,
        },
{
    let n = s.len();
    let mut i: usize = 0;
    while i <= s.len()
        invariant
            i <= s@.len() + 1,
            s@.len() <= usize::MAX,
            first_completion(s@, 0) == first_completion(s@, i as int),
        decreases s@.len() + 1 - i,
    {
        match completion_at_exec(s, i) {
            Some(e) => {
                return Some((i + 10, e));
            },
            None => {},
        }
        if i == s.len() {
            assert(first_completion(s@, i + 1) is None);
            return None;
        }
        i += 1;
    }
    None
}

fn start_at_exec(s: &Vec<char>, i: usize) -> (r: bool)
    ensures
        r == start_at(s@, i as int),
{
    let n = s.len();
    let marker = vec!['S', 't', 'a', 'r', 't', 'e', 'd', ' '];
    assert(marker@ == started_marker());
    if !occurs_at_exec(s, &marker, i) {
        return false;
    }
    let e = upper_end_exec(s, i + 8);
    let quote = vec!['"'];
    assert(quote@ == seq!['"']);
    e > i + 8 && e < n && n - e > 2 && s[e] == ' ' && s[e + 1] == '"' && s[e + 2] != '"' && find(
        s,
        &quote,
        e + 3,
    ).is_some()
}

fn processing_at_exec(s: &Vec<char>, i: usize) -> (r: bool)
    ensures
        r == processing_at(s@, i as int),
{
    let n = s.len();
    let marker = vec!['P', 'r', 'o', 'c', 'e', 's', 's', 'i', 'n', 'g', ' ', 'b', 'y', ' '];
    assert(marker@ == seq!['P', 'r', 'o', 'c', 'e', 's', 's', 'i', 'n', 'g', ' ', 'b', 'y', ' ']);
    if !occurs_at_exec(s, &marker, i) {
        return false;
    }
    let a = i + 14;
    let b = path_end_exec(s, a);
    if !(b > a && b < n && s[b] == '#') {
        return false;
    }
    let d = word_end_exec(s, b + 1);
    let sep = vec![' ', 'a', 's', ' '];
    assert(sep@ == seq![' ', 'a', 's', ' ']);
    if !(d > b + 1 && occurs_at_exec(s, &sep, d)) {
        return false;
    }
    word_end_exec(s, d + 4) > d + 4
}

fn brace_from_exec(s: &Vec<char>, j: usize) -> (r: bool)
    ensures
        r == brace_from(s@, j as int),
{
    let mut p = j;
    while p < s.len()
        invariant
            brace_from(s@, j as int) == brace_from(s@, p as int),
        decreases s@.len() - p,
    {
        if s[p] == '}' {
            return true;
        }
        if s[p] == '\n' {
            return false;
        }
        p += 1;
    }
    false
}

fn parameters_at_exec(s: &Vec<char>, i: usize) -> (r: bool)
    ensures
        r == parameters_at(s@, i as int),
{
    let n = s.len();
    let marker = vec!['P', 'a', 'r', 'a', 'm', 'e', 't', 'e', 'r', 's', ':', ' ', '{'];
    assert(marker@ == parameters_marker());
    occurs_at_exec(s, &marker, i) && brace_from_exec(s, i + 13)
}

fn summary_from_exec(s: &Vec<char>) -> (r: bool)
    ensures
        r == summary_from(s@, 0),
{
    let n = s.len();
    let mut i: usize = 0;
    while i <= s.len()
        invariant
            i <= s@.len() + 1,
            s@.len() <= usize::MAX,
            summary_from(s@, 0) == summary_from(s@, i as int),
        decreases s@.len() + 1 - i,
    {
        if start_at_exec(s, i) || processing_at_exec(s, i) || parameters_at_exec(s, i) {
            return true;
        }
        if i == s.len() {
            assert(summary_from(s@, i + 1) == false);
            return false;
        }
        i += 1;
    }
    false
}

fn uncached_sql_exec(s: &Vec<char>) -> (r: bool)
    ensures
        r == uncached_sql(s@),
{
    let select = vec!['S', 'E', 'L', 'E', 'C', 'T'];
    let insert = vec!['I', 'N', 'S', 'E', 'R', 'T'];
    let update = vec!['U', 'P', 'D', 'A', 'T', 'E'];
    let delete = vec!['D', 'E', 'L', 'E', 'T', 'E'];
    let cache = vec!['C', 'A', 'C', 'H', 'E'];
    assert(select@ == seq!['S', 'E', 'L', 'E', 'C', 'T']);
    assert(insert@ == seq!['I', 'N', 'S', 'E', 'R', 'T']);
    assert(update@ == seq!['U', 'P', 'D', 'A', 'T', 'E']);
    assert(delete@ == seq!['D', 'E', 'L', 'E', 'T', 'E']);
    assert(cache@ == seq!['C', 'A', 'C', 'H', 'E']);
    (contains_exec(s, &select) || contains_exec(s, &insert) || contains_exec(s, &update)
        || contains_exec(s, &delete)) && !contains_exec(s, &cache)
}

/// The start of the text after the last `] ` of `s`, or 0.
fn core_start(s: &Vec<char>) -> (r: usize)
    ensures
        r <= s@.len(),
        s@.subrange(r as int, s@.len() as int) == core_message(s@),
{
    let n = s.len();
    let sep = vec![']', ' '];
    assert(sep@ == seq![']', ' ']);
    if n < 2 {
        assert(s@.subrange(0, n as int) =~= s@);
        return 0;
    }
    let mut i = n - 2;
    loop
        invariant
            i + 2 <= n == s@.len(),
            sep@ == seq![']', ' '],
            last_from(s@, sep@, n - 2) == last_from(s@, sep@, i as int),
        decreases i,
    {
        if occurs_at_exec(s, &sep, i) {
            return i + 2;
        }
        if i == 0 {
            assert(last_from(s@, sep@, -1) is None);
            assert(s@.subrange(0, n as int) =~= s@);
            return 0;
        }
        i -= 1;
    }
}

/// How simple mode shows `line`: `None` where it hides it, else the text
/// after the line's last `] ` and the tone to show it in, that of the
/// completion status for a completion line and `Unknown` (no color) for the
/// other summary lines.
pub fn simple_line(line: &str) -> (r: Option<(String, StatusType)>)
    ensures
        match r {
            Some((text, tone)) => text@ == core_message(line@) && simple_tone(core_message(line@))
                == Some(tone),
            None => simple_tone(core_message(line@)) is None,
        },
{
    let s = chars_of(line);
    let start = core_start(&s);
    let n = s.len();
    let m = crate::text::copy_range(&s, start, n);
    let tone = match first_completion_exec(&m) {
        Some((j, e)) => {
            let d = m[j];
            if d == '2' {
                StatusType::Success
            } else if d == '4' {
                StatusType::Warning
            } else if d == '5' {
                StatusType::Error
            } else {
                StatusType::Unknown
            }
        },
        None => {
            let arrow = vec!['\u{21b3}'];
            assert(arrow@ == seq!['\u{21b3}']);
            if summary_from_exec(&m) || uncached_sql_exec(&m) || contains_exec(&m, &arrow) {
                StatusType::Unknown
            } else {
                return None;
            }
        },
    };
    Some((string_of(&m, 0, m.len()), tone))
}

} // verus!
