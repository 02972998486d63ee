//! Turns a raw log line into a `LogEntry`: the request id comes from a
//! leading `[id]`, found after color escapes and leading whitespace are set
//! aside.
use vstd::prelude::*;
use crate::app_state::{LogEntry, Timestamp};
use crate::text::{chars_of, find, find_from, lemma_find_from, string_of, trim_bounds, push_char, trim, trim_start, ws_end_exec};

verus! {

/// The end of the run of digits and `;` that starts at `j`.
pub open spec fn param_end(s: Seq<char>, j: int) -> int
    decreases s.len() - j,
{
    if 0 <= j < s.len() && (('0' <= s[j] && s[j] <= '9') || s[j] == ';') {
        param_end(s, j + 1)
    } else {
        j
    }
}

/// The length of the color escape `ESC [ params m` or `ESC [ params K` that
/// starts at `i`, or zero.
pub open spec fn escape_len(s: Seq<char>, i: int) -> int {
    if 0 <= i && i + 1 < s.len() && s[i] == '\x1b' && s[i + 1] == '[' {
        let e = param_end(s, i + 2);
        if e < s.len() && (s[e] == 'm' || s[e] == 'K') {
            e + 1 - i
        } else {
            0
        }
    } else {
        0
    }
}

/// `s[i..]` with the color escapes removed, scanning left to right.
pub open spec fn strip_from(s: Seq<char>, i: int) -> Seq<char>
    decreases s.len() - i,
{
    if i < 0 || i >= s.len() {
        seq![]
    } else if escape_len(s, i) > 0 {
        strip_from(s, i + escape_len(s, i))
    } else {
        seq![s[i]] + strip_from(s, i + 1)
    }
}

/// `s` with the color escapes removed.
pub open spec fn strip_ansi(s: Seq<char>) -> Seq<char> {
    strip_from(s, 0)
}

/// The request id that a line starting with `[` names: the text up to the
/// first `]`, trimmed, if that is not empty.
pub open spec fn request_id_of(s: Seq<char>) -> Option<Seq<char>> {
    if s.len() == 0 || s[0] != '[' {
        None
    } else {
        match find_from(s, seq![']'], 0) {
            None => None,
            Some(end) => if trim(s.subrange(1, end)).len() == 0 {
                None
            } else {
                Some(trim(s.subrange(1, end)))
            },
        }
    }
}

/// The request id of a raw line: looked for once color escapes and leading
/// whitespace are removed; empty where there is none.
pub open spec fn line_request_id(s: Seq<char>) -> Seq<char> {
    match request_id_of(trim_start(strip_ansi(s))) {
        Some(id) => id,
        None => seq![],
    }
}

fn param_end_exec(s: &Vec<char>, j: usize) -> (r: usize)
    requires
        j <= s@.len(),
    ensures
        r == param_end(s@, j as int),
        j <= r <= s@.len(),
{
    let mut p = j;
    while p < s.len() && (('0' <= s[p] && s[p] <= '9') || s[p] == ';')
        invariant
            j <= p <= s@.len(),
            param_end(s@, j as int) == param_end(s@, p as int),
        decreases s@.len() - p,
    {
        p += 1;
    }
    p
}

fn escape_len_exec(s: &Vec<char>, i: usize) -> (r: usize)
    ensures
        r == escape_len(s@, i as int),
{
    if i < s.len() && s.len() - i > 1 && s[i] == '\x1b' && s[i + 1] == '[' {
        let e = param_end_exec(s, i + 2);
        if e < s.len() && (s[e] == 'm' || s[e] == 'K') {
            e + 1 - i
        } else {
            0
        }
    } else {
        0
    }
}

/// `text` with every color escape sequence `ESC [ params m` or
/// `ESC [ params K` removed.
pub fn strip_ansi_for_parsing(text: &str) -> (r: String)
    ensures
        r@ == strip_ansi(text@),
{
    let s = chars_of(text);
    let mut r = String::new();
    let mut i: usize = 0;
    while i < s.len()
        invariant
            i <= s@.len(),
            s@ == text@,
            r@ + strip_from(s@, i as int) == strip_ansi(s@),
        decreases s@.len() - i,
    {
        let n = escape_len_exec(&s, i);
        if n > 0 {
            i += n;
        } else {
            proof {
                assert(r@ + strip_from(s@, i as int) =~= r@.push(s@[i as int]) + strip_from(s@, i + 1));
            }
            push_char(&mut r, s[i]);
            i += 1;
        }
    }
    assert(r@ + strip_from(s@, i as int) =~= r@);
    r
}

/// The request id of a line that starts with `[`: the text up to the first
/// `]`, trimmed; `None` where the line does not start with `[`, holds no `]`,
/// or the id would be empty.
pub fn extract_request_id(line: &str) -> (r: Option<String>)
    ensures
        match r {
            Some(id) => request_id_of(line@) == Some(id@),
            None => request_id_of(line@) is None,
        },
{
    let s = chars_of(line);
    request_id_in(&s)
}

fn request_id_in(s: &Vec<char>) -> (r: Option<String>)
    ensures
        match r {
            Some(id) => request_id_of(s@) == Some(id@),
            None => request_id_of(s@) is None,
        },
{
    if s.len() == 0 || s[0] != '[' {
        return None;
    }
    let close = vec![']'];
    assert(close@ == seq![']']);
    let end = match find(s, &close, 0) {
        Some(e) => e,
        None => return None,
    };
    proof {
        lemma_find_from(s@, close@, 0);
        if end == 0 {
            assert(s@.subrange(0, 1)[0] == ']');
        }
        assert(end + 1 <= s@.len());
    }
    let (a, b) = trim_bounds(s, 1, end);
    if a == b {
        assert(trim(s@.subrange(1, end as int)).len() == 0);
        None
    } else {
        Some(string_of(s, a, b))
    }
}

/// Relies on `chrono::Local::now`: the current time, read as milliseconds
/// since the Unix epoch.
#[verifier::external_body]
fn now_millis() -> (r: i64) {
    chrono::Local::now().timestamp_millis()
}

/// The entry for `line` captured at `timestamp`: `None` for an empty or
/// whitespace-only line; else the line unchanged as the message and its
/// request id (empty where it has none).
pub fn parse_with_time(line: &str, timestamp: Timestamp) -> (r: Option<LogEntry>)
    ensures
        match r {
            Some(e) => trim_start(line@).len() > 0 && e.message@ == line@ && e.request_id@
                == line_request_id(line@) && e.timestamp == timestamp,
            None => trim_start(line@).len() == 0,
        },
{
    let s = chars_of(line);
    let lead = ws_end_exec(&s, 0);
    if lead == s.len() {
        return None;
    }
    let stripped = chars_of(strip_ansi_for_parsing(line).as_str());
    let start = ws_end_exec(&stripped, 0);
    let rest = crate::text::copy_range(&stripped, start, stripped.len());
    let request_id = match request_id_in(&rest) {
        Some(id) => id,
        None => String::new(),
    };
    Some(LogEntry { timestamp, request_id, message: line.to_owned() })
}

/// The entry for `line`, stamped with the current time; `None` for an empty
/// or whitespace-only line.
pub fn parse(line: &str) -> (r: Option<LogEntry>)
    ensures
        match r {
            Some(e) => trim_start(line@).len() > 0 && e.message@ == line@ && e.request_id@
                == line_request_id(line@),
            None => trim_start(line@).len() == 0,
        },
{
    let timestamp = Timestamp { millis: now_millis() };
    parse_with_time(line, timestamp)
}

/// What a message shows once its request id is set aside: the text after
/// its first `]`, trimmed, or the whole message where it holds no `]`.
pub open spec fn body_of(m: Seq<char>) -> Seq<char> {
    match find_from(m, seq![']'], 0) {
        Some(p) => trim(m.subrange(p + 1, m.len() as int)),
        None => m,
    }
}

/// The message without its leading `[request-id]`.
pub fn message_body(message: &str) -> (r: String)
    ensures
        r@ == body_of(message@),
{
    let s = chars_of(message);
    let close = vec![']'];
    assert(close@ == seq![']']);
    match find(&s, &close, 0) {
        Some(p) => {
            proof {
                lemma_find_from(s@, close@, 0);
            }
            let n = s.len();
            let (a, b) = trim_bounds(&s, p + 1, n);
            string_of(&s, a, b)
        },
        None => message.to_owned(),
    }
}

} // verus!
