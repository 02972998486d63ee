//! Request groups and the aggregation state: log entries grouped by request
//! id, the order in which requests arrived, the selection, and the flat
//! chronological buffer of every entry.
use vstd::prelude::*;
use crate::sql_info::{add_message, empty_counts, SqlCounts, SqlQueryInfo};
use crate::text::{
    chars_of, contains, contains_exec, find, find_from, lemma_find_from, parse_u16, parse_u16_range,
    range_equals, string_of, word_bounds, words,
};

verus! {

/// How a finished request ended, by its HTTP status class.
#[derive(Clone, Copy, Debug, PartialEq, Eq, Structural)]
pub enum StatusType {
    /// 2xx
    Success,
    /// 4xx
    Warning,
    /// 5xx
    Error,
    Unknown,
}

/// The class of an HTTP status code.
pub open spec fn status_of_code(code: int) -> StatusType {
    if 200 <= code <= 299 {
        StatusType::Success
    } else if 400 <= code <= 499 {
        StatusType::Warning
    } else if 500 <= code <= 599 {
        StatusType::Error
    } else {
        StatusType::Unknown
    }
}

/// The class of an HTTP status code.
pub fn classify_status(code: u16) -> (r: StatusType)
    ensures
        r == status_of_code(code as int),
{
    if 200 <= code && code <= 299 {
        StatusType::Success
    } else if 400 <= code && code <= 499 {
        StatusType::Warning
    } else if 500 <= code && code <= 599 {
        StatusType::Error
    } else {
        StatusType::Unknown
    }
}

/// A capture time, in milliseconds since the Unix epoch.
#[derive(Clone, Copy, Debug, PartialEq, Eq, Structural)]
pub struct Timestamp {
    pub millis: i64,
}

/// One ingested log line.
#[derive(Clone, Debug)]
pub struct LogEntry {
    pub timestamp: Timestamp,
    /// The request the line belongs to; empty for an unscoped line.
    pub request_id: String,
    /// The line as it was read, color escapes included.
    pub message: String,
}

impl LogEntry {
    /// An equal copy of this entry.
    pub fn duplicate(&self) -> (r: LogEntry)
        ensures
            r == *self,
    {
        LogEntry {
            timestamp: self.timestamp,
            request_id: self.request_id.clone(),
            message: self.message.clone(),
        }
    }
}

} // verus!
verus! {

pub open spec fn started_marker() -> Seq<char> {
    seq!['S', 't', 'a', 'r', 't', 'e', 'd', ' ']
}

pub open spec fn completed_marker() -> Seq<char> {
    seq!['C', 'o', 'm', 'p', 'l', 'e', 't', 'e', 'd', ' ']
}

pub open spec fn completed_word() -> Seq<char> {
    seq!['C', 'o', 'm', 'p', 'l', 'e', 't', 'e', 'd']
}

/// The title placeholder of a request whose start line was not seen.
pub open spec fn untitled() -> Seq<char> {
    seq!['.', '.', '.']
}

/// The word that follows the first word equal to `w`, if any.
pub open spec fn word_after(ws: Seq<Seq<char>>, w: Seq<char>) -> Option<Seq<char>>
    decreases ws.len(),
{
    if ws.len() < 2 {
        None
    } else if ws[0] == w {
        Some(ws[1])
    } else {
        word_after(ws.drop_first(), w)
    }
}

/// The title after message `m`: the text after the first `Started `, or the
/// old title where there is none.
pub open spec fn title_after(m: Seq<char>, title: Seq<char>) -> Seq<char> {
    match find_from(m, started_marker(), 0) {
        Some(p) => m.subrange(p + 8, m.len() as int),
        None => title,
    }
}

/// The status after message `m`: where `m` holds `Completed ` and the word
/// after the word `Completed` reads as a status code, that code's class;
/// else the old status.
pub open spec fn status_after(m: Seq<char>, status: StatusType) -> StatusType {
    if contains(m, completed_marker()) {
        match word_after(words(m), completed_word()) {
            Some(t) => match parse_u16(t) {
                Some(code) => status_of_code(code),
                None => status,
            },
            None => status,
        }
    } else {
        status
    }
}

/// What a request group holds.
pub struct GroupModel {
    pub title: Seq<char>,
    /// Newest first.
    pub entries: Seq<LogEntry>,
    pub finished: bool,
    pub status: StatusType,
    pub sql: SqlCounts,
    pub first: Timestamp,
}

/// A group after one more entry.
pub open spec fn apply_entry(g: GroupModel, e: LogEntry) -> GroupModel {
    let m = e.message@;
    GroupModel {
        title: title_after(m, g.title),
        entries: seq![e] + g.entries,
        finished: g.finished || contains(m, completed_marker()),
        status: status_after(m, g.status),
        sql: add_message(g.sql, m),
        first: g.first,
    }
}

/// The group that a request's first entry creates.
pub open spec fn fresh_group(e: LogEntry) -> GroupModel {
    apply_entry(
        GroupModel {
            title: untitled(),
            entries: seq![],
            finished: false,
            status: StatusType::Unknown,
            sql: empty_counts(),
            first: e.timestamp,
        },
        e,
    )
}

/// The log history of one request.
pub struct LogGroup {
    pub title: String,
    /// Newest first.
    pub entries: std::collections::VecDeque<LogEntry>,
    pub finished: bool,
    pub status_type: StatusType,
    pub sql_query_info: SqlQueryInfo,
    pub first_timestamp: Timestamp,
}

impl View for LogGroup {
    type V = GroupModel;

    open spec fn view(&self) -> GroupModel {
        GroupModel {
            title: self.title@,
            entries: self.entries@,
            finished: self.finished,
            status: self.status_type,
            sql: self.sql_query_info@,
            first: self.first_timestamp,
        }
    }
}

fn word_after_exec(s: &Vec<char>, ws: &Vec<(usize, usize)>, word: &Vec<char>) -> (r: Option<usize>)
    requires
        ws@.len() == words(s@).len(),
        forall|k: int|
            0 <= k < ws@.len() ==> (#[trigger] ws@[k]).0 <= ws@[k].1 <= s@.len() && s@.subrange(
                ws@[k].0 as int,
                ws@[k].1 as int,
            ) == words(s@)[k],
    ensures
        match r {
            Some(k) => k < ws@.len() && word_after(words(s@), word@) == Some(words(s@)[k as int]),
            None => word_after(words(s@), word@) is None,
        },
{
    let ghost w = words(s@);
    let mut j: usize = 0;
    assert(w.skip(0) =~= w);
    while j < ws.len()
        invariant
            w == words(s@),
            j <= ws@.len(),
            ws@.len() == w.len(),
            forall|k: int|
                0 <= k < ws@.len() ==> (#[trigger] ws@[k]).0 <= ws@[k].1 <= s@.len()
                    && s@.subrange(ws@[k].0 as int, ws@[k].1 as int) == w[k],
            word_after(w, word@) == word_after(w.skip(j as int), word@),
        decreases ws@.len() - j,
    {
        if ws.len() - j < 2 {
            return None;
        }
        if range_equals(s, ws[j].0, ws[j].1, word) {
            return Some(j + 1);
        }
        assert(w.skip(j as int).drop_first() =~= w.skip(j + 1));
        j += 1;
    }
    None
}

impl LogGroup {
    /// The group's contents are consistent.
    pub open spec fn wf(&self) -> bool {
        self.sql_query_info.wf()
    }

    /// A group seeded with its first entry.
    pub fn new(log_entry: &LogEntry) -> (r: Self)
        ensures
            r.wf(),
            r@ == fresh_group(*log_entry),
    {
        let mut group = LogGroup {
            title: "...".to_owned(),
            entries: std::collections::VecDeque::with_capacity(10),
            finished: false,
            status_type: StatusType::Unknown,
            sql_query_info: SqlQueryInfo::new(),
            first_timestamp: log_entry.timestamp,
        };
        proof {
            reveal_strlit("...");
        }
        assert(group.title@ =~= untitled());
        group.add_entry(log_entry.duplicate());
        group
    }

    /// Folds one more entry into the group: its title, completion, status
    /// and SQL counts, and puts the entry at the front.
    pub fn add_entry(&mut self, log_entry: LogEntry)
        requires
            old(self).wf(),
        ensures
            final(self).wf(),
            final(self)@ == apply_entry(old(self)@, log_entry),
    {
        let m = chars_of(log_entry.message.as_str());
        let started = vec!['S', 't', 'a', 'r', 't', 'e', 'd', ' '];
        assert(started@ == started_marker());
        match find(&m, &started, 0) {
            Some(p) => {
                proof {
                    lemma_find_from(m@, started@, 0);
                }
                let n = m.len();
                self.title = string_of(&m, p + 8, n);
            },
            None => {},
        }
        let completed = vec!['C', 'o', 'm', 'p', 'l', 'e', 't', 'e', 'd', ' '];
        assert(completed@ == completed_marker());
        if contains_exec(&m, &completed) {
            self.finished = true;
            let ws = word_bounds(&m);
            let word = vec!['C', 'o', 'm', 'p', 'l', 'e', 't', 'e', 'd'];
            assert(word@ == completed_word());
            match word_after_exec(&m, &ws, &word) {
                Some(k) => match parse_u16_range(&m, ws[k].0, ws[k].1) {
                    Some(code) => {
                        self.status_type = classify_status(code);
                    },
                    None => {},
                },
                None => {},
            }
        }
        match SqlQueryInfo::from_message(log_entry.message.as_str()) {
            Some(info) => self.sql_query_info.merge(&info),
            None => {},
        }
        self.entries.push_front(log_entry);
    }
}

} // verus!
verus! {

/// What the aggregation state holds.
pub struct StateModel {
    /// Request ids, most recently first seen first.
    pub ids: Seq<Seq<char>>,
    /// The group of each id, in the same order.
    pub groups: Seq<GroupModel>,
    pub selected: int,
    /// Every entry, oldest first.
    pub all_logs: Seq<LogEntry>,
}

/// The ids are distinct and non-empty, each has a group, and the selection
/// is zero or a valid index.
pub open spec fn model_ok(s: StateModel) -> bool {
    &&& s.ids.len() == s.groups.len()
    &&& s.ids.no_duplicates()
    &&& forall|i: int| 0 <= i < s.ids.len() ==> (#[trigger] s.ids[i]).len() > 0
    &&& s.selected == 0 || (0 <= s.selected < s.ids.len())
}

/// The index of `id` among `ids`.
pub open spec fn position(ids: Seq<Seq<char>>, id: Seq<char>) -> int {
    choose|k: int| 0 <= k < ids.len() && ids[k] == id
}

/// The state after ingesting one entry.
pub open spec fn ingest(s: StateModel, e: LogEntry) -> StateModel {
    let id = e.request_id@;
    let logs = s.all_logs.push(e);
    if id.len() == 0 {
        StateModel { all_logs: logs, ..s }
    } else if s.ids.contains(id) {
        let k = position(s.ids, id);
        StateModel { groups: s.groups.update(k, apply_entry(s.groups[k], e)), all_logs: logs, ..s }
    } else {
        StateModel {
            ids: seq![id] + s.ids,
            groups: seq![fresh_group(e)] + s.groups,
            selected: if s.ids.len() == 0 {
                0
            } else {
                s.selected + 1
            },
            all_logs: logs,
        }
    }
}

/// The state after ingesting `es` in order.
pub open spec fn ingest_all(s: StateModel, es: Seq<LogEntry>) -> StateModel {
    es.fold_left(s, |acc: StateModel, e: LogEntry| ingest(acc, e))
}

/// The request ids of `es`, in arrival order.
pub open spec fn arrival_ids(es: Seq<LogEntry>) -> Seq<Seq<char>> {
    es.map_values(|e: LogEntry| e.request_id@)
}

/// The group of request `id`.
pub open spec fn group_of(s: StateModel, id: Seq<char>) -> GroupModel {
    s.groups[position(s.ids, id)]
}

proof fn lemma_position(ids: Seq<Seq<char>>, k: int)
    requires
        ids.no_duplicates(),
        0 <= k < ids.len(),
    ensures
        position(ids, ids[k]) == k,
{
    let id = ids[k];
    assert(ids.contains(id));
    let j = position(ids, id);
}

/// Ingestion keeps the state consistent.
pub proof fn lemma_ingest_ok(s: StateModel, e: LogEntry)
    requires
        model_ok(s),
    ensures
        model_ok(ingest(s, e)),
{
    let id = e.request_id@;
    if id.len() > 0 && !s.ids.contains(id) {
        let t = ingest(s, e);
        assert forall|i: int, j: int| 0 <= i < t.ids.len() && 0 <= j < t.ids.len() && i != j implies t.ids[i] != t.ids[j] by {
            if i == 0 {
                assert(s.ids[j - 1] != id);
            } else if j == 0 {
                assert(s.ids[i - 1] != id);
            } else {
                assert(s.ids[i - 1] != s.ids[j - 1]);
            }
        }
        assert forall|i: int| 0 <= i < t.ids.len() implies (#[trigger] t.ids[i]).len() > 0 by {
            if i > 0 {
                assert(t.ids[i] == s.ids[i - 1]);
            }
        }
    }
}

/// Ingesting a list of entries keeps the state consistent.
pub proof fn lemma_ingest_all_ok(s: StateModel, es: Seq<LogEntry>)
    requires
        model_ok(s),
    ensures
        model_ok(ingest_all(s, es)),
    decreases es.len(),
{
    if es.len() > 0 {
        lemma_ingest_all_ok(s, es.drop_last());
        lemma_ingest_ok(ingest_all(s, es.drop_last()), es.last());
    }
}

/// Entries with distinct, new, non-empty request ids put their ids at the
/// front of the id list in reverse order of arrival: the most recent first.
pub proof fn lemma_ids_reverse_arrival(s: StateModel, es: Seq<LogEntry>)
    requires
        arrival_ids(es).no_duplicates(),
        forall|i: int| 0 <= i < es.len() ==> (#[trigger] es[i]).request_id@.len() > 0,
        forall|i: int| 0 <= i < es.len() ==> !s.ids.contains(#[trigger] es[i].request_id@),
    ensures
        ingest_all(s, es).ids == arrival_ids(es).reverse() + s.ids,
    decreases es.len(),
{
    if es.len() == 0 {
        assert(arrival_ids(es).reverse() + s.ids =~= s.ids);
    } else {
        let prev = es.drop_last();
        let x = es.last();
        assert(arrival_ids(prev) =~= arrival_ids(es).drop_last());
        assert forall|i: int, j: int| 0 <= i < arrival_ids(prev).len() && 0 <= j < arrival_ids(prev).len() && i != j implies arrival_ids(prev)[i] != arrival_ids(prev)[j] by {
            assert(arrival_ids(es)[i] != arrival_ids(es)[j]);
        }
        assert forall|i: int| 0 <= i < prev.len() implies (#[trigger] prev[i]).request_id@.len() > 0 by {
            assert(prev[i] == es[i]);
        }
        assert forall|i: int| 0 <= i < prev.len() implies !s.ids.contains(#[trigger] prev[i].request_id@) by {
            assert(prev[i] == es[i]);
        }
        lemma_ids_reverse_arrival(s, prev);
        let t = ingest_all(s, prev);
        let id = x.request_id@;
        assert(x == es[es.len() - 1]);
        assert(!t.ids.contains(id)) by {
            if t.ids.contains(id) {
                let k = choose|k: int| 0 <= k < t.ids.len() && t.ids[k] == id;
                if k < prev.len() {
                    let a = prev.len() - 1 - k;
                    assert(arrival_ids(prev)[a] == id);
                    assert(arrival_ids(es)[a] == arrival_ids(es)[es.len() - 1]);
                } else {
                    assert(s.ids[k - prev.len()] == id);
                }
            }
        }
        assert(arrival_ids(es).reverse() + s.ids =~= seq![id] + (arrival_ids(prev).reverse() + s.ids));
    }
}

/// The state before any entry.
pub open spec fn empty_state() -> StateModel {
    StateModel { ids: seq![], groups: seq![], selected: 0, all_logs: seq![] }
}

/// From the empty state, entries with distinct non-empty request ids leave
/// the id list in reverse order of arrival.
pub proof fn lemma_ids_reverse_arrival_from_empty(es: Seq<LogEntry>)
    requires
        arrival_ids(es).no_duplicates(),
        forall|i: int| 0 <= i < es.len() ==> (#[trigger] es[i]).request_id@.len() > 0,
    ensures
        ingest_all(empty_state(), es).ids == arrival_ids(es).reverse(),
{
    lemma_ids_reverse_arrival(empty_state(), es);
    assert(arrival_ids(es).reverse() + empty_state().ids =~= arrival_ids(es).reverse());
}

/// Entries that share one new request id end up, newest first, in the group
/// at the front of the list: reversed, the group's entries are the arrival
/// order.
pub proof fn lemma_entries_newest_first(s: StateModel, es: Seq<LogEntry>, id: Seq<char>)
    requires
        model_ok(s),
        id.len() > 0,
        !s.ids.contains(id),
        es.len() > 0,
        forall|i: int| 0 <= i < es.len() ==> (#[trigger] es[i]).request_id@ == id,
    ensures
        ingest_all(s, es).ids[0] == id,
        ingest_all(s, es).groups[0].entries.reverse() == es,
    decreases es.len(),
{
    let prev = es.drop_last();
    let x = es.last();
    assert(x == es[es.len() - 1]);
    if prev.len() == 0 {
        assert(ingest_all(s, prev) == s);
        assert(ingest_all(s, es).groups[0].entries.reverse() =~= es);
    } else {
        assert forall|i: int| 0 <= i < prev.len() implies (#[trigger] prev[i]).request_id@ == id by {
            assert(prev[i] == es[i]);
        }
        lemma_entries_newest_first(s, prev, id);
        lemma_ingest_all_ok(s, prev);
        let t = ingest_all(s, prev);
        assert(t.ids.contains(id)) by {
            assert(t.ids[0] == id);
        }
        lemma_position(t.ids, 0);
        assert(ingest_all(s, es).groups[0].entries.reverse() =~= t.groups[0].entries.reverse().push(x));
    }
}

/// A finished request stays finished whatever entry comes next.
pub proof fn lemma_finished_kept(s: StateModel, e: LogEntry, id: Seq<char>)
    requires
        model_ok(s),
        s.ids.contains(id),
        group_of(s, id).finished,
    ensures
        ingest(s, e).ids.contains(id),
        group_of(ingest(s, e), id).finished,
{
    let k = position(s.ids, id);
    let t = ingest(s, e);
    let eid = e.request_id@;
    if eid.len() > 0 && !s.ids.contains(eid) {
        assert(t.ids[k + 1] == id);
        lemma_ingest_ok(s, e);
        lemma_position(t.ids, k + 1);
    } else {
        assert(t.ids == s.ids);
        if eid.len() > 0 {
            lemma_position(s.ids, k);
        }
    }
}

/// A finished request stays finished after any sequence of entries.
pub proof fn lemma_finished_kept_all(s: StateModel, es: Seq<LogEntry>, id: Seq<char>)
    requires
        model_ok(s),
        s.ids.contains(id),
        group_of(s, id).finished,
    ensures
        ingest_all(s, es).ids.contains(id),
        group_of(ingest_all(s, es), id).finished,
    decreases es.len(),
{
    if es.len() > 0 {
        lemma_finished_kept_all(s, es.drop_last(), id);
        lemma_ingest_all_ok(s, es.drop_last());
        lemma_finished_kept(ingest_all(s, es.drop_last()), es.last(), id);
    }
}

} // verus!
verus! {

/// Log entries grouped by request id, the order in which requests arrived,
/// the selected request, and every entry in arrival order.
pub struct AppState {
    /// Request ids, most recently first seen first.
    pub request_ids: Vec<String>,
    /// The group of each id of `request_ids`, at the same index.
    pub groups: Vec<LogGroup>,
    pub selected_index: usize,
    /// Every entry, oldest first.
    pub all_logs: Vec<LogEntry>,
}

impl View for AppState {
    type V = StateModel;

    open spec fn view(&self) -> StateModel {
        StateModel {
            ids: self.request_ids@.map_values(|s: String| s@),
            groups: self.groups@.map_values(|g: LogGroup| g@),
            selected: self.selected_index as int,
            all_logs: self.all_logs@,
        }
    }
}

impl AppState {
    /// The state is consistent and every group is well formed.
    pub open spec fn wf(&self) -> bool {
        &&& model_ok(self@)
        &&& self.request_ids@.len() == self.groups@.len()
        &&& forall|i: int| 0 <= i < self.groups@.len() ==> (#[trigger] self.groups@[i]).wf()
    }

    /// An empty state.
    pub fn new() -> (r: Self)
        ensures
            r.wf(),
            r@ == empty_state(),
    {
        let r = AppState {
            request_ids: Vec::new(),
            groups: Vec::new(),
            selected_index: 0,
            all_logs: Vec::new(),
        };
        assert(r@.ids =~= seq![]);
        assert(r@.groups =~= seq![]);
        assert(r@.all_logs =~= seq![]);
        r
    }

    /// The request ids, most recently first seen first.
    pub fn request_ids(&self) -> (r: &Vec<String>)
        ensures
            r@.map_values(|s: String| s@) == self@.ids,
    {
        &self.request_ids
    }

    /// The number of requests seen.
    pub fn log_group_count(&self) -> (r: usize)
        requires
            self.wf(),
        ensures
            r == self@.groups.len(),
    {
        self.groups.len()
    }

    /// The id of the selected request, if there is any request.
    pub fn selected_request_id(&self) -> (r: Option<&String>)
        requires
            self.wf(),
        ensures
            match r {
                Some(id) => 0 <= self@.selected < self@.ids.len() && id@ == self@.ids[self@.selected],
                None => self@.ids.len() == 0,
            },
    {
        if self.selected_index < self.request_ids.len() {
            Some(&self.request_ids[self.selected_index])
        } else {
            None
        }
    }

    /// The group of the selected request, if there is any request.
    pub fn selected_group(&self) -> (r: Option<&LogGroup>)
        requires
            self.wf(),
        ensures
            match r {
                Some(g) => 0 <= self@.selected < self@.ids.len() && g@ == self@.groups[self@.selected]
                    && g.wf(),
                None => self@.ids.len() == 0,
            },
    {
        if self.selected_index < self.groups.len() {
            Some(&self.groups[self.selected_index])
        } else {
            None
        }
    }

    /// Selects request `index`; nothing changes and the result is false where
    /// `index` is out of range.
    pub fn select_request(&mut self, index: usize) -> (r: bool)
        requires
            old(self).wf(),
        ensures
            final(self).wf(),
            r == (index < old(self)@.ids.len()),
            !r ==> *final(self) == *old(self),
            final(self)@ == (StateModel {
                selected: if r {
                    index as int
                } else {
                    old(self)@.selected
                },
                ..old(self)@
            }),
    {
        if index < self.request_ids.len() {
            self.selected_index = index;
            true
        } else {
            false
        }
    }

    /// Moves the selection `n` requests towards the oldest, stopping at the
    /// last one; false (and no change) where there is no request or `n` is 0.
    pub fn next_request(&mut self, n: usize) -> (r: bool)
        requires
            old(self).wf(),
        ensures
            final(self).wf(),
            r == (old(self)@.ids.len() > 0 && n > 0),
            !r ==> *final(self) == *old(self),
            final(self)@ == (StateModel {
                selected: if r {
                    if old(self)@.selected + n < old(self)@.ids.len() {
                        old(self)@.selected + n
                    } else {
                        old(self)@.ids.len() - 1
                    }
                } else {
                    old(self)@.selected
                },
                ..old(self)@
            }),
    {
        if self.request_ids.len() == 0 || n == 0 {
            return false;
        }
        let last = self.request_ids.len() - 1;
        let target = if self.selected_index.saturating_add(n) < last {
            self.selected_index + n
        } else {
            last
        };
        self.select_request(target)
    }

    /// Moves the selection `n` requests towards the newest, stopping at the
    /// first one; false (and no change) where there is no request or `n` is 0.
    pub fn previous_request(&mut self, n: usize) -> (r: bool)
        requires
            old(self).wf(),
        ensures
            final(self).wf(),
            r == (old(self)@.ids.len() > 0 && n > 0),
            !r ==> *final(self) == *old(self),
            final(self)@ == (StateModel {
                selected: if r {
                    if old(self)@.selected > n {
                        old(self)@.selected - n
                    } else {
                        0
                    }
                } else {
                    old(self)@.selected
                },
                ..old(self)@
            }),
    {
        if self.request_ids.len() == 0 || n == 0 {
            return false;
        }
        let target = self.selected_index.saturating_sub(n);
        self.select_request(target)
    }

    /// The number of entries of the selected request, zero where there is none.
    pub fn selected_entries_count(&self) -> (r: usize)
        requires
            self.wf(),
        ensures
            r == if self@.ids.len() > 0 {
                self@.groups[self@.selected].entries.len()
            } else {
                0
            },
    {
        match self.selected_group() {
            Some(g) => g.entries.len(),
            None => 0,
        }
    }

    /// The rows needed to show the selected request's SQL counts, zero where
    /// there is no request.
    pub fn selected_sql_line_count(&self) -> (r: usize)
        requires
            self.wf(),
        ensures
            r == if self@.ids.len() > 0 {
                crate::sql_info::sat_add(self@.groups[self@.selected].sql.tables.dom().len() as int, 4)
            } else {
                0
            },
    {
        match self.selected_group() {
            Some(g) => g.sql_query_info.display_line_count(),
            None => 0,
        }
    }

    /// The index of request `id`, if it was seen.
    fn find_request(&self, id: &String) -> (r: Option<usize>)
        requires
            self.wf(),
        ensures
            match r {
                Some(k) => k < self@.ids.len() && self@.ids[k as int] == id@,
                None => !self@.ids.contains(id@),
            },
    {
        let mut i: usize = 0;
        while i < self.request_ids.len()
            invariant
                self.wf(),
                i <= self@.ids.len(),
                forall|j: int| 0 <= j < i ==> self@.ids[j] != id@,
            decreases self@.ids.len() - i,
        {
            if self.request_ids[i] == *id {
                return Some(i);
            }
            i += 1;
        }
        None
    }

    /// Ingests one entry: appends it to the flat buffer and, where it names a
    /// request, folds it into that request's group, creating the group (at the
    /// front of the list, moving the selection down by one unless it is the
    /// first group) where the id is new. Returns whether a group was created.
    pub fn add_log_entry(&mut self, log_entry: LogEntry) -> (r: bool)
        requires
            old(self).wf(),
        ensures
            final(self).wf(),
            final(self)@ == ingest(old(self)@, log_entry),
            r == (log_entry.request_id@.len() > 0 && !old(self)@.ids.contains(log_entry.request_id@)),
    {
        proof {
            lemma_ingest_ok(self@, log_entry);
        }
        let ghost s0 = self@;
        self.all_logs.push(log_entry.duplicate());
        if log_entry.request_id.as_str().is_empty() {
            assert(self@ =~= ingest(s0, log_entry));
            return false;
        }
        match self.find_request(&log_entry.request_id) {
            Some(k) => {
                proof {
                    lemma_position(s0.ids, k as int);
                    assert(s0.ids.contains(log_entry.request_id@));
                }
                let ghost g0 = self.groups@[k as int];
                self.groups[k].add_entry(log_entry);
                assert(self@.groups =~= s0.groups.update(k as int, apply_entry(g0@, log_entry)));
                assert(self@ =~= ingest(s0, log_entry));
                false
            },
            None => {
                let group = LogGroup::new(&log_entry);
                let id = log_entry.request_id.clone();
                self.request_ids.insert(0, id);
                self.groups.insert(0, group);
                if self.request_ids.len() > 1 {
                    self.selected_index = self.selected_index + 1;
                }
                assert(self@.ids =~= seq![log_entry.request_id@] + s0.ids);
                assert(self@.groups =~= seq![fresh_group(log_entry)] + s0.groups);
                assert(self@ =~= ingest(s0, log_entry));
                true
            },
        }
    }
}

} // verus!
verus! {

/// A message that starts a GET, POST, PUT or DELETE request.
pub open spec fn starts_request(m: Seq<char>) -> bool {
    let started = started_marker();
    contains(m, started + seq!['G', 'E', 'T']) || contains(m, started + seq!['P', 'O', 'S', 'T'])
        || contains(m, started + seq!['P', 'U', 'T']) || contains(m, started + seq![
        'D',
        'E',
        'L',
        'E',
        'T',
        'E',
    ])
}

/// The first of `es[i..]` that starts a request.
pub open spec fn first_request_start(es: Seq<LogEntry>, i: int) -> Option<int>
    decreases es.len() - i,
{
    if i < 0 || i >= es.len() {
        None
    } else if starts_request(es[i].message@) {
        Some(i)
    } else {
        first_request_start(es, i + 1)
    }
}

pub open spec fn started_word() -> Seq<char> {
    seq!['S', 't', 'a', 'r', 't', 'e', 'd']
}

/// The HTTP method of a start line: the word after the word `Started`.
pub open spec fn request_method(m: Seq<char>) -> Seq<char> {
    match word_after(words(m), started_word()) {
        Some(w) => w,
        None => seq![],
    }
}

/// The path of a start line: the text between the first ` "` and the next
/// `"`.
pub open spec fn request_path(m: Seq<char>) -> Seq<char> {
    match find_from(m, seq![' ', '"'], 0) {
        Some(p) => match find_from(m, seq!['"'], p + 2) {
            Some(q) => m.subrange(p + 2, q),
            None => seq![],
        },
        None => seq![],
    }
}

/// `method path` of a start line, cut to `limit` characters.
pub open spec fn request_line_of(m: Seq<char>, limit: int) -> Seq<char> {
    let line = request_method(m) + seq![' '] + request_path(m);
    line.take(if limit < line.len() { limit } else { line.len() as int })
}

fn starts_request_exec(s: &Vec<char>) -> (r: bool)
    ensures
        r == starts_request(s@),
{
    let get = vec!['S', 't', 'a', 'r', 't', 'e', 'd', ' ', 'G', 'E', 'T'];
    let post = vec!['S', 't', 'a', 'r', 't', 'e', 'd', ' ', 'P', 'O', 'S', 'T'];
    let put = vec!['S', 't', 'a', 'r', 't', 'e', 'd', ' ', 'P', 'U', 'T'];
    let delete = vec!['S', 't', 'a', 'r', 't', 'e', 'd', ' ', 'D', 'E', 'L', 'E', 'T', 'E'];
    assert(get@ =~= started_marker() + seq!['G', 'E', 'T']);
    assert(post@ =~= started_marker() + seq!['P', 'O', 'S', 'T']);
    assert(put@ =~= started_marker() + seq!['P', 'U', 'T']);
    assert(delete@ =~= started_marker() + seq!['D', 'E', 'L', 'E', 'T', 'E']);
    contains_exec(s, &get) || contains_exec(s, &post) || contains_exec(s, &put) || contains_exec(
        s,
        &delete,
    )
}

impl LogGroup {
    /// The index of the newest entry that starts a request.
    fn first_request_entry(&self) -> (r: Option<usize>)
        ensures
            match r {
                Some(i) => i < self.entries@.len() && first_request_start(self.entries@, 0) == Some(i as int),
                None => first_request_start(self.entries@, 0) is None,
            },
    {
        let mut i: usize = 0;
        while i < self.entries.len()
            invariant
                i <= self.entries@.len(),
                first_request_start(self.entries@, 0) == first_request_start(self.entries@, i as int),
            decreases self.entries@.len() - i,
        {
            let m = chars_of(self.entries[i].message.as_str());
            if starts_request_exec(&m) {
                return Some(i);
            }
            i += 1;
        }
        None
    }

    /// The request line shown above a request's entries: `method path` of its
    /// newest start line (color escapes removed), cut to `width - 10`
    /// characters; empty where no entry starts a request.
    pub fn request_line(&self, width: usize) -> (r: String)
        ensures
            r@ == match first_request_start(self.entries@, 0) {
                Some(i) => request_line_of(
                    crate::log_parser::strip_ansi(self.entries@[i].message@),
                    if width > 10 { width - 10 } else { 0 },
                ),
                None => seq![],
            },
    {
        let i = match self.first_request_entry() {
            Some(i) => i,
            None => return String::new(),
        };
        let s = chars_of(crate::log_parser::strip_ansi_for_parsing(self.entries[i].message.as_str()).as_str());
        let ghost m = s@;
        let n = s.len();
        let mut line: Vec<char> = Vec::new();
        let ws = word_bounds(&s);
        let started = vec!['S', 't', 'a', 'r', 't', 'e', 'd'];
        assert(started@ == started_word());
        match word_after_exec(&s, &ws, &started) {
            Some(k) => crate::text::append_range(&mut line, &s, ws[k].0, ws[k].1),
            None => {},
        }
        assert(line@ == request_method(m));
        line.push(' ');
        let open = vec![' ', '"'];
        let quote = vec!['"'];
        assert(open@ == seq![' ', '"']);
        assert(quote@ == seq!['"']);
        let ghost before_path = line@;
        match find(&s, &open, 0) {
            Some(p) => {
                proof {
                    crate::text::lemma_find_from(s@, open@, 0);
                }
                match find(&s, &quote, p + 2) {
                    Some(q) => {
                        proof {
                            crate::text::lemma_find_from(s@, quote@, p + 2);
                        }
                        crate::text::append_range(&mut line, &s, p + 2, q);
                    },
                    None => {},
                }
            },
            None => {},
        }
        assert(line@ =~= request_method(m) + seq![' '] + request_path(m));
        let limit = width.saturating_sub(10);
        let end = if limit < line.len() {
            limit
        } else {
            line.len()
        };
        let r = string_of(&line, 0, end);
        assert(r@ =~= request_line_of(m, limit as int));
        r
    }
}

} // verus!
