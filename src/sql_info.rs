//! Aggregation of the SQL statements found in log messages: per statement
//! kind a count, and per referenced table a count.
use vstd::prelude::*;
use crate::text::{
    chars_of, compare_chars, contains, contains_exec, copy_chars, copy_range, is_whitespace, is_ws, occurs_at, ws_end, ws_end_exec,
    occurs_at_exec, string_of, lemma_lex_asym, lemma_lex_trans, lex_lt,
};

verus! {

/// The four kinds of statement that are counted.
#[derive(Clone, Copy, Debug, PartialEq, Eq, Structural, Hash)]
pub enum QueryType {
    Select,
    Insert,
    Update,
    Delete,
}

/// Addition that stops at `usize::MAX`, the largest count that can be held.
pub open spec fn sat_add(a: int, b: int) -> int {
    if a + b > usize::MAX {
        usize::MAX as int
    } else {
        a + b
    }
}

/// What an aggregate holds: a count per statement kind and a count per table.
pub struct SqlCounts {
    pub select: int,
    pub insert: int,
    pub update: int,
    pub delete: int,
    pub tables: Map<Seq<char>, int>,
}

impl SqlCounts {
    pub open spec fn count(self, q: QueryType) -> int {
        match q {
            QueryType::Select => self.select,
            QueryType::Insert => self.insert,
            QueryType::Update => self.update,
            QueryType::Delete => self.delete,
        }
    }

    pub open spec fn total(self) -> int {
        self.select + self.insert + self.update + self.delete
    }
}

/// The aggregate of no statement at all.
pub open spec fn empty_counts() -> SqlCounts {
    SqlCounts { select: 0, insert: 0, update: 0, delete: 0, tables: Map::empty() }
}

/// The count of table `k`, zero where it was never referenced.
pub open spec fn table_value(m: Map<Seq<char>, int>, k: Seq<char>) -> int {
    if m.contains_key(k) {
        m[k]
    } else {
        0
    }
}

/// Table-wise sum of two table counts.
pub open spec fn merge_tables(a: Map<Seq<char>, int>, b: Map<Seq<char>, int>) -> Map<
    Seq<char>,
    int,
> {
    Map::new(
        |k: Seq<char>| a.contains_key(k) || b.contains_key(k),
        |k: Seq<char>| sat_add(table_value(a, k), table_value(b, k)),
    )
}

/// Bucket-wise and table-wise sum of two aggregates.
pub open spec fn merge_counts(a: SqlCounts, b: SqlCounts) -> SqlCounts {
    SqlCounts {
        select: sat_add(a.select, b.select),
        insert: sat_add(a.insert, b.insert),
        update: sat_add(a.update, b.update),
        delete: sat_add(a.delete, b.delete),
        tables: merge_tables(a.tables, b.tables),
    }
}

/// `a` with one more reference to table `k`.
pub open spec fn add_table(a: Map<Seq<char>, int>, k: Seq<char>, n: int) -> Map<Seq<char>, int> {
    a.insert(k, sat_add(table_value(a, k), n))
}

/// The table entries are strictly ordered by name.
pub open spec fn sorted_keys(t: Seq<(Vec<char>, usize)>) -> bool {
    forall|i: int, j: int| 0 <= i < j < t.len() ==> lex_lt(#[trigger] t[i].0@, #[trigger] t[j].0@)
}

pub open spec fn has_key(t: Seq<(Vec<char>, usize)>, k: Seq<char>) -> bool {
    exists|i: int| 0 <= i < t.len() && #[trigger] t[i].0@ == k
}

/// The table counts that a list of entries stands for.
pub open spec fn tables_map(t: Seq<(Vec<char>, usize)>) -> Map<Seq<char>, int> {
    Map::new(
        |k: Seq<char>| has_key(t, k),
        |k: Seq<char>| t[choose|i: int| 0 <= i < t.len() && #[trigger] t[i].0@ == k].1 as int,
    )
}

proof fn lemma_tables_map_at(t: Seq<(Vec<char>, usize)>, i: int)
    requires
        sorted_keys(t),
        0 <= i < t.len(),
    ensures
        tables_map(t).contains_key(t[i].0@),
        tables_map(t)[t[i].0@] == t[i].1 as int,
{
    let k = t[i].0@;
    assert(has_key(t, k));
    let j = choose|j: int| 0 <= j < t.len() && #[trigger] t[j].0@ == k;
    lemma_lex_asym(k, k);
    if j < i {
        assert(lex_lt(t[j].0@, t[i].0@));
    } else if i < j {
        assert(lex_lt(t[i].0@, t[j].0@));
    }
}

proof fn lemma_insert_entry(t: Seq<(Vec<char>, usize)>, p: int, e: (Vec<char>, usize))
    requires
        sorted_keys(t),
        0 <= p <= t.len(),
        forall|i: int| 0 <= i < p ==> lex_lt(#[trigger] t[i].0@, e.0@),
        forall|i: int| p <= i < t.len() ==> lex_lt(e.0@, #[trigger] t[i].0@),
    ensures
        sorted_keys(t.insert(p, e)),
        !has_key(t, e.0@),
        tables_map(t.insert(p, e)) == tables_map(t).insert(e.0@, e.1 as int),
{
    let u = t.insert(p, e);
    assert forall|i: int, j: int| 0 <= i < j < u.len() implies lex_lt(
        #[trigger] u[i].0@,
        #[trigger] u[j].0@,
    ) by {
        if j < p {
            assert(lex_lt(t[i].0@, t[j].0@));
        } else if j == p {
        } else if i < p {
            assert(lex_lt(t[i].0@, t[j - 1].0@));
        } else if i == p {
            assert(lex_lt(e.0@, t[j - 1].0@));
        } else {
            assert(lex_lt(t[i - 1].0@, t[j - 1].0@));
        }
    }
    if has_key(t, e.0@) {
        let j = choose|j: int| 0 <= j < t.len() && #[trigger] t[j].0@ == e.0@;
        lemma_lex_asym(e.0@, e.0@);
        if j < p {
            assert(lex_lt(t[j].0@, e.0@));
        } else {
            assert(lex_lt(e.0@, t[j].0@));
        }
    }
    let m = tables_map(t).insert(e.0@, e.1 as int);
    assert forall|k: Seq<char>| #[trigger] tables_map(u).contains_key(k) <==> m.contains_key(k) by {
        if has_key(t, k) {
            let j = choose|j: int| 0 <= j < t.len() && #[trigger] t[j].0@ == k;
            if j < p {
                assert(u[j].0@ == k);
            } else {
                assert(u[j + 1].0@ == k);
            }
        }
        if has_key(u, k) {
            let j = choose|j: int| 0 <= j < u.len() && #[trigger] u[j].0@ == k;
            if j < p {
                assert(t[j].0@ == k);
            } else if j > p {
                assert(t[j - 1].0@ == k);
            }
        }
        assert(u[p].0@ == e.0@);
    }
    assert forall|k: Seq<char>| #[trigger] tables_map(u).contains_key(k) implies tables_map(u)[k]
        == m[k] by {
        let j = choose|j: int| 0 <= j < u.len() && #[trigger] u[j].0@ == k;
        lemma_tables_map_at(u, j);
        if j < p {
            lemma_tables_map_at(t, j);
        } else if j > p {
            lemma_tables_map_at(t, j - 1);
        }
    }
    assert(tables_map(u) =~= m);
}

proof fn lemma_update_entry(t: Seq<(Vec<char>, usize)>, p: int, e: (Vec<char>, usize))
    requires
        sorted_keys(t),
        0 <= p < t.len(),
        e.0@ == t[p].0@,
    ensures
        sorted_keys(t.update(p, e)),
        tables_map(t.update(p, e)) == tables_map(t).insert(e.0@, e.1 as int),
{
    let u = t.update(p, e);
    assert forall|i: int, j: int| 0 <= i < j < u.len() implies lex_lt(
        #[trigger] u[i].0@,
        #[trigger] u[j].0@,
    ) by {
        assert(lex_lt(t[i].0@, t[j].0@));
    }
    let m = tables_map(t).insert(e.0@, e.1 as int);
    assert forall|k: Seq<char>| #[trigger] tables_map(u).contains_key(k) <==> m.contains_key(k) by {
        if has_key(t, k) {
            let j = choose|j: int| 0 <= j < t.len() && #[trigger] t[j].0@ == k;
            assert(u[j].0@ == k);
        }
        if has_key(u, k) {
            let j = choose|j: int| 0 <= j < u.len() && #[trigger] u[j].0@ == k;
            assert(t[j].0@ == k);
        }
        assert(u[p].0@ == e.0@);
    }
    assert forall|k: Seq<char>| #[trigger] tables_map(u).contains_key(k) implies tables_map(u)[k]
        == m[k] by {
        let j = choose|j: int| 0 <= j < u.len() && #[trigger] u[j].0@ == k;
        lemma_tables_map_at(u, j);
        if j != p {
            lemma_tables_map_at(t, j);
        }
    }
    assert(tables_map(u) =~= m);
}

/// The names of the table entries.
pub open spec fn key_seq(t: Seq<(Vec<char>, usize)>) -> Seq<Seq<char>> {
    t.map_values(|e: (Vec<char>, usize)| e.0@)
}

proof fn lemma_tables_dom(t: Seq<(Vec<char>, usize)>)
    requires
        sorted_keys(t),
    ensures
        tables_map(t).dom() == key_seq(t).to_set(),
        tables_map(t).dom().finite(),
        tables_map(t).dom().len() == t.len(),
{
    let ks = key_seq(t);
    assert forall|k: Seq<char>| #[trigger] tables_map(t).dom().contains(k) <==> ks.to_set().contains(k) by {
        if has_key(t, k) {
            let j = choose|j: int| 0 <= j < t.len() && #[trigger] t[j].0@ == k;
            assert(ks[j] == k);
        }
        if ks.contains(k) {
            let j = choose|j: int| 0 <= j < ks.len() && ks[j] == k;
            assert(t[j].0@ == k);
        }
    }
    assert(tables_map(t).dom() =~= ks.to_set());
    assert forall|i: int, j: int| 0 <= i < ks.len() && 0 <= j < ks.len() && i != j implies ks[i] != ks[j] by {
        lemma_lex_asym(ks[i], ks[j]);
        if i < j {
            assert(lex_lt(t[i].0@, t[j].0@));
        } else {
            assert(lex_lt(t[j].0@, t[i].0@));
        }
    }
    ks.unique_seq_to_set();
    vstd::seq_lib::seq_to_set_is_finite(ks);
}

/// The aggregate's counts fit in `usize`, as every aggregate's do.
pub open spec fn valid_counts(c: SqlCounts) -> bool {
    &&& 0 <= c.select <= usize::MAX
    &&& 0 <= c.insert <= usize::MAX
    &&& 0 <= c.update <= usize::MAX
    &&& 0 <= c.delete <= usize::MAX
    &&& forall|k: Seq<char>| #[trigger] c.tables.contains_key(k) ==> 0 <= c.tables[k] <= usize::MAX
}

/// Merging is commutative.
pub proof fn lemma_merge_commutative(a: SqlCounts, b: SqlCounts)
    ensures
        merge_counts(a, b) == merge_counts(b, a),
{
    assert(merge_tables(a.tables, b.tables) =~= merge_tables(b.tables, a.tables));
}

/// Merging is associative.
pub proof fn lemma_merge_associative(a: SqlCounts, b: SqlCounts, c: SqlCounts)
    requires
        valid_counts(a),
        valid_counts(b),
        valid_counts(c),
    ensures
        merge_counts(merge_counts(a, b), c) == merge_counts(a, merge_counts(b, c)),
{
    assert(merge_tables(merge_tables(a.tables, b.tables), c.tables) =~= merge_tables(
        a.tables,
        merge_tables(b.tables, c.tables),
    ));
}

/// The empty aggregate is neutral for merging.
pub proof fn lemma_merge_empty(a: SqlCounts)
    requires
        valid_counts(a),
    ensures
        merge_counts(a, empty_counts()) == a,
        merge_counts(empty_counts(), a) == a,
{
    assert(merge_tables(a.tables, Map::empty()) =~= a.tables);
    assert(merge_tables(Map::empty(), a.tables) =~= a.tables);
}

/// Merging keeps counts within `usize`.
pub proof fn lemma_merge_valid(a: SqlCounts, b: SqlCounts)
    requires
        valid_counts(a),
        valid_counts(b),
    ensures
        valid_counts(merge_counts(a, b)),
{
}

/// Statement and table counts of a set of SQL log messages.
pub struct SqlQueryInfo {
    select_count: usize,
    insert_count: usize,
    update_count: usize,
    delete_count: usize,
    tables: Vec<(Vec<char>, usize)>,
}

impl View for SqlQueryInfo {
    type V = SqlCounts;

    closed spec fn view(&self) -> SqlCounts {
        SqlCounts {
            select: self.select_count as int,
            insert: self.insert_count as int,
            update: self.update_count as int,
            delete: self.delete_count as int,
            tables: tables_map(self.tables@),
        }
    }
}

impl SqlQueryInfo {
    /// The table entries are strictly ordered by name, so each name occurs once.
    pub closed spec fn wf(self) -> bool {
        sorted_keys(self.tables@)
    }

    /// An aggregate with all four buckets at zero and no table.
    pub fn new() -> (r: Self)
        ensures
            r.wf(),
            r@ == empty_counts(),
    {
        let r = SqlQueryInfo {
            select_count: 0,
            insert_count: 0,
            update_count: 0,
            delete_count: 0,
            tables: Vec::new(),
        };
        assert(r@.tables =~= Map::empty());
        r
    }

    /// The count of one statement kind.
    pub fn query_count(&self, query_type: QueryType) -> (r: usize)
        ensures
            r == self@.count(query_type),
    {
        match query_type {
            QueryType::Select => self.select_count,
            QueryType::Insert => self.insert_count,
            QueryType::Update => self.update_count,
            QueryType::Delete => self.delete_count,
        }
    }

    /// Sets the count of one statement kind.
    pub fn set_query_count(&mut self, query_type: QueryType, count: usize)
        requires
            old(self).wf(),
        ensures
            final(self).wf(),
            final(self)@.count(query_type) == count,
            forall|q: QueryType| q != query_type ==> final(self)@.count(q) == old(self)@.count(q),
            final(self)@.tables == old(self)@.tables,
    {
        match query_type {
            QueryType::Select => self.select_count = count,
            QueryType::Insert => self.insert_count = count,
            QueryType::Update => self.update_count = count,
            QueryType::Delete => self.delete_count = count,
        }
    }

    /// Adds `n` to one statement kind's count.
    fn add_query_count(&mut self, query_type: QueryType, n: usize)
        requires
            old(self).wf(),
        ensures
            final(self).wf(),
            final(self)@.count(query_type) == sat_add(old(self)@.count(query_type), n as int),
            forall|q: QueryType| q != query_type ==> final(self)@.count(q) == old(self)@.count(q),
            final(self)@.tables == old(self)@.tables,
    {
        let c = self.query_count(query_type);
        self.set_query_count(query_type, c.saturating_add(n));
    }

    /// The sum of the four statement counts (at most `usize::MAX`).
    pub fn total_queries(&self) -> (r: usize)
        ensures
            r == if self@.total() > usize::MAX {
                usize::MAX as int
            } else {
                self@.total()
            },
    {
        self.select_count.saturating_add(self.insert_count).saturating_add(
            self.update_count,
        ).saturating_add(self.delete_count)
    }

    /// The position of table `name`, or where it would be inserted.
    fn locate(&self, name: &Vec<char>) -> (r: (usize, bool))
        requires
            self.wf(),
        ensures
            r.0 <= self.tables@.len(),
            r.1 ==> r.0 < self.tables@.len() && self.tables@[r.0 as int].0@ == name@,
            forall|i: int| 0 <= i < r.0 ==> lex_lt(#[trigger] self.tables@[i].0@, name@),
            !r.1 ==> forall|i: int|
                r.0 <= i < self.tables@.len() ==> lex_lt(name@, #[trigger] self.tables@[i].0@),
    {
        let mut p: usize = 0;
        while p < self.tables.len()
            invariant
                p <= self.tables@.len(),
                sorted_keys(self.tables@),
                forall|i: int| 0 <= i < p ==> lex_lt(#[trigger] self.tables@[i].0@, name@),
            decreases self.tables@.len() - p,
        {
            let c = compare_chars(&self.tables[p].0, name);
            if c == 0 {
                return (p, true);
            }
            if c > 0 {
                assert forall|i: int| p <= i < self.tables@.len() implies lex_lt(
                    name@,
                    #[trigger] self.tables@[i].0@,
                ) by {
                    if p < i {
                        lemma_lex_trans(name@, self.tables@[p as int].0@, self.tables@[i].0@);
                    }
                }
                return (p, false);
            }
            p += 1;
        }
        (p, false)
    }

    /// Adds `n` to the count of table `name`.
    fn add_table_count(&mut self, name: &Vec<char>, n: usize)
        requires
            old(self).wf(),
        ensures
            final(self).wf(),
            final(self)@ == (SqlCounts { tables: add_table(old(self)@.tables, name@, n as int), ..old(self)@ }),
    {
        let (p, found) = self.locate(name);
        let key = copy_chars(name);
        if found {
            proof {
                lemma_tables_map_at(self.tables@, p as int);
                lemma_update_entry(self.tables@, p as int, (key, self.tables@[p as int].1.saturating_add(n)));
            }
            let c = self.tables[p].1;
            self.tables.set(p, (key, c.saturating_add(n)));
        } else {
            proof {
                lemma_insert_entry(self.tables@, p as int, (key, n));
            }
            self.tables.insert(p, (key, n));
        }
        assert(self@.tables =~= add_table(old(self)@.tables, name@, n as int));
    }

    /// Adds every bucket count and every table count of `other` to this
    /// aggregate.
    pub fn merge(&mut self, other: &SqlQueryInfo)
        requires
            old(self).wf(),
            other.wf(),
        ensures
            final(self).wf(),
            final(self)@ == merge_counts(old(self)@, other@),
    {
        self.add_query_count(QueryType::Select, other.select_count);
        self.add_query_count(QueryType::Insert, other.insert_count);
        self.add_query_count(QueryType::Update, other.update_count);
        self.add_query_count(QueryType::Delete, other.delete_count);
        let ghost base = old(self)@.tables;
        let mut i: usize = 0;
        assert(tables_map(other.tables@.take(0)) =~= Map::empty());
        assert(merge_tables(base, Map::empty()) =~= base);
        while i < other.tables.len()
            invariant
                self.wf(),
                other.wf(),
                i <= other.tables@.len(),
                self@.tables == merge_tables(base, tables_map(other.tables@.take(i as int))),
                self@.select == sat_add(old(self)@.select, other@.select),
                self@.insert == sat_add(old(self)@.insert, other@.insert),
                self@.update == sat_add(old(self)@.update, other@.update),
                self@.delete == sat_add(old(self)@.delete, other@.delete),
                base == old(self)@.tables,
            decreases other.tables@.len() - i,
        {
            let ghost t = other.tables@;
            let ghost pre = t.take(i as int);
            proof {
                assert(pre.insert(i as int, t[i as int]) =~= t.take(i + 1));
                assert forall|a: int, b: int| 0 <= a < b < pre.len() implies lex_lt(
                    #[trigger] pre[a].0@,
                    #[trigger] pre[b].0@,
                ) by {
                    assert(lex_lt(t[a].0@, t[b].0@));
                }
                assert forall|a: int| 0 <= a < i implies lex_lt(#[trigger] pre[a].0@, t[i as int].0@) by {
                    assert(lex_lt(t[a].0@, t[i as int].0@));
                }
                lemma_insert_entry(pre, i as int, t[i as int]);
                let k = t[i as int].0@;
                let n = t[i as int].1 as int;
                let pm = tables_map(pre);
                assert(merge_tables(base, pm.insert(k, n)) =~= add_table(merge_tables(base, pm), k, n));
            }
            self.add_table_count(&other.tables[i].0, other.tables[i].1);
            i += 1;
        }
        assert(other.tables@.take(other.tables@.len() as int) =~= other.tables@);
    }

    /// Whether table `name` has been referenced.
    pub fn contains_table(&self, name: &str) -> (r: bool)
        requires
            self.wf(),
        ensures
            r == self@.tables.contains_key(name@),
    {
        let key = chars_of(name);
        let (p, found) = self.locate(&key);
        proof {
            if has_key(self.tables@, name@) {
                let j = choose|j: int| 0 <= j < self.tables@.len() && #[trigger] self.tables@[j].0@ == name@;
                lemma_lex_asym(name@, name@);
                if j < p {
                    assert(lex_lt(self.tables@[j].0@, name@));
                } else if !found {
                    assert(lex_lt(name@, self.tables@[j].0@));
                }
            }
        }
        found
    }

    /// The number of distinct tables referenced.
    pub fn table_kinds(&self) -> (r: usize)
        requires
            self.wf(),
        ensures
            self@.tables.dom().finite(),
            r == self@.tables.dom().len(),
    {
        proof {
            lemma_tables_dom(self.tables@);
        }
        self.tables.len()
    }

    /// The rows needed to show this aggregate: one per statement kind and one
    /// per distinct table (at most `usize::MAX`).
    pub fn display_line_count(&self) -> (r: usize)
        requires
            self.wf(),
        ensures
            self@.tables.dom().finite(),
            r == sat_add(self@.tables.dom().len() as int, 4),
    {
        proof {
            lemma_tables_dom(self.tables@);
        }
        self.tables.len().saturating_add(4)
    }

    /// The table counts in ascending order of table name.
    pub fn sorted_tables(&self) -> (r: Vec<(String, usize)>)
        requires
            self.wf(),
        ensures
            self@.tables.dom().finite(),
            r@.len() == self@.tables.dom().len(),
            forall|i: int, j: int| 0 <= i < j < r@.len() ==> lex_lt(#[trigger] r@[i].0@, #[trigger] r@[j].0@),
            forall|i: int| 0 <= i < r@.len() ==> self@.tables.contains_key(#[trigger] r@[i].0@)
                && self@.tables[r@[i].0@] == r@[i].1 as int,
            forall|k: Seq<char>| self@.tables.contains_key(k) ==> exists|i: int| 0 <= i < r@.len() && #[trigger] r@[i].0@ == k,
    {
        proof {
            lemma_tables_dom(self.tables@);
        }
        let mut r: Vec<(String, usize)> = Vec::new();
        let mut i: usize = 0;
        while i < self.tables.len()
            invariant
                self.wf(),
                i <= self.tables@.len(),
                r@.len() == i,
                forall|j: int| 0 <= j < i ==> (#[trigger] r@[j]).0@ == self.tables@[j].0@ && r@[j].1 == self.tables@[j].1,
            decreases self.tables@.len() - i,
        {
            let name = string_of(&self.tables[i].0, 0, self.tables[i].0.len());
            assert(self.tables@[i as int].0@.subrange(0, self.tables@[i as int].0@.len() as int) =~= self.tables@[i as int].0@);
            r.push((name, self.tables[i].1));
            i += 1;
        }
        proof {
            assert forall|a: int, b: int| 0 <= a < b < r@.len() implies lex_lt(#[trigger] r@[a].0@, #[trigger] r@[b].0@) by {
                assert(lex_lt(self.tables@[a].0@, self.tables@[b].0@));
            }
            assert forall|a: int| 0 <= a < r@.len() implies self@.tables.contains_key(#[trigger] r@[a].0@)
                && self@.tables[r@[a].0@] == r@[a].1 as int by {
                lemma_tables_map_at(self.tables@, a);
            }
            assert forall|k: Seq<char>| self@.tables.contains_key(k) implies exists|a: int| 0 <= a < r@.len() && #[trigger] r@[a].0@ == k by {
                let j = choose|j: int| 0 <= j < self.tables@.len() && #[trigger] self.tables@[j].0@ == k;
                assert(r@[j].0@ == k);
            }
        }
        r
    }

    /// Sets the count of table `name`.
    pub fn set_table_count(&mut self, name: &str, count: usize)
        requires
            old(self).wf(),
        ensures
            final(self).wf(),
            final(self)@ == (SqlCounts { tables: old(self)@.tables.insert(name@, count as int), ..old(self)@ }),
    {
        let key = chars_of(name);
        let (p, found) = self.locate(&key);
        if found {
            proof {
                lemma_update_entry(self.tables@, p as int, (key, count));
            }
            self.tables.set(p, (key, count));
        } else {
            proof {
                lemma_insert_entry(self.tables@, p as int, (key, count));
            }
            self.tables.insert(p, (key, count));
        }
    }

    /// The count of table `name`, zero where it was never referenced.
    pub fn table_count(&self, name: &str) -> (r: usize)
        requires
            self.wf(),
        ensures
            r == table_value(self@.tables, name@),
    {
        let key = crate::text::chars_of(name);
        let (p, found) = self.locate(&key);
        if found {
            proof {
                lemma_tables_map_at(self.tables@, p as int);
            }
            self.tables[p].1
        } else {
            proof {
                if has_key(self.tables@, name@) {
                    let j = choose|j: int| 0 <= j < self.tables@.len() && #[trigger] self.tables@[j].0@ == name@;
                    lemma_lex_asym(name@, name@);
                }
            }
            0
        }
    }
}

/// A character that may stand in a table name.
pub open spec fn is_name_char(c: char) -> bool {
    let u = c as u32;
    (0x30 <= u && u <= 0x39) || (0x41 <= u && u <= 0x5a) || (0x61 <= u && u <= 0x7a) || u == 0x5f
}

/// The end of the run of name characters that starts at `j`.
pub open spec fn name_end(s: Seq<char>, j: int) -> int
    decreases s.len() - j,
{
    if 0 <= j < s.len() && is_name_char(s[j]) {
        name_end(s, j + 1)
    } else {
        j
    }
}

/// The length of the keyword `FROM`, `JOIN`, `UPDATE` or `INTO` that starts
/// at `i`, or zero.
pub open spec fn keyword_len(s: Seq<char>, i: int) -> int {
    if occurs_at(s, seq!['F', 'R', 'O', 'M'], i) || occurs_at(s, seq!['J', 'O', 'I', 'N'], i)
        || occurs_at(s, seq!['I', 'N', 'T', 'O'], i) {
        4
    } else if occurs_at(s, seq!['U', 'P', 'D', 'A', 'T', 'E'], i) {
        6
    } else {
        0
    }
}

/// A table name may end at `p`: whitespace, `)` or the end of the text follows.
pub open spec fn ends_name(s: Seq<char>, p: int) -> bool {
    p == s.len() || (0 <= p < s.len() && (is_ws(s[p]) || s[p] == ')'))
}

/// The position after the character that ends a name at `p`.
pub open spec fn past(s: Seq<char>, p: int) -> int {
    if p < s.len() {
        p + 1
    } else {
        p
    }
}

/// A table reference starting at `i`: a keyword, whitespace, and a name,
/// bare or in double quotes, that whitespace, `)` or the end of the text
/// follows. The result holds where the name starts and ends and where the
/// reference ends.
pub open spec fn table_match(s: Seq<char>, i: int) -> Option<(int, int, int)> {
    let j = i + keyword_len(s, i);
    let k = ws_end(s, j);
    if keyword_len(s, i) == 0 || k <= j {
        None
    } else if k < s.len() && s[k] == '"' {
        let e = name_end(s, k + 1);
        if e > k + 1 && e < s.len() && s[e] == '"' && ends_name(s, e + 1) {
            Some((k + 1, e, past(s, e + 1)))
        } else {
            None
        }
    } else {
        let e = name_end(s, k);
        if e > k && ends_name(s, e) {
            Some((k, e, past(s, e)))
        } else {
            None
        }
    }
}

/// The table names referenced in `s` from position `i` on, left to right,
/// each reference ending before the next one starts.
pub open spec fn table_refs_from(s: Seq<char>, i: int) -> Seq<Seq<char>>
    decreases s.len() - i,
{
    if i < 0 || i >= s.len() {
        seq![]
    } else {
        match table_match(s, i) {
            Some((a, b, e)) => if e > i {
                seq![s.subrange(a, b)] + table_refs_from(s, e)
            } else {
                seq![]
            },
            None => table_refs_from(s, i + 1),
        }
    }
}

/// The table names referenced in `s`.
pub open spec fn table_refs(s: Seq<char>) -> Seq<Seq<char>> {
    table_refs_from(s, 0)
}

/// The table counts of a list of references.
pub open spec fn count_refs(refs: Seq<Seq<char>>) -> Map<Seq<char>, int> {
    refs.fold_left(Map::empty(), |m: Map<Seq<char>, int>, k: Seq<char>| add_table(m, k, 1))
}

pub open spec fn select_kw() -> Seq<char> {
    seq!['S', 'E', 'L', 'E', 'C', 'T', ' ']
}

pub open spec fn insert_kw() -> Seq<char> {
    seq!['I', 'N', 'S', 'E', 'R', 'T', ' ']
}

pub open spec fn update_kw() -> Seq<char> {
    seq!['U', 'P', 'D', 'A', 'T', 'E', ' ']
}

pub open spec fn delete_kw() -> Seq<char> {
    seq!['D', 'E', 'L', 'E', 'T', 'E', ' ']
}

/// The kind of statement that a message is counted as: the first of
/// `SELECT `, `UPDATE `, `INSERT `, `DELETE ` (in that order) that it contains.
pub open spec fn statement_kind(m: Seq<char>) -> Option<QueryType> {
    if contains(m, select_kw()) {
        Some(QueryType::Select)
    } else if contains(m, update_kw()) {
        Some(QueryType::Update)
    } else if contains(m, insert_kw()) {
        Some(QueryType::Insert)
    } else if contains(m, delete_kw()) {
        Some(QueryType::Delete)
    } else {
        None
    }
}

/// The aggregate of one statement of kind `q` that references `tables`.
pub open spec fn one_statement(q: QueryType, tables: Map<Seq<char>, int>) -> SqlCounts {
    SqlCounts {
        select: if q == QueryType::Select { 1 } else { 0 },
        insert: if q == QueryType::Insert { 1 } else { 0 },
        update: if q == QueryType::Update { 1 } else { 0 },
        delete: if q == QueryType::Delete { 1 } else { 0 },
        tables,
    }
}

/// The aggregate of one message, if it holds a statement.
pub open spec fn message_counts(m: Seq<char>) -> Option<SqlCounts> {
    match statement_kind(m) {
        Some(q) => Some(one_statement(q, count_refs(table_refs(m)))),
        None => None,
    }
}

/// Folds one message into an aggregate.
pub open spec fn add_message(acc: SqlCounts, m: Seq<char>) -> SqlCounts {
    match message_counts(m) {
        Some(c) => merge_counts(acc, c),
        None => acc,
    }
}

/// The aggregate of a list of messages, folded one at a time.
pub open spec fn logs_counts(ms: Seq<Seq<char>>) -> SqlCounts {
    ms.fold_left(empty_counts(), |acc: SqlCounts, m: Seq<char>| add_message(acc, m))
}

fn is_name_char_exec(c: char) -> (r: bool)
    ensures
        r == is_name_char(c),
{
    let u = c as u32;
    (0x30 <= u && u <= 0x39) || (0x41 <= u && u <= 0x5a) || (0x61 <= u && u <= 0x7a) || u == 0x5f
}

fn name_end_exec(s: &Vec<char>, j: usize) -> (r: usize)
    requires
        j <= s@.len(),
    ensures
        r == name_end(s@, j as int),
        j <= r <= s@.len(),
{
    let mut p = j;
    while p < s.len() && is_name_char_exec(s[p])
        invariant
            j <= p <= s@.len(),
            name_end(s@, j as int) == name_end(s@, p as int),
        decreases s@.len() - p,
    {
        p += 1;
    }
    p
}

fn keyword_len_exec(s: &Vec<char>, i: usize) -> (r: usize)
    ensures
        r == keyword_len(s@, i as int),
{
    if occurs_at_exec(s, &vec!['F', 'R', 'O', 'M'], i) || occurs_at_exec(s, &vec!['J', 'O', 'I', 'N'], i)
        || occurs_at_exec(s, &vec!['I', 'N', 'T', 'O'], i) {
        4
    } else if occurs_at_exec(s, &vec!['U', 'P', 'D', 'A', 'T', 'E'], i) {
        6
    } else {
        0
    }
}

fn ends_name_exec(s: &Vec<char>, p: usize) -> (r: bool)
    ensures
        r == ends_name(s@, p as int),
{
    p == s.len() || (p < s.len() && (is_whitespace(s[p]) || s[p] == ')'))
}

fn table_match_exec(s: &Vec<char>, i: usize) -> (r: Option<(usize, usize, usize)>)
    requires
        i < s@.len(),
    ensures
        match r {
            Some((a, b, e)) => table_match(s@, i as int) == Some((a as int, b as int, e as int)),
            None => table_match(s@, i as int) is None,
        },
{
    let n = s.len();
    let kw = keyword_len_exec(s, i);
    if kw == 0 {
        return None;
    }
    assert(occurs_at(s@, seq!['F', 'R', 'O', 'M'], i as int) || occurs_at(s@, seq!['J', 'O', 'I', 'N'], i as int)
        || occurs_at(s@, seq!['I', 'N', 'T', 'O'], i as int) || occurs_at(s@, seq!['U', 'P', 'D', 'A', 'T', 'E'], i as int));
    let j = i + kw;
    let k = ws_end_exec(s, j);
    if k <= j {
        return None;
    }
    if k < s.len() && s[k] == '"' {
        let e = name_end_exec(s, k + 1);
        if e > k + 1 && e < s.len() && s[e] == '"' && ends_name_exec(s, e + 1) {
            let end = if e + 1 < s.len() { e + 2 } else { e + 1 };
            Some((k + 1, e, end))
        } else {
            None
        }
    } else {
        let e = name_end_exec(s, k);
        if e > k && ends_name_exec(s, e) {
            let end = if e < s.len() { e + 1 } else { e };
            Some((k, e, end))
        } else {
            None
        }
    }
}

fn statement_kind_exec(s: &Vec<char>) -> (r: Option<QueryType>)
    ensures
        r == statement_kind(s@),
{
    if contains_exec(s, &vec!['S', 'E', 'L', 'E', 'C', 'T', ' ']) {
        Some(QueryType::Select)
    } else if contains_exec(s, &vec!['U', 'P', 'D', 'A', 'T', 'E', ' ']) {
        Some(QueryType::Update)
    } else if contains_exec(s, &vec!['I', 'N', 'S', 'E', 'R', 'T', ' ']) {
        Some(QueryType::Insert)
    } else if contains_exec(s, &vec!['D', 'E', 'L', 'E', 'T', 'E', ' ']) {
        Some(QueryType::Delete)
    } else {
        None
    }
}

impl SqlQueryInfo {
    /// The aggregate of one log message: `None` unless the message holds one of
    /// `SELECT `, `INSERT `, `UPDATE `, `DELETE `; else one statement of the
    /// first kind found in the order SELECT, UPDATE, INSERT, DELETE, and one
    /// table reference per match of the table pattern.
    pub fn from_message(message: &str) -> (r: Option<SqlQueryInfo>)
        ensures
            match r {
                Some(info) => info.wf() && message_counts(message@) == Some(info@),
                None => message_counts(message@) is None,
            },
    {
        let s = chars_of(message);
        let kind = match statement_kind_exec(&s) {
            Some(q) => q,
            None => return None,
        };
        let mut info = SqlQueryInfo::new();
        info.add_query_count(kind, 1);
        proof {
            let c = info@;
            assert(c.select == c.count(QueryType::Select));
            assert(c.insert == c.count(QueryType::Insert));
            assert(c.update == c.count(QueryType::Update));
            assert(c.delete == c.count(QueryType::Delete));
        }
        let ghost consumed: Seq<Seq<char>> = seq![];
        let mut i: usize = 0;
        assert(count_refs(consumed) =~= Map::empty());
        while i < s.len()
            invariant
                info.wf(),
                i <= s@.len(),
                s@ == message@,
                consumed + table_refs_from(s@, i as int) == table_refs(s@),
                info@.tables == count_refs(consumed),
                info@ == one_statement(kind, info@.tables),
            decreases s@.len() - i,
        {
            match table_match_exec(&s, i) {
                Some((a, b, e)) => {
                    let name = copy_range(&s, a, b);
                    info.add_table_count(&name, 1);
                    proof {
                        let x = s@.subrange(a as int, b as int);
                        assert(consumed.push(x).drop_last() =~= consumed);
                        assert(consumed + table_refs_from(s@, i as int) =~= consumed.push(x)
                            + table_refs_from(s@, e as int));
                        consumed = consumed.push(x);
                    }
                    i = e;
                },
                None => {
                    i += 1;
                },
            }
        }
        assert(consumed =~= table_refs(s@));
        Some(info)
    }
}

/// The aggregate of a list of log messages.
pub fn parse_sql_from_logs(logs: &[&str]) -> (r: SqlQueryInfo)
    ensures
        r.wf(),
        r@ == logs_counts(logs@.map_values(|m: &str| m@)),
{
    let ghost ms = logs@.map_values(|m: &str| m@);
    let mut info = SqlQueryInfo::new();
    let mut i: usize = 0;
    while i < logs.len()
        invariant
            info.wf(),
            i <= logs@.len(),
            ms == logs@.map_values(|m: &str| m@),
            info@ == logs_counts(ms.take(i as int)),
        decreases logs@.len() - i,
    {
        proof {
            assert(ms.take(i + 1).drop_last() =~= ms.take(i as int));
        }
        match SqlQueryInfo::from_message(logs[i]) {
            Some(c) => info.merge(&c),
            None => {},
        }
        i += 1;
    }
    assert(ms.take(logs@.len() as int) =~= ms);
    info
}

proof fn lemma_count_refs_valid(refs: Seq<Seq<char>>)
    ensures
        forall|k: Seq<char>| #[trigger] count_refs(refs).contains_key(k) ==> 0 <= count_refs(refs)[k]
            <= usize::MAX,
    decreases refs.len(),
{
    if refs.len() > 0 {
        lemma_count_refs_valid(refs.drop_last());
        assert(count_refs(refs) == add_table(count_refs(refs.drop_last()), refs.last(), 1));
    } else {
        assert(count_refs(refs) == Map::<Seq<char>, int>::empty());
    }
}

proof fn lemma_message_counts_valid(m: Seq<char>)
    ensures
        message_counts(m) matches Some(c) ==> valid_counts(c),
{
    lemma_count_refs_valid(table_refs(m));
}

proof fn lemma_add_message_valid(acc: SqlCounts, m: Seq<char>)
    requires
        valid_counts(acc),
    ensures
        valid_counts(add_message(acc, m)),
{
    lemma_message_counts_valid(m);
    if let Some(c) = message_counts(m) {
        lemma_merge_valid(acc, c);
    }
}

/// Every aggregate of messages has counts that fit in `usize`.
pub proof fn lemma_logs_counts_valid(ms: Seq<Seq<char>>)
    ensures
        valid_counts(logs_counts(ms)),
    decreases ms.len(),
{
    if ms.len() > 0 {
        lemma_logs_counts_valid(ms.drop_last());
        lemma_add_message_valid(logs_counts(ms.drop_last()), ms.last());
    }
}

/// Folding the messages of `a` and then those of `b` one at a time gives the
/// merge of the aggregates of `a` and of `b`: incremental aggregation equals
/// aggregation in batches, for any split of the messages.
pub proof fn lemma_logs_counts_split(a: Seq<Seq<char>>, b: Seq<Seq<char>>)
    ensures
        logs_counts(a + b) == merge_counts(logs_counts(a), logs_counts(b)),
    decreases b.len(),
{
    lemma_logs_counts_valid(a);
    if b.len() == 0 {
        assert(a + b =~= a);
        lemma_merge_empty(logs_counts(a));
    } else {
        let b1 = b.drop_last();
        let x = b.last();
        assert((a + b).drop_last() =~= a + b1);
        assert((a + b).last() == x);
        lemma_logs_counts_split(a, b1);
        lemma_logs_counts_valid(b1);
        lemma_message_counts_valid(x);
        if let Some(c) = message_counts(x) {
            lemma_merge_associative(logs_counts(a), logs_counts(b1), c);
        }
    }
}

/// The aggregate of a set of messages does not depend on the order in which
/// two parts of it are folded.
pub proof fn lemma_logs_counts_order(a: Seq<Seq<char>>, b: Seq<Seq<char>>)
    ensures
        logs_counts(a + b) == logs_counts(b + a),
{
    lemma_logs_counts_split(a, b);
    lemma_logs_counts_split(b, a);
    lemma_merge_commutative(logs_counts(a), logs_counts(b));
}

} // verus!
