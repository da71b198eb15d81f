//! Query history per connection (newest first, bounded), suggestions from it,
//! and telling what kind of statement a query is.
use vstd::prelude::*;
use vstd::string::StringSliceAdditionalSpecFns;
use vstd::utf8::{encode_utf8, is_char_boundary};
use crate::database::DatabaseError;
use crate::stamp::now_millis;
use crate::strmap::{list_at, StrMap};
use crate::text::{concat2, contains_seq, contains_str, owned, starts_with_seq, starts_with_str, str_eq, to_uppercase, trim_seq, trim_str, uppercase, views};

verus! {

/// Query history entry. The time is in milliseconds since the Unix epoch, the
/// execution time in milliseconds.
#[derive(Debug)]
pub struct QueryHistoryEntry {
    pub query: String,
    pub timestamp: i64,
    pub execution_time_ms: u64,
    pub success: bool,
    pub rows_affected: u64,
}

impl QueryHistoryEntry {
    /// A copy of the entry.
    pub fn duplicate(&self) -> (e: Self)
        ensures e == *self,
    {
        QueryHistoryEntry {
            query: self.query.clone(),
            timestamp: self.timestamp,
            execution_time_ms: self.execution_time_ms,
            success: self.success,
            rows_affected: self.rows_affected,
        }
    }
}

/// The queries of entries, in order.
pub open spec fn queries(es: Seq<QueryHistoryEntry>) -> Seq<Seq<char>> {
    es.map_values(|e: QueryHistoryEntry| e.query@)
}

/// Queries containing `partial`, each once, in the order first met.
pub open spec fn suggestions_from(qs: Seq<Seq<char>>, partial: Seq<char>) -> Seq<Seq<char>>
    decreases qs.len(),
{
    if qs.len() == 0 {
        Seq::empty()
    } else {
        let s = suggestions_from(qs.drop_last(), partial);
        if contains_seq(qs.last(), partial) && !s.contains(qs.last()) { s.push(qs.last()) } else { s }
    }
}

/// What the SQL parser gives for a query with the generic dialect: each
/// statement printed back, or the parser's error message.
pub uninterp spec fn sql_parse(query: Seq<char>) -> Result<Seq<Seq<char>>, Seq<char>>;

/// `sqlparser::parser::Parser::parse_sql` with the generic dialect; each
/// statement is printed with `Display`, the error with `to_string`. Both are
/// named by `sql_parse`.
#[verifier::external_body]
fn parse_statements(query: &str) -> (r: Result<Vec<String>, String>)
    ensures
        match r {
            Ok(v) => sql_parse(query@) == Ok::<Seq<Seq<char>>, Seq<char>>(views(v@)),
            Err(e) => sql_parse(query@) == Err::<Seq<Seq<char>>, Seq<char>>(e@),
        },
{
    match sqlparser::parser::Parser::parse_sql(&sqlparser::dialect::GenericDialect {}, query) {
        Ok(statements) => Ok(statements.iter().map(|s| format!("{}", s)).collect()),
        Err(e) => Err(e.to_string()),
    }
}

/// The first `n` bytes of a text, which must end on a character boundary.
fn byte_prefix(s: &str, n: usize) -> (p: &str)
    requires
        n <= s.spec_bytes().len(),
        is_char_boundary(s.spec_bytes(), n as int),
    ensures
        p.spec_bytes() == s.spec_bytes().subrange(0, n as int),
{
    s.split_at(n).0
}

/// What parsing gives once its outcome is known: the statements, or the parser
/// error wrapped as a database error.
pub fn parse_outcome(parsed: Result<Vec<String>, String>) -> (r: Result<Vec<String>, DatabaseError>)
    ensures
        match parsed {
            Ok(v) => r matches Ok(w) && w@ == v@,
            Err(e) => r matches Err(DatabaseError(m)) && m@ == "SQL parsing error: "@ + e@,
        },
{
    match parsed {
        Ok(v) => Ok(v),
        Err(e) => Err(DatabaseError(concat2("SQL parsing error: ", e.as_str()))),
    }
}

/// Query runner: the history of each connection, newest first, at most
/// `max_history` entries each.
pub struct QueryRunner {
    history: StrMap<Vec<QueryHistoryEntry>>,
    max_history: usize,
}

impl QueryRunner {
    /// The history map is well formed and no connection's history is longer
    /// than the maximum.
    pub closed spec fn wf(&self) -> bool {
        &&& self.history.wf()
        &&& forall|k: Seq<char>| #[trigger] self.history@.contains_key(k) ==> self.history@[k]@.len() <= self.max_history
    }

    pub closed spec fn history_view(&self) -> Map<Seq<char>, Vec<QueryHistoryEntry>> {
        self.history@
    }

    pub closed spec fn max(&self) -> usize {
        self.max_history
    }

    /// A runner keeping `max_history` entries per connection.
    pub fn new(max_history: usize) -> (r: Self)
        ensures r.wf(), r.max() == max_history, r.history_view() == Map::<Seq<char>, Vec<QueryHistoryEntry>>::empty(),
    {
        QueryRunner { history: StrMap::new(), max_history }
    }

    /// Record a successful query run on a connection: it comes first in that
    /// connection's history, and the oldest entry goes when there are more
    /// than the maximum.
    pub fn record_query(&mut self, connection: &str, query: &str, execution_time_ms: u64)
        requires old(self).wf(),
        ensures
            final(self).wf(),
            final(self).max() == old(self).max(),
            final(self).history_view().dom() == old(self).history_view().dom().insert(connection@),
            forall|k: Seq<char>| #[trigger] final(self).history_view().contains_key(k) && k != connection@
                ==> final(self).history_view()[k] == old(self).history_view()[k],
            ({
                let before = list_at(old(self).history_view(), connection@);
                let after = list_at(final(self).history_view(), connection@);
                let n: int = if before.len() + 1 > old(self).max() { before.len() as int } else { before.len() + 1int };
                &&& after.len() == n
                &&& n > 0 ==> (after[0].query@ == query@ && after[0].execution_time_ms == execution_time_ms
                    && after[0].success && after[0].rows_affected == 0)
                &&& forall|i: int| 1 <= i < n ==> #[trigger] after[i] == before[i - 1]
            }),
    {
        let now = now_millis();
        let entry = QueryHistoryEntry {
            query: owned(query),
            timestamp: now,
            execution_time_ms,
            success: true,
            rows_affected: 0,
        };
        let max = self.max_history;
        match self.history.find(connection) {
            Some(p) => {
                let ghost before = self.history;
                proof { self.history.lemma_index_of(p as int); }
                let list = self.history.value_at_mut(p);
                let ghost old_list = list@;
                list.insert(0, entry);
                assert(list@ =~= seq![entry] + old_list);
                if list.len() > max {
                    list.pop();
                }
                proof { StrMap::lemma_update_value(before, self.history, p as int, self.history.entries()[p as int].1); }
            },
            None => {
                let mut list: Vec<QueryHistoryEntry> = Vec::new();
                list.push(entry);
                if list.len() > max {
                    list.pop();
                }
                self.history.insert(owned(connection), list);
            },
        }
    }

    /// The history of a connection, newest first (empty when unknown); it
    /// holds at most the maximum number of entries.
    pub fn get_history(&self, connection: &str) -> (r: Vec<QueryHistoryEntry>)
        requires self.wf(),
        ensures
            r@ == list_at(self.history_view(), connection@),
            r@.len() <= self.max(),
    {
        let mut r: Vec<QueryHistoryEntry> = Vec::new();
        match self.history.get(connection) {
            Some(list) => {
                let mut i: usize = 0;
                while i < list.len()
                    invariant
                        i <= list@.len(),
                        r@ == list@.subrange(0, i as int),
                    decreases list.len() - i,
                {
                    r.push(list[i].duplicate());
                    i = i + 1;
                    assert(r@ =~= list@.subrange(0, i as int));
                }
                assert(list@.subrange(0, list@.len() as int) =~= list@);
            },
            None => {
                assert(r@ =~= Seq::<QueryHistoryEntry>::empty());
            },
        }
        r
    }

    /// Forget all history.
    pub fn clear(&mut self)
        ensures
            final(self).wf(),
            final(self).max() == old(self).max(),
            final(self).history_view() == Map::<Seq<char>, Vec<QueryHistoryEntry>>::empty(),
    {
        self.history.clear();
    }

    /// A query shortened for display: whole when it takes at most `max_width`
    /// bytes, else its first `max_width` bytes (which must end on a character
    /// boundary) and "...".
    pub fn format_query(&self, query: &str, max_width: usize) -> (r: String)
        requires
            query.spec_bytes().len() <= usize::MAX,
            query.spec_bytes().len() <= max_width || is_char_boundary(query.spec_bytes(), max_width as int),
        ensures
            query.spec_bytes().len() <= max_width ==> r@ == query@,
            query.spec_bytes().len() > max_width ==> {
                &&& r@.len() >= 3
                &&& encode_utf8(r@.subrange(0, r@.len() - 3)) == query.spec_bytes().subrange(0, max_width as int)
                &&& r@.subrange(r@.len() - 3, r@.len() as int) == "..."@
            },
    {
        if query.len() <= max_width {
            owned(query)
        } else {
            let prefix = byte_prefix(query, max_width);
            let r = concat2(prefix, "...");
            proof {
                reveal_strlit("...");
                assert(prefix.spec_bytes() == encode_utf8(prefix@));
                assert(r@.subrange(0, r@.len() - 3) =~= prefix@);
                assert(r@.subrange(r@.len() - 3, r@.len() as int) =~= "..."@);
            }
            r
        }
    }

    /// Queries from a connection's history (newest first) that contain
    /// `partial`, each once.
    pub fn get_suggestions(&self, connection: &str, partial: &str) -> (r: Vec<String>)
        requires self.wf(),
        ensures views(r@) == suggestions_from(queries(list_at(self.history_view(), connection@)), partial@),
    {
        let mut r: Vec<String> = Vec::new();
        match self.history.get(connection) {
            Some(list) => {
                let ghost qs = queries(list@);
                let mut i: usize = 0;
                while i < list.len()
                    invariant
                        i <= list@.len(),
                        qs == queries(list@),
                        views(r@) == suggestions_from(qs.subrange(0, i as int), partial@),
                    decreases list.len() - i,
                {
                    proof {
                        assert(qs.subrange(0, i + 1).drop_last() =~= qs.subrange(0, i as int));
                        assert(qs.subrange(0, i + 1).last() == list@[i as int].query@);
                    }
                    let q = &list[i].query;
                    if contains_str(q.as_str(), partial) {
                        let mut seen = false;
                        let mut j: usize = 0;
                        while j < r.len()
                            invariant
                                j <= r@.len(),
                                seen == exists|t: int| 0 <= t < j && (#[trigger] r@[t])@ == q@,
                            decreases r.len() - j,
                        {
                            if str_eq(r[j].as_str(), q.as_str()) {
                                seen = true;
                            }
                            j = j + 1;
                        }
                        proof {
                            let vs = views(r@);
                            if seen {
                                let t = choose|t: int| 0 <= t < j && (#[trigger] r@[t])@ == q@;
                                assert(vs[t] == q@);
                            } else {
                                assert forall|t: int| 0 <= t < vs.len() implies vs[t] != q@ by {
                                    assert(vs[t] == r@[t]@);
                                }
                            }
                        }
                        if !seen {
                            let ghost prev = views(r@);
                            r.push(q.clone());
                            assert(views(r@) =~= prev.push(q@));
                        }
                    }
                    i = i + 1;
                }
                assert(qs.subrange(0, list@.len() as int) =~= qs);
            },
            None => {
                assert(views(r@) =~= Seq::<Seq<char>>::empty());
            },
        }
        r
    }

    /// Parse SQL into its statements, printed back; see `sql_parse` and
    /// `parse_outcome`.
    pub fn parse_sql(&self, query: &str) -> (r: Result<Vec<String>, DatabaseError>)
        ensures
            match sql_parse(query@) {
                Ok(v) => r matches Ok(w) && views(w@) == v,
                Err(e) => r matches Err(DatabaseError(m)) && m@ == "SQL parsing error: "@ + e,
            },
    {
        parse_outcome(parse_statements(query))
    }

    /// A query that reads only: after trimming and upper-casing it starts with
    /// SELECT, SHOW or DESCRIBE.
    pub fn is_read_only(&self, query: &str) -> (b: bool)
        ensures
            b == ({
                let t = uppercase(trim_seq(query@));
                starts_with_seq(t, "SELECT"@) || starts_with_seq(t, "SHOW"@) || starts_with_seq(t, "DESCRIBE"@)
            }),
    {
        let trimmed = trim_str(query);
        let t = to_uppercase(trimmed.as_str());
        starts_with_str(t.as_str(), "SELECT") || starts_with_str(t.as_str(), "SHOW") || starts_with_str(t.as_str(), "DESCRIBE")
    }

    /// A transaction control statement: after trimming and upper-casing it
    /// starts with BEGIN, COMMIT or ROLLBACK.
    pub fn is_transaction_control(&self, query: &str) -> (b: bool)
        ensures
            b == ({
                let t = uppercase(trim_seq(query@));
                starts_with_seq(t, "BEGIN"@) || starts_with_seq(t, "COMMIT"@) || starts_with_seq(t, "ROLLBACK"@)
            }),
    {
        let trimmed = trim_str(query);
        let t = to_uppercase(trimmed.as_str());
        starts_with_str(t.as_str(), "BEGIN") || starts_with_str(t.as_str(), "COMMIT") || starts_with_str(t.as_str(), "ROLLBACK")
    }
}

} // verus!
