//! The gathering-node timetable: which materials can be gathered where, and
//! in which window of Eorzean time.

use crate::clock::{
    hour_minute_format, in_window, parse_hour_minute, parsed_time_of_day, within_time, SECONDS_PER_DAY,
};
use vstd::prelude::*;
use vstd::string::*;

verus! {

/// One entry of the timetable as written in its JSON file: the window's start
/// and end as `HH:MM` texts, the material and where to find it.
pub struct NodeRecord {
    pub start: String,
    pub end: String,
    pub name: String,
    pub location: String,
}

/// A record seen as plain text: start, end, name, location.
pub type NodeRecordView = (Seq<char>, Seq<char>, Seq<char>, Seq<char>);

impl View for NodeRecord {
    type V = NodeRecordView;

    open spec fn view(&self) -> NodeRecordView {
        (self.start@, self.end@, self.name@, self.location@)
    }
}

/// One gathering node of the table: window start and end, in seconds since
/// midnight, the material and where to find it.
pub struct NodeEntry {
    pub start: u32,
    pub end: u32,
    pub name: String,
    pub location: String,
}

/// An entry seen as plain values: start, end, name, location.
pub type NodeEntryView = (u32, u32, Seq<char>, Seq<char>);

impl View for NodeEntry {
    type V = NodeEntryView;

    open spec fn view(&self) -> NodeEntryView {
        (self.start, self.end, self.name@, self.location@)
    }
}

/// Entries `i` and `j` have the same window.
pub open spec fn same_window(s: Seq<NodeEntryView>, i: int, j: int) -> bool {
    s[i].0 == s[j].0 && s[i].1 == s[j].1
}

/// No two entries share a window.
pub open spec fn distinct_windows(s: Seq<NodeEntryView>) -> bool {
    forall|i: int, j: int|
        0 <= i < s.len() && 0 <= j < s.len() && i != j ==> !#[trigger] same_window(s, i, j)
}

/// No two entries share a window, and every time lies within one day.
pub open spec fn valid_entries(s: Seq<NodeEntryView>) -> bool {
    &&& distinct_windows(s)
    &&& forall|i: int|
        #![trigger s[i]]
        0 <= i < s.len() ==> s[i].0 < SECONDS_PER_DAY && s[i].1 < SECONDS_PER_DAY
}

/// Some entry has the window from `start` to `end`.
pub open spec fn has_window(s: Seq<NodeEntryView>, start: u32, end: u32) -> bool {
    exists|i: int| 0 <= i < s.len() && s[i].0 == start && s[i].1 == end
}

/// The position of an entry whose window is from `start` to `end`.
pub open spec fn window_index(s: Seq<NodeEntryView>, start: u32, end: u32) -> int {
    choose|i: int| 0 <= i < s.len() && s[i].0 == start && s[i].1 == end
}

/// Entering `e`: an entry with the same window gets `e`'s name and location
/// in its place, as a map's insert does; otherwise `e` is added at the end.
pub open spec fn upsert(s: Seq<NodeEntryView>, e: NodeEntryView) -> Seq<NodeEntryView> {
    if has_window(s, e.0, e.1) {
        s.update(window_index(s, e.0, e.1), e)
    } else {
        s.push(e)
    }
}

/// The table as a map from window to name and location.
pub open spec fn as_map(s: Seq<NodeEntryView>) -> Map<(u32, u32), (Seq<char>, Seq<char>)> {
    Map::new(
        |k: (u32, u32)| has_window(s, k.0, k.1),
        |k: (u32, u32)| {
            let e = s[window_index(s, k.0, k.1)];
            (e.2, e.3)
        },
    )
}

/// A table read from `records`, in order, or the first time text that does not
/// parse (a record's start before its end).
pub open spec fn build_nodes(records: Seq<NodeRecordView>) -> Result<Seq<NodeEntryView>, Seq<char>>
    decreases records.len(),
{
    if records.len() == 0 {
        Ok(Seq::empty())
    } else {
        match build_nodes(records.drop_last()) {
            Err(e) => Err(e),
            Ok(s) => {
                let r = records.last();
                match parsed_time_of_day(r.0, hour_minute_format()) {
                    None => Err(r.0),
                    Some(start) => match parsed_time_of_day(r.1, hour_minute_format()) {
                        None => Err(r.1),
                        Some(end) => Ok(upsert(s, (start, end, r.2, r.3))),
                    },
                }
            },
        }
    }
}

/// The timetable: at most one entry per window.
pub struct NodeTable {
    entries: Vec<NodeEntry>,
}

/// Why a timetable could not be built.
pub enum NodeError {
    /// This time text is not a time written as `%H:%M`.
    InvalidTime(String),
}

impl NodeTable {
    pub closed spec fn view(&self) -> Seq<NodeEntryView> {
        self.entries@.map_values(|e: NodeEntry| e@)
    }

    #[verifier::type_invariant]
    closed spec fn wf(&self) -> bool {
        valid_entries(self.view())
    }

    /// An empty table.
    pub fn new() -> (t: NodeTable)
        ensures
            t.view() == Seq::<NodeEntryView>::empty(),
    {
        let t = NodeTable { entries: Vec::new() };
        assert(t.view() =~= Seq::<NodeEntryView>::empty());
        t
    }

    /// The number of windows in the table.
    pub fn len(&self) -> (n: usize)
        ensures
            n == self.view().len(),
    {
        self.entries.len()
    }

    fn find_window(&self, start: u32, end: u32) -> (r: Option<usize>)
        ensures
            match r {
                Some(i) => i < self.view().len() && self.view()[i as int].0 == start
                    && self.view()[i as int].1 == end,
                None => !has_window(self.view(), start, end),
            },
    {
        let mut i: usize = 0;
        while i < self.entries.len()
            invariant
                i <= self.entries.len(),
                forall|k: int|
                    0 <= k < i ==> !(self.view()[k].0 == start && self.view()[k].1 == end),
            decreases self.entries.len() - i,
        {
            if self.entries[i].start == start && self.entries[i].end == end {
                return Some(i);
            }
            i = i + 1;
        }
        None
    }

    /// Enters a node for the window from `start` to `end`: it replaces the
    /// name and location of an entry with that window, or is added at the end.
    pub fn insert(&mut self, start: u32, end: u32, name: String, location: String)
        requires
            start < SECONDS_PER_DAY,
            end < SECONDS_PER_DAY,
        ensures
            final(self).view() == upsert(old(self).view(), (start, end, name@, location@)),
    {
        proof {
            use_type_invariant(&*self);
        }
        let ghost old_view = self.view();
        let ghost e: NodeEntryView = (start, end, name@, location@);
        match self.find_window(start, end) {
            Some(i) => {
                proof {
                    let j = window_index(old_view, start, end);
                    assert(same_window(old_view, i as int, j));
                }
                let mut entries = Vec::new();
                std::mem::swap(&mut entries, &mut self.entries);
                entries.set(i, NodeEntry { start, end, name, location });
                proof {
                    assert(entries@.map_values(|e: NodeEntry| e@) =~= old_view.update(i as int, e));
                    let s = old_view.update(i as int, e);
                    assert forall|a: int, b: int|
                        0 <= a < s.len() && 0 <= b < s.len() && a != b implies !#[trigger] same_window(s, a, b) by {
                        assert(!same_window(old_view, a, b));
                        if a == i {
                            assert(!same_window(old_view, i as int, b));
                        }
                        if b == i {
                            assert(!same_window(old_view, a, i as int));
                        }
                    }
                }
                self.entries = entries;
            },
            None => {
                let mut entries = Vec::new();
                std::mem::swap(&mut entries, &mut self.entries);
                entries.push(NodeEntry { start, end, name, location });
                proof {
                    assert(entries@.map_values(|e: NodeEntry| e@) =~= old_view.push(e));
                    let s = old_view.push(e);
                    assert forall|a: int, b: int|
                        0 <= a < s.len() && 0 <= b < s.len() && a != b implies !#[trigger] same_window(s, a, b) by {
                        if a < old_view.len() && b < old_view.len() {
                            assert(!same_window(old_view, a, b));
                        }
                    }
                }
                self.entries = entries;
            },
        }
    }

    /// The name and location entered for the window from `start` to `end`.
    pub fn get(&self, start: u32, end: u32) -> (r: Option<(String, String)>)
        ensures
            match r {
                Some(v) => as_map(self.view()).contains_key((start, end)) && as_map(self.view())[(
                    start,
                    end,
                )] == (v.0@, v.1@),
                None => !as_map(self.view()).contains_key((start, end)),
            },
    {
        proof {
            use_type_invariant(self);
        }
        match self.find_window(start, end) {
            Some(i) => {
                proof {
                    let j = window_index(self.view(), start, end);
                    assert(!same_window(self.view(), i as int, j) || i == j);
                }
                Some((self.entries[i].name.clone(), self.entries[i].location.clone()))
            },
            None => None,
        }
    }
}

/// In a table without repeated windows, at most one entry holds a window.
proof fn lemma_window_index_unique(s: Seq<NodeEntryView>, i: int)
    requires
        distinct_windows(s),
        0 <= i < s.len(),
    ensures
        has_window(s, s[i].0, s[i].1),
        window_index(s, s[i].0, s[i].1) == i,
{
    let j = window_index(s, s[i].0, s[i].1);
    assert(same_window(s, i, j) || i == j);
}

/// Entering a node keeps the windows distinct, and the table read as a map
/// gets the entered window inserted.
proof fn lemma_upsert_map(s: Seq<NodeEntryView>, e: NodeEntryView)
    requires
        distinct_windows(s),
    ensures
        distinct_windows(upsert(s, e)),
        as_map(upsert(s, e)) == as_map(s).insert((e.0, e.1), (e.2, e.3)),
{
    let t = upsert(s, e);
    if has_window(s, e.0, e.1) {
        let w = window_index(s, e.0, e.1);
        assert forall|a: int, b: int|
            0 <= a < t.len() && 0 <= b < t.len() && a != b implies !#[trigger] same_window(t, a, b) by {
            assert(!same_window(s, a, b));
            if a == w {
                assert(!same_window(s, w, b));
            }
            if b == w {
                assert(!same_window(s, a, w));
            }
        }
    } else {
        assert forall|a: int, b: int|
            0 <= a < t.len() && 0 <= b < t.len() && a != b implies !#[trigger] same_window(t, a, b) by {
            if a < s.len() && b < s.len() {
                assert(!same_window(s, a, b));
            }
        }
    }
    assert(distinct_windows(t));
    let m = as_map(s).insert((e.0, e.1), (e.2, e.3));
    assert forall|k: (u32, u32)| #[trigger] as_map(t).contains_key(k) <==> m.contains_key(k) by {
        if has_window(s, k.0, k.1) {
            let j = window_index(s, k.0, k.1);
            assert(t[j].0 == k.0 && t[j].1 == k.1);
        }
        if k == (e.0, e.1) {
            if has_window(s, e.0, e.1) {
                let w = window_index(s, e.0, e.1);
                assert(t[w] == e);
            } else {
                assert(t[s.len() as int] == e);
            }
        }
        if has_window(t, k.0, k.1) && k != (e.0, e.1) {
            let j = window_index(t, k.0, k.1);
            assert(s[j].0 == k.0 && s[j].1 == k.1);
        }
    }
    assert forall|k: (u32, u32)| #[trigger] as_map(t).contains_key(k) implies as_map(t)[k] == m[k] by {
        let j = window_index(t, k.0, k.1);
        lemma_window_index_unique(t, j);
        if k == (e.0, e.1) {
            if has_window(s, e.0, e.1) {
                let w = window_index(s, e.0, e.1);
                lemma_window_index_unique(t, w);
            } else {
                lemma_window_index_unique(t, s.len() as int);
            }
        } else {
            assert(s[j].0 == k.0 && s[j].1 == k.1);
            lemma_window_index_unique(s, j);
        }
    }
    assert(as_map(t) =~= m);
}

/// Entering a node keeps the table free of repeated windows, and reading the
/// table as a map afterwards gives what was entered for that window and what
/// was there before for every other window.
pub proof fn law_insert_then_read(s: Seq<NodeEntryView>, e: NodeEntryView)
    requires
        valid_entries(s),
        e.0 < SECONDS_PER_DAY,
        e.1 < SECONDS_PER_DAY,
    ensures
        valid_entries(upsert(s, e)),
        as_map(upsert(s, e)) == as_map(s).insert((e.0, e.1), (e.2, e.3)),
{
    lemma_upsert_map(s, e);
    let t = upsert(s, e);
    assert forall|i: int| 0 <= i < t.len() implies t[i].0 < SECONDS_PER_DAY && t[i].1 < SECONDS_PER_DAY by {
        if i < s.len() && t[i] != e {
            assert(t[i] == s[i]);
        }
    }
}

/// The windows of the records read in order, each mapped to the name and
/// location of the last record with that window; records whose times do not
/// parse add nothing.
pub open spec fn records_map(records: Seq<NodeRecordView>) -> Map<(u32, u32), (Seq<char>, Seq<char>)>
    decreases records.len(),
{
    if records.len() == 0 {
        Map::empty()
    } else {
        let m = records_map(records.drop_last());
        let r = records.last();
        match (
            parsed_time_of_day(r.0, hour_minute_format()),
            parsed_time_of_day(r.1, hour_minute_format()),
        ) {
            (Some(start), Some(end)) => m.insert((start, end), (r.2, r.3)),
            _ => m,
        }
    }
}

/// A table built from records holds every record's window: read as a map it is
/// the records folded with `Map::insert`, later records replacing earlier ones
/// with the same window, and no window appears twice.
pub proof fn law_built_table_is_records_map(records: Seq<NodeRecordView>)
    requires
        build_nodes(records) is Ok,
    ensures
        distinct_windows(build_nodes(records)->Ok_0),
        as_map(build_nodes(records)->Ok_0) == records_map(records),
    decreases records.len(),
{
    if records.len() == 0 {
        assert(as_map(Seq::<NodeEntryView>::empty()) =~= Map::<(u32, u32), (Seq<char>, Seq<char>)>::empty());
    } else {
        law_built_table_is_records_map(records.drop_last());
        let s0 = build_nodes(records.drop_last())->Ok_0;
        let r = records.last();
        let start = parsed_time_of_day(r.0, hour_minute_format())->Some_0;
        let end = parsed_time_of_day(r.1, hour_minute_format())->Some_0;
        lemma_upsert_map(s0, (start, end, r.2, r.3));
    }
}

/// Once the records read so far fail, reading more records fails the same way.
proof fn lemma_build_error_stays(records: Seq<NodeRecordView>, n: int, m: int)
    requires
        0 <= n <= m <= records.len(),
        build_nodes(records.take(n)) is Err,
    ensures
        build_nodes(records.take(m)) == build_nodes(records.take(n)),
    decreases m - n,
{
    if n < m {
        lemma_build_error_stays(records, n, m - 1);
        assert(records.take(m).drop_last() =~= records.take(m - 1));
    }
}

/// Builds the timetable from the records of its JSON file, in order: each
/// record's start and end are parsed as `%H:%M`, and a record whose window is
/// already in the table replaces that entry's name and location. The first
/// time text that does not parse is returned as the error.
pub fn node_generate(records: Vec<NodeRecord>) -> (r: Result<NodeTable, NodeError>)
    ensures
        match r {
            Ok(t) => build_nodes(records@.map_values(|x: NodeRecord| x@)) == Ok::<
                Seq<NodeEntryView>,
                Seq<char>,
            >(t.view()) && as_map(t.view()) == records_map(
                records@.map_values(|x: NodeRecord| x@),
            ),
            Err(NodeError::InvalidTime(text)) => build_nodes(
                records@.map_values(|x: NodeRecord| x@),
            ) == Err::<Seq<NodeEntryView>, Seq<char>>(text@),
        },
{
    let ghost rv = records@.map_values(|x: NodeRecord| x@);
    let mut table = NodeTable::new();
    let mut i: usize = 0;
    assert(rv.take(0) =~= Seq::<NodeRecordView>::empty());
    while i < records.len()
        invariant
            i <= records.len(),
            rv == records@.map_values(|x: NodeRecord| x@),
            build_nodes(rv.take(i as int)) == Ok::<Seq<NodeEntryView>, Seq<char>>(table.view()),
        decreases records.len() - i,
    {
        let record = &records[i];
        assert(rv.take(i + 1).drop_last() =~= rv.take(i as int));
        assert(rv.take(i + 1).last() == record@);
        let start = match parse_hour_minute(record.start.as_str()) {
            Some(t) => t,
            None => {
                proof {
                    lemma_build_error_stays(rv, i + 1, rv.len() as int);
                    assert(rv.take(rv.len() as int) =~= rv);
                }
                return Err(NodeError::InvalidTime(record.start.clone()));
            },
        };
        let end = match parse_hour_minute(record.end.as_str()) {
            Some(t) => t,
            None => {
                proof {
                    lemma_build_error_stays(rv, i + 1, rv.len() as int);
                    assert(rv.take(rv.len() as int) =~= rv);
                }
                return Err(NodeError::InvalidTime(record.end.clone()));
            },
        };
        table.insert(start, end, record.name.clone(), record.location.clone());
        i = i + 1;
    }
    assert(rv.take(records.len() as int) =~= rv);
    proof {
        law_built_table_is_records_map(rv);
    }
    Ok(table)
}

/// The chat line that announces one gathering node.
pub open spec fn node_line(e: NodeEntryView) -> Seq<char> {
    e.2 + " in "@ + e.3 + "\n"@
}

/// The lines of the entries whose window holds `now`, in table order; a window
/// that runs past midnight holds the times after its start and before its end.
pub open spec fn active_lines(s: Seq<NodeEntryView>, now: u32) -> Seq<char>
    decreases s.len(),
{
    if s.len() == 0 {
        Seq::empty()
    } else {
        let e = s.last();
        active_lines(s.drop_last(), now) + if in_window(e.0, e.1, now) {
            node_line(e)
        } else {
            Seq::empty()
        }
    }
}

/// The answer to the `nodes` command at Eorzean time `now`.
pub open spec fn nodes_message_text(s: Seq<NodeEntryView>, now: u32) -> Seq<char> {
    "All active nodes right now are:\n"@ + active_lines(s, now)
}

/// The lines of all of `s`, in order.
pub open spec fn node_lines(s: Seq<NodeEntryView>) -> Seq<char>
    decreases s.len(),
{
    if s.len() == 0 {
        Seq::empty()
    } else {
        node_lines(s.drop_last()) + node_line(s.last())
    }
}

/// The entries whose window holds `now`, in table order.
pub open spec fn active_entries(s: Seq<NodeEntryView>, now: u32) -> Seq<NodeEntryView> {
    s.filter(|e: NodeEntryView| in_window(e.0, e.1, now))
}

proof fn lemma_active_lines_filter(s: Seq<NodeEntryView>, now: u32)
    ensures
        active_lines(s, now) == node_lines(active_entries(s, now)),
    decreases s.len(),
{
    reveal(Seq::filter);
    if s.len() > 0 {
        lemma_active_lines_filter(s.drop_last(), now);
        let e = s.last();
        if in_window(e.0, e.1, now) {
            let f = active_entries(s, now);
            assert(f.drop_last() =~= active_entries(s.drop_last(), now));
        } else {
            assert(node_lines(active_entries(s.drop_last(), now)) + Seq::<char>::empty() =~= node_lines(
                active_entries(s.drop_last(), now),
            ));
        }
    }
}

/// The answer to the `nodes` command is the heading followed by one line for
/// each entry of the whole table whose window holds `now`, in table order, and
/// no other line.
pub proof fn law_nodes_message_lists_all_active(s: Seq<NodeEntryView>, now: u32)
    ensures
        nodes_message_text(s, now) == "All active nodes right now are:\n"@ + node_lines(
            s.filter(|e: NodeEntryView| in_window(e.0, e.1, now)),
        ),
{
    lemma_active_lines_filter(s, now);
}

/// The answer to the `nodes` command: a heading, then one line naming the
/// material and its place for each node whose window holds the Eorzean time
/// `now` (seconds since midnight).
pub fn nodes_message(table: &NodeTable, now: u32) -> (r: String)
    requires
        now < SECONDS_PER_DAY,
    ensures
        r@ == nodes_message_text(table.view(), now),
        r@ == "All active nodes right now are:\n"@ + node_lines(active_entries(table.view(), now)),
{
    proof {
        use_type_invariant(table);
    }
    let mut message = String::new();
    message.append("All active nodes right now are:\n");
    let n = table.entries.len();
    let mut i: usize = 0;
    while i < n
        invariant
            n == table.view().len(),
            i <= n,
            valid_entries(table.view()),
            now < SECONDS_PER_DAY,
            message@ == "All active nodes right now are:\n"@ + active_lines(
                table.view().take(i as int),
                now,
            ),
        decreases n - i,
    {
        let e = &table.entries[i];
        assert(table.view().take(i + 1).drop_last() =~= table.view().take(i as int));
        assert(table.view()[i as int] == e@);
        assert(e.start < SECONDS_PER_DAY && e.end < SECONDS_PER_DAY);
        if within_time(e.start, e.end, now) {
            message.append(e.name.as_str());
            message.append(" in ");
            message.append(e.location.as_str());
            message.append("\n");
        }
        i = i + 1;
    }
    assert(table.view().take(n as int) =~= table.view());
    proof {
        lemma_active_lines_filter(table.view(), now);
    }
    message
}

} // verus!
