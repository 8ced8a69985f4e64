use vstd::prelude::*;
use crate::ids::{RequestId, id_text};

verus! {

/// One request as the client remembers it: its identifier and the stamps of the
/// moments it was sent and answered.
#[derive(Debug, Clone)]
pub struct MonitorEntry {
    pub id: RequestId,
    pub sent: String,
    pub answered: String,
}

/// The client's record of its requests, by identifier. Recording an identifier
/// again replaces what was kept for it.
///
/// The entries are kept in a `Vec` with distinct identifiers rather than in a
/// `HashMap`: the report walks every entry, and a `HashMap` is walked in an order that
/// its per-process random seed decides, of which nothing can be stated. The `Vec` walks
/// them in the order in which they were first recorded, which `order` names.
#[derive(Debug)]
pub struct RequestMonitor {
    entries: Vec<MonitorEntry>,
}

/// The line that reports one request.
pub open spec fn report_line(id: RequestId, sent: Seq<char>, answered: Seq<char>) -> Seq<char> {
    "requestID: "@ + id_text(id) + " requestTimestamp: "@ + sent + " responseTimestamp "@
        + answered
}

/// A report line names the request, then its sending stamp after `requestTimestamp: `,
/// then its answering stamp after `responseTimestamp `.
pub proof fn lemma_report_line_parts(id: RequestId, sent: Seq<char>, answered: Seq<char>)
    ensures
        report_line(id, sent, answered) == "requestID: "@ + id_text(id) + " requestTimestamp: "@
            + sent + " responseTimestamp "@ + answered,
        report_line(id, sent, answered).subrange(
            ("requestID: "@ + id_text(id) + " requestTimestamp: "@).len() as int,
            ("requestID: "@ + id_text(id) + " requestTimestamp: "@ + sent).len() as int,
        ) == sent,
        report_line(id, sent, answered).subrange(
            report_line(id, sent, answered).len() - answered.len(),
            report_line(id, sent, answered).len() as int,
        ) == answered,
{
    let head = "requestID: "@ + id_text(id) + " requestTimestamp: "@;
    let line = report_line(id, sent, answered);
    assert(line =~= head + sent + " responseTimestamp "@ + answered);
    assert(line.subrange(head.len() as int, (head + sent).len() as int) =~= sent);
    assert(line.subrange(line.len() - answered.len(), line.len() as int) =~= answered);
}

/// No identifier occurs twice among `entries`.
spec fn ids_distinct(entries: Seq<MonitorEntry>) -> bool {
    forall|i: int, j: int| 0 <= i < j < entries.len() ==> entries[i].id != entries[j].id
}

/// `id` is the identifier of one of `entries`.
spec fn holds_id(entries: Seq<MonitorEntry>, id: RequestId) -> bool {
    exists|i: int| 0 <= i < entries.len() && entries[i].id == id
}

/// What `entries` record, by identifier.
spec fn entries_map(entries: Seq<MonitorEntry>) -> Map<RequestId, (Seq<char>, Seq<char>)> {
    Map::new(
        |id: RequestId| holds_id(entries, id),
        |id: RequestId|
            {
                let i = choose|i: int| 0 <= i < entries.len() && entries[i].id == id;
                (entries[i].sent@, entries[i].answered@)
            },
    )
}

/// With distinct identifiers, the map holds each entry under its identifier.
proof fn lemma_entry_in_map(entries: Seq<MonitorEntry>, i: int)
    requires
        ids_distinct(entries),
        0 <= i < entries.len(),
    ensures
        entries_map(entries).contains_key(entries[i].id),
        entries_map(entries)[entries[i].id] == (entries[i].sent@, entries[i].answered@),
{
    assert(holds_id(entries, entries[i].id));
    let j = choose|j: int| 0 <= j < entries.len() && entries[j].id == entries[i].id;
    assert(j == i);
}

/// Replacing an entry by one with the same identifier updates the map at that identifier.
proof fn lemma_replace_entry(entries: Seq<MonitorEntry>, i: int, e: MonitorEntry)
    requires
        ids_distinct(entries),
        0 <= i < entries.len(),
        entries[i].id == e.id,
    ensures
        ids_distinct(entries.update(i, e)),
        entries_map(entries.update(i, e)) == entries_map(entries).insert(
            e.id,
            (e.sent@, e.answered@),
        ),
{
    let after = entries.update(i, e);
    let expected = entries_map(entries).insert(e.id, (e.sent@, e.answered@));
    assert forall|k: RequestId| #[trigger] entries_map(after).contains_key(k)
        == expected.contains_key(k) by {
        if holds_id(entries, k) {
            let j = choose|j: int| 0 <= j < entries.len() && entries[j].id == k;
            assert(after[j].id == k);
        }
        if holds_id(after, k) {
            let j = choose|j: int| 0 <= j < after.len() && after[j].id == k;
            assert(entries[j].id == k);
        }
    }
    assert forall|k: RequestId| #[trigger] entries_map(after).contains_key(k) implies entries_map(
        after,
    )[k] == expected[k] by {
        let j = choose|j: int| 0 <= j < after.len() && after[j].id == k;
        lemma_entry_in_map(after, j);
        if k != e.id {
            lemma_entry_in_map(entries, j);
        }
    }
    assert(entries_map(after) =~= expected);
}

/// Appending an entry with a new identifier adds it to the map.
proof fn lemma_append_entry(entries: Seq<MonitorEntry>, e: MonitorEntry)
    requires
        ids_distinct(entries),
        !holds_id(entries, e.id),
    ensures
        ids_distinct(entries.push(e)),
        entries_map(entries.push(e)) == entries_map(entries).insert(e.id, (e.sent@, e.answered@)),
{
    let after = entries.push(e);
    let expected = entries_map(entries).insert(e.id, (e.sent@, e.answered@));
    assert forall|i: int, j: int| 0 <= i < j < after.len() implies after[i].id != after[j].id by {
        if j == entries.len() {
            assert(entries[i].id == after[i].id);
        }
    }
    assert forall|k: RequestId| #[trigger] entries_map(after).contains_key(k)
        == expected.contains_key(k) by {
        if holds_id(entries, k) {
            let j = choose|j: int| 0 <= j < entries.len() && entries[j].id == k;
            assert(after[j].id == k);
        }
        if holds_id(after, k) && k != e.id {
            let j = choose|j: int| 0 <= j < after.len() && after[j].id == k;
            assert(entries[j].id == k);
        }
        if k == e.id {
            assert(after[entries.len() as int].id == k);
        }
    }
    assert forall|k: RequestId| #[trigger] entries_map(after).contains_key(k) implies entries_map(
        after,
    )[k] == expected[k] by {
        let j = choose|j: int| 0 <= j < after.len() && after[j].id == k;
        lemma_entry_in_map(after, j);
        if k != e.id {
            lemma_entry_in_map(entries, j);
        }
    }
    assert(entries_map(after) =~= expected);
}

impl View for RequestMonitor {
    type V = Map<RequestId, (Seq<char>, Seq<char>)>;

    closed spec fn view(&self) -> Map<RequestId, (Seq<char>, Seq<char>)> {
        entries_map(self.entries@)
    }
}

impl RequestMonitor {
    #[verifier::type_invariant]
    spec fn well_formed(self) -> bool {
        ids_distinct(self.entries@)
    }

    /// The identifiers in the order in which they were first recorded.
    pub closed spec fn order(&self) -> Seq<RequestId> {
        self.entries@.map_values(|e: MonitorEntry| e.id)
    }

    /// An empty record.
    pub fn new() -> (monitor: Self)
        ensures
            monitor@ == Map::<RequestId, (Seq<char>, Seq<char>)>::empty(),
            monitor.order() == Seq::<RequestId>::empty(),
    {
        let monitor = RequestMonitor { entries: Vec::new() };
        assert(monitor@ =~= Map::<RequestId, (Seq<char>, Seq<char>)>::empty());
        assert(monitor.order() =~= Seq::<RequestId>::empty());
        monitor
    }

    /// Records the stamps of the request `id`, replacing what was kept for it, and hands
    /// back what was kept before, if anything.
    pub fn insert(&mut self, id: RequestId, sent: String, answered: String) -> (previous: Option<
        (String, String),
    >)
        ensures
            final(self)@ == old(self)@.insert(id, (sent@, answered@)),
            previous is Some <==> old(self)@.contains_key(id),
            previous matches Some(p) ==> (p.0@, p.1@) == old(self)@[id],
            old(self)@.contains_key(id) ==> final(self).order() == old(self).order(),
            !old(self)@.contains_key(id) ==> final(self).order() == old(self).order().push(id),
    {
        proof {
            use_type_invariant(&*self);
        }
        let mut entries: Vec<MonitorEntry> = Vec::new();
        std::mem::swap(&mut entries, &mut self.entries);
        let ghost before = entries@;
        let mut i: usize = 0;
        while i < entries.len()
            invariant
                0 <= i <= entries.len(),
                entries@ == before,
                before == old(self).entries@,
                ids_distinct(before),
                forall|j: int| 0 <= j < i ==> entries[j].id != id,
            decreases entries.len() - i,
        {
            if entries[i].id == id {
                let previous = (entries[i].sent.clone(), entries[i].answered.clone());
                let entry = MonitorEntry { id, sent, answered };
                proof {
                    lemma_entry_in_map(before, i as int);
                    lemma_replace_entry(before, i as int, entry);
                }
                entries.set(i, entry);
                self.entries = entries;
                proof {
                    assert(self.order() =~= old(self).order());
                }
                return Some(previous);
            }
            i = i + 1;
        }
        let entry = MonitorEntry { id, sent, answered };
        proof {
            lemma_append_entry(before, entry);
        }
        entries.push(entry);
        self.entries = entries;
        proof {
            assert(self.order() =~= old(self).order().push(id));
        }
        None
    }

    /// One line per recorded request, in the order in which the requests were first
    /// recorded: every recorded request is reported, and reported once.
    pub fn report(&self) -> (lines: Vec<String>)
        ensures
            lines.len() == self.order().len(),
            forall|i: int|
                0 <= i < lines.len() ==> #[trigger] lines[i]@ == report_line(
                    self.order()[i],
                    self@[self.order()[i]].0,
                    self@[self.order()[i]].1,
                ),
            forall|i: int|
                0 <= i < lines.len() ==> #[trigger] lines[i]@ == "requestID: "@ + id_text(
                    self.order()[i],
                ) + " requestTimestamp: "@ + self@[self.order()[i]].0 + " responseTimestamp "@
                    + self@[self.order()[i]].1,
            forall|id: RequestId| self@.contains_key(id) <==> self.order().contains(id),
            self.order().no_duplicates(),
    {
        proof {
            use_type_invariant(self);
        }
        let mut lines: Vec<String> = Vec::new();
        let mut i: usize = 0;
        while i < self.entries.len()
            invariant
                0 <= i <= self.entries.len(),
                lines.len() == i,
                ids_distinct(self.entries@),
                forall|j: int|
                    0 <= j < i ==> #[trigger] lines[j]@ == report_line(
                        self.entries[j].id,
                        self.entries[j].sent@,
                        self.entries[j].answered@,
                    ),
            decreases self.entries.len() - i,
        {
            let entry = &self.entries[i];
            let id_text = entry.id.text();
            let mut line = String::new();
            line.append("requestID: ");
            line.append(id_text.as_str());
            line.append(" requestTimestamp: ");
            line.append(entry.sent.as_str());
            line.append(" responseTimestamp ");
            line.append(entry.answered.as_str());
            lines.push(line);
            i = i + 1;
        }
        proof {
            let entries = self.entries@;
            assert forall|j: int| 0 <= j < lines.len() implies #[trigger] lines[j]@ == report_line(
                self.order()[j],
                self@[self.order()[j]].0,
                self@[self.order()[j]].1,
            ) by {
                lemma_entry_in_map(entries, j);
            }
            assert forall|id: RequestId| self@.contains_key(id) <==> self.order().contains(id) by {
                if self@.contains_key(id) {
                    let j = choose|j: int| 0 <= j < entries.len() && entries[j].id == id;
                    assert(self.order()[j] == id);
                }
                if self.order().contains(id) {
                    let j = choose|j: int| 0 <= j < self.order().len() && self.order()[j] == id;
                    assert(entries[j].id == id);
                }
            }
        }
        lines
    }
}

} // verus!
