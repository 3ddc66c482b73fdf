//! An in-memory stream transport: topics as append-only entry logs with
//! consumer groups, delivery cursors and pending-entry sets.
use vstd::prelude::*;

use crate::codec::texts;

verus! {

/// A transport-assigned entry identifier: milliseconds, then a sequence
/// number within the millisecond. Identifiers grow in that order.
#[derive(Debug, Clone, Copy, PartialEq, Eq, Structural)]
pub struct EntryId {
    pub ms: u64,
    pub seq: u64,
}

pub open spec fn id_lt(a: EntryId, b: EntryId) -> bool {
    a.ms < b.ms || (a.ms == b.ms && a.seq < b.seq)
}

/// The identifier given to the entry appended at time `now` after `last`:
/// the first of `now`'s millisecond when the clock has moved on, else the
/// next sequence number of `last`'s millisecond. None when that would not fit.
pub open spec fn next_id(last: EntryId, now: u64) -> Option<EntryId> {
    if now > last.ms {
        Some(EntryId { ms: now, seq: 0 })
    } else if last.seq < u64::MAX {
        Some(EntryId { ms: last.ms, seq: (last.seq + 1) as u64 })
    } else {
        None
    }
}

impl EntryId {
    pub fn precedes(&self, other: &EntryId) -> (r: bool)
        ensures
            r == id_lt(*self, *other),
    {
        self.ms < other.ms || (self.ms == other.ms && self.seq < other.seq)
    }
}

pub fn next_entry_id(last: EntryId, now: u64) -> (r: Option<EntryId>)
    ensures
        r == next_id(last, now),
{
    if now > last.ms {
        Some(EntryId { ms: now, seq: 0 })
    } else if last.seq < u64::MAX {
        Some(EntryId { ms: last.ms, seq: last.seq + 1 })
    } else {
        None
    }
}

#[derive(Debug)]
pub struct StreamEntry {
    pub id: EntryId,
    pub fields: Vec<String>,
}

#[derive(Debug)]
pub struct ConsumerGroup {
    pub name: String,
    /// The last entry handed out to a consumer of this group.
    pub last_delivered: EntryId,
    /// Delivered entries that were not acknowledged.
    pub pending: Vec<EntryId>,
}

/// One topic: its entries in append order and its consumer groups.
#[derive(Debug)]
pub struct MemoryStream {
    pub entries: Vec<StreamEntry>,
    pub groups: Vec<ConsumerGroup>,
    pub last_id: EntryId,
    pub max_len: usize,
}

pub struct GroupView {
    pub last_delivered: EntryId,
    pub pending: Set<EntryId>,
}

pub struct StreamView {
    pub entries: Seq<(EntryId, Seq<Seq<char>>)>,
    pub groups: Seq<(Seq<char>, GroupView)>,
    pub last_id: EntryId,
    pub max_len: nat,
}

pub open spec fn entry_view(e: StreamEntry) -> (EntryId, Seq<Seq<char>>) {
    (e.id, texts(e.fields@))
}

pub open spec fn group_view(g: ConsumerGroup) -> (Seq<char>, GroupView) {
    (g.name@, GroupView { last_delivered: g.last_delivered, pending: g.pending@.to_set() })
}

impl View for MemoryStream {
    type V = StreamView;

    open spec fn view(&self) -> StreamView {
        StreamView {
            entries: self.entries@.map_values(|e: StreamEntry| entry_view(e)),
            groups: self.groups@.map_values(|g: ConsumerGroup| group_view(g)),
            last_id: self.last_id,
            max_len: self.max_len as nat,
        }
    }
}

/// Entries are in strictly increasing identifier order, none after `last_id`.
pub open spec fn ids_ordered(s: StreamView) -> bool {
    &&& forall|i: int, j: int|
        0 <= i < j < s.entries.len() ==> id_lt(#[trigger] s.entries[i].0, #[trigger] s.entries[j].0)
    &&& forall|i: int| 0 <= i < s.entries.len() ==> !id_lt(s.last_id, #[trigger] s.entries[i].0)
}

/// Position of the first group named `name`, from position `i` on.
pub open spec fn group_pos_from(gs: Seq<(Seq<char>, GroupView)>, name: Seq<char>, i: int) -> Option<int>
    decreases gs.len() - i,
{
    if i < 0 || i >= gs.len() {
        None
    } else if gs[i].0 == name {
        Some(i)
    } else {
        group_pos_from(gs, name, i + 1)
    }
}

pub open spec fn group_pos(s: StreamView, name: Seq<char>) -> Option<int> {
    group_pos_from(s.groups, name, 0)
}

/// The state of the group named `name`.
pub open spec fn group_of(s: StreamView, name: Seq<char>) -> Option<GroupView> {
    match group_pos(s, name) {
        Some(i) => Some(s.groups[i].1),
        None => None,
    }
}

/// The entries kept of `es` under a bound of `m` entries: the newest `m`.
pub open spec fn trimmed<T>(es: Seq<T>, m: nat) -> Seq<T> {
    if es.len() > m {
        es.subrange(es.len() - m, es.len() as int)
    } else {
        es
    }
}

/// Appending an entry at time `now`.
pub open spec fn append_spec(s: StreamView, now: u64, fields: Seq<Seq<char>>) -> Option<(StreamView, EntryId)> {
    match next_id(s.last_id, now) {
        Some(id) => Some((StreamView { entries: trimmed(s.entries.push((id, fields)), s.max_len), last_id: id, ..s }, id)),
        None => None,
    }
}

/// Creating a group that starts after the newest entry, unless one of that
/// name exists.
pub open spec fn ensure_group_spec(s: StreamView, name: Seq<char>) -> StreamView {
    match group_pos(s, name) {
        Some(_) => s,
        None => StreamView {
            groups: s.groups.push((name, GroupView { last_delivered: s.last_id, pending: Set::empty() })),
            ..s
        },
    }
}

/// Position of the first entry after `cur`, from position `i` on.
pub open spec fn first_after_from(es: Seq<(EntryId, Seq<Seq<char>>)>, cur: EntryId, i: int) -> Option<int>
    decreases es.len() - i,
{
    if i < 0 || i >= es.len() {
        None
    } else if id_lt(cur, es[i].0) {
        Some(i)
    } else {
        first_after_from(es, cur, i + 1)
    }
}

/// Reading through a group: the first entry after its cursor, which then
/// becomes the cursor and joins the pending set.
pub open spec fn read_spec(s: StreamView, name: Seq<char>) -> (StreamView, Option<(EntryId, Seq<Seq<char>>)>) {
    match group_pos(s, name) {
        Some(g) => match first_after_from(s.entries, s.groups[g].1.last_delivered, 0) {
            Some(k) => {
                let e = s.entries[k];
                let gv = GroupView { last_delivered: e.0, pending: s.groups[g].1.pending.insert(e.0) };
                (StreamView { groups: s.groups.update(g, (name, gv)), ..s }, Some(e))
            },
            None => (s, None),
        },
        None => (s, None),
    }
}

/// Acknowledging `id` in a group: it leaves that group's pending set.
pub open spec fn ack_spec(s: StreamView, name: Seq<char>, id: EntryId) -> StreamView {
    match group_pos(s, name) {
        Some(g) => {
            let gv = GroupView { pending: s.groups[g].1.pending.remove(id), ..s.groups[g].1 };
            StreamView { groups: s.groups.update(g, (name, gv)), ..s }
        },
        None => s,
    }
}

pub proof fn lemma_group_pos_from(gs: Seq<(Seq<char>, GroupView)>, name: Seq<char>, i: int)
    ensures
        group_pos_from(gs, name, i) matches Some(j) ==> i <= j < gs.len() && gs[j].0 == name,
    decreases gs.len() - i,
{
    if 0 <= i < gs.len() && gs[i].0 != name {
        lemma_group_pos_from(gs, name, i + 1);
    }
}

pub proof fn lemma_group_pos_same_names(a: Seq<(Seq<char>, GroupView)>, b: Seq<(Seq<char>, GroupView)>, name: Seq<char>, i: int)
    requires
        a.len() == b.len(),
        forall|k: int| 0 <= k < a.len() ==> (#[trigger] a[k]).0 == b[k].0,
    ensures
        group_pos_from(a, name, i) == group_pos_from(b, name, i),
    decreases a.len() - i,
{
    if 0 <= i < a.len() {
        lemma_group_pos_same_names(a, b, name, i + 1);
    }
}

/// Reading through a group leaves the entries as they were, and the
/// delivered entry is then pending in that group.
pub proof fn lemma_read_pending(s: StreamView, name: Seq<char>)
    ensures
        read_spec(s, name).0.entries == s.entries,
        read_spec(s, name).1 matches Some(e) ==> group_of(read_spec(s, name).0, name) matches Some(g)
            && g.pending.contains(e.0) && g.last_delivered == e.0,
{
    lemma_group_pos_from(s.groups, name, 0);
    match group_pos(s, name) {
        Some(g) => match first_after_from(s.entries, s.groups[g].1.last_delivered, 0) {
            Some(k) => {
                let s1 = read_spec(s, name).0;
                lemma_group_pos_same_names(s1.groups, s.groups, name, 0);
            },
            None => {},
        },
        None => {},
    }
}

/// Consumer groups on one topic are independent: reading or acknowledging
/// through one group leaves every other group's cursor and pending set as
/// they were, and two groups at the same cursor are handed the same entry.
pub proof fn lemma_fan_out(s: StreamView, g1: Seq<char>, g2: Seq<char>, id: EntryId)
    requires
        g1 != g2,
    ensures
        group_of(read_spec(s, g1).0, g2) == group_of(s, g2),
        group_of(ack_spec(s, g1, id), g2) == group_of(s, g2),
        read_spec(s, g1).0.entries == s.entries,
        (group_of(s, g1) matches Some(a) && group_of(s, g2) matches Some(b) && a.last_delivered == b.last_delivered)
            ==> read_spec(read_spec(s, g1).0, g2).1 == read_spec(s, g1).1,
{
    lemma_group_pos_from(s.groups, g1, 0);
    lemma_group_pos_from(s.groups, g2, 0);
    let r = read_spec(s, g1).0;
    let a = ack_spec(s, g1, id);
    lemma_group_pos_same_names(r.groups, s.groups, g2, 0);
    lemma_group_pos_same_names(a.groups, s.groups, g2, 0);
    lemma_read_pending(s, g1);
}

fn clone_texts(v: &Vec<String>) -> (r: Vec<String>)
    ensures
        texts(r@) == texts(v@),
{
    let mut out: Vec<String> = Vec::new();
    let mut i: usize = 0;
    while i < v.len()
        invariant
            i <= v.len(),
            out@.len() == i,
            forall|k: int| 0 <= k < i ==> (#[trigger] out@[k])@ == v@[k]@,
        decreases v.len() - i,
    {
        let c = v[i].clone();
        out.push(c);
        i = i + 1;
    }
    assert(texts(out@) =~= texts(v@));
    out
}

impl MemoryStream {
    pub open spec fn wf(&self) -> bool {
        ids_ordered(self@)
    }

    /// An empty topic that keeps at most `max_len` entries.
    pub fn new(max_len: usize) -> (r: MemoryStream)
        ensures
            r.wf(),
            r@.entries.len() == 0,
            r@.groups.len() == 0,
            r@.last_id == (EntryId { ms: 0, seq: 0 }),
            r@.max_len == max_len,
    {
        let r = MemoryStream {
            entries: Vec::new(),
            groups: Vec::new(),
            last_id: EntryId { ms: 0, seq: 0 },
            max_len,
        };
        assert(r@.entries =~= Seq::empty());
        assert(r@.groups =~= Seq::empty());
        r
    }

    /// Appends an entry at time `now`, keeping only the newest `max_len`
    /// entries. None, with nothing changed, when no identifier is left.
    pub fn append(&mut self, now: u64, fields: Vec<String>) -> (r: Option<EntryId>)
        requires
            old(self).wf(),
        ensures
            final(self).wf(),
            match append_spec(old(self)@, now, texts(fields@)) {
                Some((s, id)) => r == Some(id) && final(self)@ == s,
                None => r is None && final(self)@ == old(self)@,
            },
    {
        let ghost s0 = self@;
        match next_entry_id(self.last_id, now) {
            None => None,
            Some(id) => {
                let ghost fv = texts(fields@);
                self.entries.push(StreamEntry { id, fields });
                self.last_id = id;
                assert(self@.entries =~= s0.entries.push((id, fv)));
                if self.entries.len() > self.max_len {
                    let at = self.entries.len() - self.max_len;
                    let tail = self.entries.split_off(at);
                    self.entries = tail;
                }
                assert(self@.entries =~= trimmed(s0.entries.push((id, fv)), s0.max_len));
                assert(self@.groups =~= s0.groups);
                assert forall|i: int, j: int| 0 <= i < j < self@.entries.len() implies id_lt(
                    #[trigger] self@.entries[i].0,
                    #[trigger] self@.entries[j].0,
                ) by {
                    let es = s0.entries.push((id, fv));
                    let off = es.len() - self@.entries.len();
                    assert(self@.entries[i] == es[i + off]);
                    assert(self@.entries[j] == es[j + off]);
                    if j + off == s0.entries.len() {
                        assert(!id_lt(s0.last_id, es[i + off].0));
                    }
                };
                Some(id)
            },
        }
    }

    /// Creates the group `name` anchored after the newest entry, unless a
    /// group of that name exists.
    pub fn ensure_group(&mut self, name: String)
        requires
            old(self).wf(),
        ensures
            final(self).wf(),
            final(self)@ == ensure_group_spec(old(self)@, name@),
    {
        let ghost s0 = self@;
        match self.find_group(&name) {
            Some(_) => {},
            None => {
                let ghost n = name@;
                let pending: Vec<EntryId> = Vec::new();
                assert(pending@.to_set() =~= Set::empty());
                self.groups.push(ConsumerGroup { name, last_delivered: self.last_id, pending });
                assert(self@.groups =~= s0.groups.push((n, GroupView { last_delivered: s0.last_id, pending: Set::empty() })));
                assert(self@.entries =~= s0.entries);
            },
        }
    }

    fn first_after(&self, cur: EntryId) -> (r: Option<usize>)
        ensures
            match r {
                Some(k) => first_after_from(self@.entries, cur, 0) == Some(k as int) && k < self.entries.len(),
                None => first_after_from(self@.entries, cur, 0) is None,
            },
    {
        let mut i: usize = 0;
        while i < self.entries.len()
            invariant
                i <= self.entries.len(),
                first_after_from(self@.entries, cur, 0) == first_after_from(self@.entries, cur, i as int),
            decreases self.entries.len() - i,
        {
            if cur.precedes(&self.entries[i].id) {
                return Some(i);
            }
            i = i + 1;
        }
        None
    }

    /// Hands the next entry after the group's cursor to a consumer of the
    /// group: the cursor moves to it and it joins the pending set.
    pub fn read_group(&mut self, name: &String) -> (r: Option<(EntryId, Vec<String>)>)
        requires
            old(self).wf(),
        ensures
            final(self).wf(),
            final(self)@ == read_spec(old(self)@, name@).0,
            match read_spec(old(self)@, name@).1 {
                Some(e) => r is Some && (r->0).0 == e.0 && texts((r->0).1@) == e.1,
                None => r is None,
            },
    {
        let ghost s0 = self@;
        let g = match self.find_group(name) {
            Some(g) => g,
            None => return None,
        };
        let k = match self.first_after(self.groups[g].last_delivered) {
            Some(k) => k,
            None => return None,
        };
        let id = self.entries[k].id;
        let fields = clone_texts(&self.entries[k].fields);
        let mut grp = self.groups.remove(g);
        let ghost p0 = grp.pending@;
        grp.last_delivered = id;
        grp.pending.push(id);
        assert forall|x: EntryId| grp.pending@.to_set().contains(x) <==> p0.to_set().insert(id).contains(x) by {
            if p0.contains(x) {
                let w = choose|w: int| 0 <= w < p0.len() && p0[w] == x;
                assert(grp.pending@[w] == x);
            }
            if x == id {
                assert(grp.pending@[p0.len() as int] == x);
            }
            if grp.pending@.contains(x) && x != id {
                let w = choose|w: int| 0 <= w < grp.pending@.len() && grp.pending@[w] == x;
                assert(p0[w] == x);
            }
        };
        assert(grp.pending@.to_set() =~= p0.to_set().insert(id));
        let ghost gv = group_view(grp);
        self.groups.insert(g, grp);
        proof {
            lemma_group_pos_from(s0.groups, name@, 0);
        }
        assert(self@.groups =~= s0.groups.update(g as int, gv));
        assert(self@.groups =~= read_spec(s0, name@).0.groups);
        assert(self@.entries =~= s0.entries);
        Some((id, fields))
    }

    /// Acknowledges `id` in the group `name`: it leaves the pending set.
    /// Acknowledging an entry that is not pending changes nothing.
    pub fn ack(&mut self, name: &String, id: EntryId)
        requires
            old(self).wf(),
        ensures
            final(self).wf(),
            final(self)@ == ack_spec(old(self)@, name@, id),
    {
        let ghost s0 = self@;
        let g = match self.find_group(name) {
            Some(g) => g,
            None => return,
        };
        let mut grp = self.groups.remove(g);
        let ghost p0 = grp.pending@;
        let mut kept: Vec<EntryId> = Vec::new();
        let mut i: usize = 0;
        while i < grp.pending.len()
            invariant
                i <= grp.pending.len(),
                grp.pending@ == p0,
                forall|k: int| 0 <= k < kept@.len() ==> (#[trigger] kept@[k]) != id && p0.contains(kept@[k]),
                forall|k: int| 0 <= k < i && p0[k] != id ==> kept@.contains(#[trigger] p0[k]),
            decreases grp.pending.len() - i,
        {
            let x = grp.pending[i];
            let ghost k0 = kept@;
            if x != id {
                kept.push(x);
                assert(kept@[kept@.len() - 1] == x);
                assert(p0[i as int] == x);
            }
            assert forall|k: int| 0 <= k < i + 1 && p0[k] != id implies kept@.contains(#[trigger] p0[k]) by {
                if k < i {
                    assert(k0.contains(p0[k]));
                    let w = choose|w: int| 0 <= w < k0.len() && k0[w] == p0[k];
                    assert(kept@[w] == p0[k]);
                } else {
                    assert(kept@[kept@.len() - 1] == p0[k]);
                }
            };
            i = i + 1;
        }
        assert forall|x: EntryId| kept@.to_set().contains(x) <==> p0.to_set().remove(id).contains(x) by {
            if kept@.contains(x) {
                let w = choose|w: int| 0 <= w < kept@.len() && kept@[w] == x;
                assert(kept@[w] == x);
            }
            if p0.contains(x) && x != id {
                let w = choose|w: int| 0 <= w < p0.len() && p0[w] == x;
                assert(p0[w] == x);
            }
        };
        assert(kept@.to_set() =~= p0.to_set().remove(id));
        grp.pending = kept;
        let ghost gv = group_view(grp);
        self.groups.insert(g, grp);
        proof {
            lemma_group_pos_from(s0.groups, name@, 0);
        }
        assert(self@.groups =~= s0.groups.update(g as int, gv));
        assert(self@.groups =~= ack_spec(s0, name@, id).groups);
        assert(self@.entries =~= s0.entries);
    }

    fn find_group(&self, name: &String) -> (r: Option<usize>)
        ensures
            match r {
                Some(i) => group_pos(self@, name@) == Some(i as int) && i < self.groups.len(),
                None => group_pos(self@, name@) is None,
            },
    {
        let mut i: usize = 0;
        while i < self.groups.len()
            invariant
                i <= self.groups.len(),
                group_pos(self@, name@) == group_pos_from(self@.groups, name@, i as int),
            decreases self.groups.len() - i,
        {
            if self.groups[i].name == *name {
                return Some(i);
            }
            i = i + 1;
        }
        None
    }
}

} // verus!
