//! The subscription worker's decisions, as a state machine: the caller
//! performs each action against the transport or the handler and hands back
//! what came of it as the next event.
use vstd::prelude::*;

use crate::codec::{opt_view, texts, FromParams};
use crate::readmodel::{lemma_query_round_trip, Query, QueryView};
use crate::reply::{entry_fields, entry_fields_spec, entry_id, entry_id_spec, Reply};
use crate::codec::ToParams;
use crate::text::{contains_text, text_contains};
use crate::transport::{
    ack_spec, append_spec, first_after_from, group_of, group_pos, id_lt, ids_ordered, lemma_read_pending,
    read_spec, trimmed, EntryId, GroupView, StreamView,
};

verus! {

/// Where a worker stands. `I` is the transport's entry identifier.
#[derive(Debug, Clone)]
pub enum WorkerState<I> {
    /// The consumer group has not been ensured yet.
    Initializing,
    /// A blocking group read is outstanding; `failures` counts the reads
    /// that failed in the transport since the last delivery.
    Waiting { failures: u32 },
    /// The handler runs on a decoded message; `id` is the entry to
    /// acknowledge on success.
    Dispatching { id: Option<I> },
    /// An acknowledgement is outstanding.
    Acking,
}

/// What came of the last action.
#[derive(Debug)]
pub enum WorkerEvent<I> {
    /// The group exists, created now or before (other failures only logged).
    GroupReady,
    /// A group read delivered an entry: its identifier and field/value list,
    /// where the reply had them.
    Delivered { id: Option<I>, fields: Option<Vec<String>> },
    /// The group read failed in the transport.
    ReadFailed,
    /// The handler finished, successfully or not.
    Handled { ok: bool },
    /// The acknowledgement finished (its failure is only logged).
    Acked,
}

pub enum EventView<I> {
    GroupReady,
    Delivered(Option<I>, Option<Seq<Seq<char>>>),
    ReadFailed,
    Handled(bool),
    Acked,
}

impl<I> View for WorkerEvent<I> {
    type V = EventView<I>;

    open spec fn view(&self) -> EventView<I> {
        match self {
            WorkerEvent::GroupReady => EventView::GroupReady,
            WorkerEvent::Delivered { id, fields } => EventView::Delivered(
                *id,
                match fields {
                    Some(f) => Some(texts(f@)),
                    None => None,
                },
            ),
            WorkerEvent::ReadFailed => EventView::ReadFailed,
            WorkerEvent::Handled { ok } => EventView::Handled(*ok),
            WorkerEvent::Acked => EventView::Acked,
        }
    }
}

/// What the worker asks for next.
#[derive(Debug)]
pub enum WorkerAction<M, I> {
    /// Create the consumer group at "new entries only", if absent.
    EnsureGroup,
    /// After `delay_ms` milliseconds, issue a blocking group read of one
    /// entry under a fresh consumer name.
    Read { delay_ms: u64 },
    /// Run the handler on the message.
    Dispatch(M),
    /// Acknowledge the entry in the group.
    Ack(I),
}

pub enum ActionView<V, I> {
    EnsureGroup,
    Read(u64),
    Dispatch(V),
    Ack(I),
}

impl<M: View, I> View for WorkerAction<M, I> {
    type V = ActionView<M::V, I>;

    open spec fn view(&self) -> ActionView<M::V, I> {
        match self {
            WorkerAction::EnsureGroup => ActionView::EnsureGroup,
            WorkerAction::Read { delay_ms } => ActionView::Read(*delay_ms),
            WorkerAction::Dispatch(m) => ActionView::Dispatch(m@),
            WorkerAction::Ack(i) => ActionView::Ack(*i),
        }
    }
}

/// The events that can answer the action taken in state `s`.
pub open spec fn accepts_spec<I>(s: WorkerState<I>, e: EventView<I>) -> bool {
    match s {
        WorkerState::Initializing => e is GroupReady,
        WorkerState::Waiting { .. } => e is Delivered || e is ReadFailed,
        WorkerState::Dispatching { .. } => e is Handled,
        WorkerState::Acking => e is Acked,
    }
}

/// The wait before retrying a read after consecutive transport failures:
/// `base_ms` after the first, doubling after each further one, never more
/// than `max_ms`. A zero base retries at once.
#[derive(Debug, Clone, Copy)]
pub struct Backoff {
    pub base_ms: u64,
    pub max_ms: u64,
}

/// The wait after `failures` consecutive read failures.
pub open spec fn delay_spec(b: Backoff, failures: nat) -> u64
    decreases failures,
{
    if failures == 0 {
        0
    } else if failures == 1 {
        if b.base_ms < b.max_ms {
            b.base_ms
        } else {
            b.max_ms
        }
    } else {
        let d = delay_spec(b, (failures - 1) as nat);
        if d as int * 2 >= b.max_ms as int {
            b.max_ms
        } else {
            (d * 2) as u64
        }
    }
}

proof fn lemma_delay_settled(b: Backoff, k: nat, n: nat)
    requires
        1 <= k <= n,
        delay_spec(b, k + 1) == delay_spec(b, k),
    ensures
        delay_spec(b, n) == delay_spec(b, k),
    decreases n - k,
{
    if n > k {
        lemma_delay_settled(b, k, (n - 1) as nat);
    }
}

impl Backoff {
    /// Retry at once, however many reads failed.
    pub fn immediate() -> (r: Backoff)
        ensures
            r.base_ms == 0,
            r.max_ms == 0,
    {
        Backoff { base_ms: 0, max_ms: 0 }
    }

    /// The wait after `failures` consecutive read failures.
    pub fn delay_ms(&self, failures: u32) -> (r: u64)
        ensures
            r == delay_spec(*self, failures as nat),
    {
        if failures == 0 {
            return 0;
        }
        let mut d: u64 = if self.base_ms < self.max_ms {
            self.base_ms
        } else {
            self.max_ms
        };
        let mut k: u32 = 1;
        while k < failures
            invariant
                1 <= k <= failures,
                d == delay_spec(*self, k as nat),
                d <= self.max_ms,
            decreases failures - k,
        {
            let next: u64 = if d >= self.max_ms - d {
                self.max_ms
            } else {
                2 * d
            };
            assert(next == delay_spec(*self, (k + 1) as nat));
            if next == d {
                proof {
                    lemma_delay_settled(*self, k as nat, failures as nat);
                }
                return d;
            }
            d = next;
            k = k + 1;
        }
        d
    }
}

/// One decision of the worker. A delivered entry is decoded and dispatched;
/// one that does not decode is left pending and the next read is issued. A
/// handler success is acknowledged; a handler failure is not, and the next
/// read is issued. A read that fails in the transport is retried after the
/// backoff `b` for the failures so far; acknowledgement failures lead to the
/// next read.
pub open spec fn step_spec<M: FromParams, I>(b: Backoff, s: WorkerState<I>, e: EventView<I>) -> (WorkerState<I>, ActionView<M::V, I>) {
    match e {
        EventView::Delivered(id, fields) => match fields {
            Some(p) => match M::from_params_spec(p) {
                Some(m) => (WorkerState::Dispatching { id }, ActionView::Dispatch(m)),
                None => (WorkerState::Waiting { failures: 0 }, ActionView::Read(0)),
            },
            None => (WorkerState::Waiting { failures: 0 }, ActionView::Read(0)),
        },
        EventView::ReadFailed => {
            let f = match s {
                WorkerState::Waiting { failures } => if failures < u32::MAX {
                    (failures + 1) as u32
                } else {
                    failures
                },
                _ => 1,
            };
            (WorkerState::Waiting { failures: f }, ActionView::Read(delay_spec(b, f as nat)))
        },
        EventView::Handled(ok) => match s {
            WorkerState::Dispatching { id: Some(i) } => if ok {
                (WorkerState::Acking, ActionView::Ack(i))
            } else {
                (WorkerState::Waiting { failures: 0 }, ActionView::Read(0))
            },
            _ => (WorkerState::Waiting { failures: 0 }, ActionView::Read(0)),
        },
        _ => (WorkerState::Waiting { failures: 0 }, ActionView::Read(0)),
    }
}

pub open spec fn fields_view(f: Option<Vec<String>>) -> Option<Seq<Seq<char>>> {
    match f {
        Some(v) => Some(texts(v@)),
        None => None,
    }
}

/// The first decision of a worker: ensure its consumer group.
pub fn start<M, I>() -> (r: (WorkerState<I>, WorkerAction<M, I>))
    ensures
        r.0 is Initializing,
        r.1 is EnsureGroup,
{
    (WorkerState::Initializing, WorkerAction::EnsureGroup)
}

/// Whether `e` answers the action taken in state `s`.
pub fn accepts<I>(s: &WorkerState<I>, e: &WorkerEvent<I>) -> (r: bool)
    ensures
        r == accepts_spec(*s, e@),
{
    match s {
        WorkerState::Initializing => matches!(e, WorkerEvent::GroupReady),
        WorkerState::Waiting { .. } => matches!(e, WorkerEvent::Delivered { .. }) || matches!(e, WorkerEvent::ReadFailed),
        WorkerState::Dispatching { .. } => matches!(e, WorkerEvent::Handled { .. }),
        WorkerState::Acking => matches!(e, WorkerEvent::Acked),
    }
}

/// The next state and action after event `e` in state `s`, retrying failed
/// reads after the backoff `b`.
pub fn step<M: FromParams, I>(b: &Backoff, s: WorkerState<I>, e: WorkerEvent<I>) -> (r: (WorkerState<I>, WorkerAction<M, I>))
    requires
        accepts_spec(s, e@),
    ensures
        (r.0, r.1@) == step_spec::<M, I>(*b, s, e@),
{
    match e {
        WorkerEvent::Delivered { id, fields } => match fields {
            Some(p) => match M::from_params(p) {
                Ok(m) => (WorkerState::Dispatching { id }, WorkerAction::Dispatch(m)),
                Err(_) => (WorkerState::Waiting { failures: 0 }, WorkerAction::Read { delay_ms: 0 }),
            },
            None => (WorkerState::Waiting { failures: 0 }, WorkerAction::Read { delay_ms: 0 }),
        },
        WorkerEvent::ReadFailed => {
            let f: u32 = match s {
                WorkerState::Waiting { failures } => if failures < u32::MAX {
                    failures + 1
                } else {
                    failures
                },
                _ => 1,
            };
            (WorkerState::Waiting { failures: f }, WorkerAction::Read { delay_ms: b.delay_ms(f) })
        },
        WorkerEvent::Handled { ok } => match s {
            WorkerState::Dispatching { id: Some(i) } => if ok {
                (WorkerState::Acking, WorkerAction::Ack(i))
            } else {
                (WorkerState::Waiting { failures: 0 }, WorkerAction::Read { delay_ms: 0 })
            },
            _ => (WorkerState::Waiting { failures: 0 }, WorkerAction::Read { delay_ms: 0 }),
        },
        _ => (WorkerState::Waiting { failures: 0 }, WorkerAction::Read { delay_ms: 0 }),
    }
}

pub open spec fn group_exists_text() -> Seq<char> {
    seq![
        'C', 'o', 'n', 's', 'u', 'm', 'e', 'r', ' ', 'G', 'r', 'o', 'u', 'p', ' ', 'n', 'a', 'm', 'e', ' ',
        'a', 'l', 'r', 'e', 'a', 'd', 'y', ' ', 'e', 'x', 'i', 's', 't', 's',
    ]
}

/// Whether a failed group creation only reports that the group exists,
/// which counts as success.
pub fn is_group_exists(message: &str) -> (r: bool)
    ensures
        r == contains_text(message@, group_exists_text()),
{
    proof {
        reveal_strlit("Consumer Group name already exists");
    }
    assert("Consumer Group name already exists"@ =~= group_exists_text());
    text_contains(message, "Consumer Group name already exists")
}

/// The event that a group read's reply makes: the delivered entry's
/// identifier and field/value list, where the reply has them.
pub fn delivered(reply: &Reply) -> (r: WorkerEvent<String>)
    ensures
        r matches WorkerEvent::Delivered { id, fields } && opt_view(id) == entry_id_spec(*reply)
            && fields_view(fields) == entry_fields_spec(*reply),
{
    WorkerEvent::Delivered { id: entry_id(reply), fields: entry_fields(reply) }
}

/// A handler failure is never acknowledged: the worker issues the next read
/// and the entry it was handling stays in the group's pending set.
pub proof fn lemma_pending_on_failure<M: FromParams>(b: Backoff, s: StreamView, group: Seq<char>)
    ensures
        read_spec(s, group).1 matches Some(e) ==> ({
            let s1 = read_spec(s, group).0;
            &&& group_of(s1, group) matches Some(g) && g.pending.contains(e.0)
            &&& step_spec::<M, EntryId>(b, WorkerState::Dispatching { id: Some(e.0) }, EventView::Handled(false))
                == (WorkerState::<EntryId>::Waiting { failures: 0 }, ActionView::<M::V, EntryId>::Read(0))
        }),
{
    lemma_read_pending(s, group);
}

proof fn lemma_first_after_last(es: Seq<(EntryId, Seq<Seq<char>>)>, cur: EntryId, i: int)
    requires
        0 <= i < es.len(),
        id_lt(cur, es.last().0),
        forall|k: int| i <= k < es.len() - 1 ==> !id_lt(cur, #[trigger] es[k].0),
    ensures
        first_after_from(es, cur, i) == Some(es.len() - 1),
    decreases es.len() - i,
{
    if i < es.len() - 1 {
        lemma_first_after_last(es, cur, i + 1);
    }
}

/// Publishing a filter on a topic whose group has been handed every earlier
/// entry, then running that group's worker: the read hands out the new
/// entry, the handler is dispatched once with the decoded filter, and on
/// success exactly that entry is acknowledged, so it joins and then leaves
/// the group's pending set.
pub proof fn lemma_delivery_on_success(b: Backoff, failures: u32, s: StreamView, now: u64, group: Seq<char>, q: QueryView)
    requires
        ids_ordered(s),
        s.max_len >= 1,
        group_of(s, group) matches Some(g) && g.last_delivered == s.last_id,
        append_spec(s, now, Query::params_spec(q)) is Some,
    ensures
        ({
            let (s1, id) = append_spec(s, now, Query::params_spec(q))->0;
            let (s2, d) = read_spec(s1, group);
            let (w1, a1) = step_spec::<Query, EntryId>(
                b,
                WorkerState::Waiting { failures },
                EventView::Delivered(Some(id), Some(Query::params_spec(q))),
            );
            let (w2, a2) = step_spec::<Query, EntryId>(b, w1, EventView::Handled(true));
            let s3 = ack_spec(s2, group, id);
            &&& d == Some((id, Query::params_spec(q)))
            &&& a1 == ActionView::<QueryView, EntryId>::Dispatch(q)
            &&& a2 == ActionView::<QueryView, EntryId>::Ack(id)
            &&& w2 is Acking
            &&& group_of(s3, group) matches Some(g3) && g3.pending == group_of(s, group)->0.pending.insert(id).remove(id)
        }),
{
    let p = Query::params_spec(q);
    let (s1, id) = append_spec(s, now, p)->0;
    lemma_query_round_trip(q);
    let es = s.entries.push((id, p));
    let t = trimmed(es, s.max_len);
    assert(t.last() == (id, p));
    assert(id_lt(s.last_id, id));
    assert forall|k: int| 0 <= k < t.len() - 1 implies !id_lt(s.last_id, #[trigger] t[k].0) by {
        let off = es.len() - t.len();
        assert(t[k] == es[k + off]);
        assert(es[k + off] == s.entries[k + off]);
    };
    assert(s1.groups == s.groups);
    let gi = group_pos(s, group)->0;
    crate::transport::lemma_group_pos_from(s.groups, group, 0);
    lemma_first_after_last(t, s.last_id, 0);
    lemma_read_pending(s1, group);
    let s2 = read_spec(s1, group).0;
    assert(first_after_from(s1.entries, s1.groups[gi].1.last_delivered, 0) == Some(t.len() - 1));
    let s3 = ack_spec(s2, group, id);
    crate::transport::lemma_group_pos_same_names(s2.groups, s1.groups, group, 0);
    crate::transport::lemma_group_pos_same_names(s3.groups, s2.groups, group, 0);
}

} // verus!
