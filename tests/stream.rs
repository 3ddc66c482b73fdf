use broker::broker::{publish, select_subscribers, RedisStream};
use broker::codec::ToParams;
use broker::readmodel::{Query, UserReadModel};
use broker::subscriber::{subscribers, Subscriber, TestMessage, TestSubscriber};
use broker::transport::{EntryId, MemoryStream};
use broker::worker::{accepts, start, step, Backoff, WorkerAction, WorkerEvent, WorkerState};

fn group(name: &str) -> String {
    name.to_string()
}

fn filter(id: &str) -> Query {
    Query {
        id: Some(id.to_string()),
        display_name: None,
        email: None,
    }
}

#[test]
fn ids_grow_with_time_and_sequence() {
    let mut s = MemoryStream::new(10);
    let a = publish(&mut s, 5, &filter("a")).unwrap();
    let b = publish(&mut s, 5, &filter("b")).unwrap();
    let c = publish(&mut s, 3, &filter("c")).unwrap();
    let d = publish(&mut s, 9, &filter("d")).unwrap();
    assert_eq!(a, EntryId { ms: 5, seq: 0 });
    assert_eq!(b, EntryId { ms: 5, seq: 1 });
    assert_eq!(c, EntryId { ms: 5, seq: 2 });
    assert_eq!(d, EntryId { ms: 9, seq: 0 });
}

#[test]
fn id_space_exhausted() {
    let mut s = MemoryStream::new(10);
    s.last_id = EntryId { ms: 7, seq: u64::MAX };
    assert_eq!(publish(&mut s, 7, &filter("a")), None);
    assert!(s.entries.is_empty());
}

#[test]
fn trimming_keeps_newest() {
    let mut s = MemoryStream::new(2);
    for i in 0..5u64 {
        publish(&mut s, i + 1, &filter("x")).unwrap();
    }
    assert_eq!(s.entries.len(), 2);
    assert_eq!(s.entries[0].id, EntryId { ms: 4, seq: 0 });
    assert_eq!(s.entries[1].id, EntryId { ms: 5, seq: 0 });
}

#[test]
fn group_starts_after_existing_entries() {
    let mut s = MemoryStream::new(10);
    publish(&mut s, 1, &filter("old")).unwrap();
    s.ensure_group(group("g"));
    assert!(s.read_group(&group("g")).is_none());
    let id = publish(&mut s, 2, &filter("new")).unwrap();
    let (got, fields) = s.read_group(&group("g")).unwrap();
    assert_eq!(got, id);
    assert_eq!(fields, filter("new").to_params());
    s.ensure_group(group("g"));
    assert!(s.read_group(&group("g")).is_none());
}

#[test]
fn read_on_missing_group_gives_nothing() {
    let mut s = MemoryStream::new(10);
    publish(&mut s, 1, &filter("a")).unwrap();
    assert!(s.read_group(&group("nope")).is_none());
}

fn run_worker(s: &mut MemoryStream, g: &String, handler_ok: bool) -> (Vec<Query>, Vec<EntryId>) {
    let mut dispatched = vec![];
    let mut acked = vec![];
    let (mut state, mut action) = start::<Query, EntryId>();
    s.ensure_group(g.clone());
    let mut event = WorkerEvent::GroupReady;
    loop {
        assert!(accepts(&state, &event));
        let (next, act) = step::<Query, EntryId>(&Backoff::immediate(), state, event);
        state = next;
        action = act;
        event = match action {
            WorkerAction::EnsureGroup => unreachable!(),
            WorkerAction::Read { .. } => match s.read_group(g) {
                Some((id, fields)) => WorkerEvent::Delivered {
                    id: Some(id),
                    fields: Some(fields),
                },
                None => break,
            },
            WorkerAction::Dispatch(m) => {
                dispatched.push(m);
                WorkerEvent::Handled { ok: handler_ok }
            }
            WorkerAction::Ack(id) => {
                s.ack(g, id);
                acked.push(id);
                WorkerEvent::Acked
            }
        };
    }
    (dispatched, acked)
}

fn pending(s: &MemoryStream, g: &str) -> Vec<EntryId> {
    s.groups
        .iter()
        .find(|x| x.name == g)
        .map(|x| x.pending.clone())
        .unwrap_or_default()
}

#[test]
fn delivery_on_handler_success() {
    let mut s = MemoryStream::new(1000);
    let g = group("MaterializeUserReadModel");
    s.ensure_group(g.clone());
    let id = publish(&mut s, 10, &filter("abc")).unwrap();
    let (dispatched, acked) = run_worker(&mut s, &g, true);
    assert_eq!(dispatched.len(), 1);
    assert_eq!(dispatched[0].id, Some("abc".to_string()));
    assert_eq!(acked, vec![id]);
    assert!(pending(&s, "MaterializeUserReadModel").is_empty());
}

#[test]
fn pending_on_handler_failure() {
    let mut s = MemoryStream::new(1000);
    let g = group("MaterializeUserReadModel");
    s.ensure_group(g.clone());
    let id = publish(&mut s, 10, &filter("abc")).unwrap();
    let (dispatched, acked) = run_worker(&mut s, &g, false);
    assert_eq!(dispatched.len(), 1);
    assert!(acked.is_empty());
    assert_eq!(pending(&s, "MaterializeUserReadModel"), vec![id]);
}

#[test]
fn undecodable_entry_stays_pending() {
    let mut s = MemoryStream::new(1000);
    let g = group("g");
    s.ensure_group(g.clone());
    let id = publish(&mut s, 10, &TestMessage { attr1: "x".to_string() }).unwrap();
    let (dispatched, acked) = run_worker(&mut s, &g, true);
    assert!(dispatched.is_empty());
    assert!(acked.is_empty());
    assert_eq!(pending(&s, "g"), vec![id]);
}

#[test]
fn fan_out_groups_are_independent() {
    let mut s = MemoryStream::new(1000);
    s.ensure_group(group("a"));
    s.ensure_group(group("b"));
    let id = publish(&mut s, 1, &filter("abc")).unwrap();
    let (ia, fa) = s.read_group(&group("a")).unwrap();
    let (ib, fb) = s.read_group(&group("b")).unwrap();
    assert_eq!((ia, ib), (id, id));
    assert_eq!(fa, fb);
    s.ack(&group("a"), id);
    assert!(pending(&s, "a").is_empty());
    assert_eq!(pending(&s, "b"), vec![id]);
    s.ack(&group("a"), id);
    assert!(pending(&s, "a").is_empty());
}

#[test]
fn worker_ignores_read_failures() {
    let now = Backoff::immediate();
    let (state, action) = step::<Query, String>(&now, WorkerState::Waiting { failures: 0 }, WorkerEvent::ReadFailed);
    assert!(matches!(state, WorkerState::Waiting { failures: 1 }));
    assert!(matches!(action, WorkerAction::Read { delay_ms: 0 }));
    let (state, action) = step::<Query, String>(&now, WorkerState::Acking, WorkerEvent::Acked);
    assert!(matches!(state, WorkerState::Waiting { failures: 0 }));
    assert!(matches!(action, WorkerAction::Read { delay_ms: 0 }));
    assert!(!accepts(&WorkerState::<String>::Acking, &WorkerEvent::ReadFailed));
}

#[test]
fn watch_list_selects_subscribers() {
    let all = vec![UserReadModel::default()];
    let picked = select_subscribers(&Some("Other,MaterializeUserReadModel".to_string()), all);
    assert_eq!(picked.len(), 1);
    assert_eq!(picked[0].topic(), "MaterializeUserReadModel");
    let none = select_subscribers(&None, vec![UserReadModel::default()]);
    assert!(none.is_empty());
    let empty = select_subscribers(&Some(String::new()), subscribers());
    assert!(empty.is_empty());
    let test: Vec<TestSubscriber> = select_subscribers(&Some("TestStream".to_string()), subscribers());
    assert_eq!(test.len(), 1);
    assert_eq!(test[0].group_name(), "TestGroup");
}

#[test]
fn publish_command_arguments() {
    let b = RedisStream::new(true, &None).unwrap();
    assert_eq!(b.max_len, 1000);
    let args = b.publish_command(&"TestStream".to_string(), &TestMessage { attr1: "v".to_string() });
    assert_eq!(args, vec!["TestStream", "MAXLEN", "~", "1000", "*", "attr1", "\"v\""]);
    let b = RedisStream::new(true, &Some("250".to_string())).unwrap();
    assert_eq!(b.max_len, 250);
    let b = RedisStream::new(true, &Some("many".to_string())).unwrap();
    assert_eq!(b.max_len, 1000);
    assert!(RedisStream::new(false, &None).is_err());
}

#[test]
fn backoff_doubles_up_to_the_cap() {
    let b = Backoff { base_ms: 100, max_ms: 1000 };
    let delays: Vec<u64> = (0..7).map(|f| b.delay_ms(f)).collect();
    assert_eq!(delays, vec![0, 100, 200, 400, 800, 1000, 1000]);
    assert_eq!(b.delay_ms(u32::MAX), 1000);
    assert_eq!(Backoff::immediate().delay_ms(1_000_000), 0);
    assert_eq!(Backoff { base_ms: 5000, max_ms: 1000 }.delay_ms(1), 1000);
    assert_eq!(Backoff { base_ms: 0, max_ms: 1000 }.delay_ms(9), 0);
}

#[test]
fn read_failures_back_off_and_reset() {
    let b = Backoff { base_ms: 10, max_ms: 35 };
    let mut state = WorkerState::<EntryId>::Waiting { failures: 0 };
    let mut delays = vec![];
    for _ in 0..4 {
        let (next, action) = step::<Query, EntryId>(&b, state, WorkerEvent::ReadFailed);
        state = next;
        match action {
            WorkerAction::Read { delay_ms } => delays.push(delay_ms),
            _ => panic!("expected a read"),
        }
    }
    assert_eq!(delays, vec![10, 20, 35, 35]);
    let (state, action) = step::<Query, EntryId>(
        &b,
        state,
        WorkerEvent::Delivered { id: Some(EntryId { ms: 1, seq: 0 }), fields: None },
    );
    assert!(matches!(state, WorkerState::Waiting { failures: 0 }));
    assert!(matches!(action, WorkerAction::Read { delay_ms: 0 }));
}
