use broker::broker::publish;
use broker::codec::{FromParams, ToParams};
use broker::error::{DbErrorKind, ModelError, StoreFailure, UtilError};
use broker::readmodel::{Query, ReadModelTable, UserReadModel};
use broker::transport::MemoryStream;
use broker::worker::{step, Backoff, WorkerAction, WorkerEvent, WorkerState};

fn view_row(id: &str, name: Option<&str>, permissions: Option<&str>) -> UserReadModel {
    UserReadModel {
        id: id.to_string(),
        external_id: None,
        display_name: name.map(|s| s.to_string()),
        email: None,
        permissions: permissions.map(|s| s.to_string()),
    }
}

fn by_id(id: &str) -> Query {
    Query {
        id: Some(id.to_string()),
        display_name: None,
        email: None,
    }
}

fn same(a: &UserReadModel, b: &UserReadModel) -> bool {
    a.id == b.id
        && a.external_id == b.external_id
        && a.display_name == b.display_name
        && a.email == b.email
        && a.permissions == b.permissions
}

#[test]
fn materialize_user_read_model() {
    let mut table = ReadModelTable::new();
    let user = view_row("0b9c5b52-aaaa-4f4f-9d1e-0123456789ab", Some("Test User"), Some("[]"));
    let query = by_id(&user.id);
    UserReadModel::materialize(&query, &vec![user.copy()], &mut table).unwrap();
    assert!(same(table.get(&user.id).unwrap(), &user));

    let with_perm = view_row(
        &user.id,
        Some("Test User"),
        Some("[{\"target\":\"User\",\"create_record\":true}]"),
    );
    UserReadModel::materialize(&query, &vec![with_perm.copy()], &mut table).unwrap();
    assert_eq!(table.rows.len(), 1);
    assert!(same(table.get(&user.id).unwrap(), &with_perm));
}

#[test]
fn materialize_twice_is_idempotent() {
    let source = vec![
        view_row("x", Some("Other"), None),
        view_row("abc", Some("A"), Some("[{\"create_record\":true}]")),
    ];
    let mut table = ReadModelTable::new();
    table.upsert(view_row("x", Some("Other"), None));
    UserReadModel::materialize(&by_id("abc"), &source, &mut table).unwrap();
    let once: Vec<UserReadModel> = table.rows.iter().map(|r| r.copy()).collect();
    UserReadModel::materialize(&by_id("abc"), &source, &mut table).unwrap();
    assert_eq!(table.rows.len(), once.len());
    for (a, b) in table.rows.iter().zip(once.iter()) {
        assert!(same(a, b));
    }
}

#[test]
fn materialize_without_match_writes_nothing() {
    let mut table = ReadModelTable::new();
    table.upsert(view_row("x", None, None));
    let r = UserReadModel::materialize(&by_id("missing"), &vec![view_row("x", None, None)], &mut table);
    assert!(matches!(r, Err(UtilError::RowCantMaterialize)));
    assert_eq!(table.rows.len(), 1);
    let r = UserReadModel::materialize(&by_id("abc"), &vec![], &mut table);
    assert!(matches!(r, Err(UtilError::RowCantMaterialize)));
    assert_eq!(table.rows.len(), 1);
}

#[test]
fn filter_matches_every_set_field() {
    let row = view_row("abc", Some("Test User"), None);
    assert!(Query::default().matches(&row));
    assert!(by_id("abc").matches(&row));
    assert!(!by_id("abd").matches(&row));
    let q = Query {
        id: None,
        display_name: Some("Test User".to_string()),
        email: Some("someone@somewhere.com".to_string()),
    };
    assert!(!q.matches(&row));
}

#[test]
fn select_takes_first_match() {
    let source = vec![
        view_row("a", Some("n"), Some("1")),
        view_row("b", Some("n"), Some("2")),
    ];
    let q = Query {
        id: None,
        display_name: Some("n".to_string()),
        email: None,
    };
    let r = UserReadModel::select(&q, &source).unwrap();
    assert_eq!(r.id, "a");
}

#[test]
fn publish_process_scenario() {
    let mut stream = MemoryStream::new(1000);
    let group = "MaterializeUserReadModel".to_string();
    stream.ensure_group(group.clone());
    let source = vec![view_row(
        "abc",
        Some("Test User"),
        Some("[{\"target\":\"User\",\"create_record\":true}]"),
    )];
    let mut table = ReadModelTable::new();
    let mut snapshots = vec![];
    for round in 0..2u64 {
        let id = publish(&mut stream, 100 + round, &by_id("abc")).unwrap();
        let (got, fields) = stream.read_group(&group).unwrap();
        assert_eq!(got, id);
        let (state, action) = step::<Query, _>(
            &Backoff::immediate(),
            WorkerState::Waiting { failures: 0 },
            WorkerEvent::Delivered {
                id: Some(got),
                fields: Some(fields),
            },
        );
        let filter = match action {
            WorkerAction::Dispatch(q) => q,
            _ => panic!("expected a dispatch"),
        };
        assert_eq!(filter.id, Some("abc".to_string()));
        let ok = UserReadModel::materialize(&filter, &source, &mut table).is_ok();
        let (_, action) = step::<Query, _>(&Backoff::immediate(), state, WorkerEvent::Handled { ok });
        match action {
            WorkerAction::Ack(a) => stream.ack(&group, a),
            _ => panic!("expected an acknowledgement"),
        }
        let row = table.get(&"abc".to_string()).unwrap();
        assert_eq!(row.permissions.as_deref(), Some("[{\"target\":\"User\",\"create_record\":true}]"));
        snapshots.push(row.copy());
    }
    assert_eq!(table.rows.len(), 1);
    assert!(same(&snapshots[0], &snapshots[1]));
    assert!(stream.groups[0].pending.is_empty());
}

#[test]
fn store_failures_map_to_errors() {
    let dup = StoreFailure::Database {
        kind: DbErrorKind::UniqueViolation,
        message: "duplicate key".to_string(),
        debug: "Database(..)".to_string(),
    };
    assert!(matches!(UtilError::from(dup), UtilError::SqlDuplicateRecord(m) if m == "duplicate key"));
    let fk = StoreFailure::Database {
        kind: DbErrorKind::ForeignKeyViolation,
        message: "fk".to_string(),
        debug: "d".to_string(),
    };
    assert!(matches!(UtilError::from(fk), UtilError::SqlRelationMissing(m) if m == "fk"));
    let nn = StoreFailure::Database {
        kind: DbErrorKind::NotNullViolation,
        message: "nn".to_string(),
        debug: "d".to_string(),
    };
    assert!(matches!(UtilError::from(nn), UtilError::SqlNotNullViolation(m) if m == "nn"));
    let ck = StoreFailure::Database {
        kind: DbErrorKind::CheckViolation,
        message: "ck".to_string(),
        debug: "d".to_string(),
    };
    assert!(matches!(UtilError::from(ck), UtilError::SqlCheckFailed(m) if m == "ck"));
    let other = StoreFailure::Database {
        kind: DbErrorKind::Other,
        message: "m".to_string(),
        debug: "full".to_string(),
    };
    assert!(matches!(UtilError::from(other), UtilError::SqlError(m) if m == "full"));
    assert!(matches!(UtilError::from(StoreFailure::RowNotFound), UtilError::SqlFailedToFindRecord));
    assert!(matches!(
        UtilError::from(StoreFailure::TypeNotFound { name: "t".to_string() }),
        UtilError::SqlFailedToFindType(m) if m == "t"
    ));
    assert!(matches!(
        UtilError::from(StoreFailure::ColumnNotFound("c".to_string())),
        UtilError::SqlFailedToFindColumn(m) if m == "c"
    ));
    assert!(matches!(
        UtilError::from(StoreFailure::Other { debug: "io".to_string() }),
        UtilError::SqlError(m) if m == "io"
    ));
    assert!(matches!(
        ModelError::from(UtilError::RowCantMaterialize),
        ModelError::Util(UtilError::RowCantMaterialize)
    ));
}

#[test]
fn query_params_survive_the_stream() {
    let mut stream = MemoryStream::new(5);
    stream.ensure_group("g".to_string());
    let q = Query {
        id: Some("abc".to_string()),
        display_name: Some("Test User".to_string()),
        email: None,
    };
    publish(&mut stream, 1, &q).unwrap();
    let (_, fields) = stream.read_group(&"g".to_string()).unwrap();
    assert_eq!(fields, q.to_params());
    let back = Query::from_params(fields).unwrap();
    assert_eq!(back.display_name, q.display_name);
}
