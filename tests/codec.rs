use broker::codec::{FromParams, ToParams};
use broker::error::UtilError;
use broker::readmodel::{subscribers, Query, UserReadModel};
use broker::reply::{entry_fields, entry_id, parse_message, Reply};
use broker::subscriber::{Subscriber, TestMessage};

fn strings(v: &[&str]) -> Vec<String> {
    v.iter().map(|s| s.to_string()).collect()
}

#[test]
fn builds_redis_param_vec() {
    let query = TestMessage {
        attr1: "some string".to_string(),
    };
    let query_vec = query.to_params();
    let back = TestMessage::from_params(query_vec).unwrap();
    assert_eq!(back.attr1, query.attr1);
}

#[test]
fn test_message_encodes_json_value() {
    let m = TestMessage {
        attr1: "a \"quoted\"\nline".to_string(),
    };
    assert_eq!(
        m.to_params(),
        strings(&["attr1", "\"a \\\"quoted\\\"\\nline\""])
    );
}

#[test]
fn control_characters_round_trip() {
    let m = TestMessage {
        attr1: "tab\there\u{1}end\\".to_string(),
    };
    let p = m.to_params();
    assert_eq!(p[1], "\"tab\\there\\u0001end\\\\\"");
    assert_eq!(TestMessage::from_params(p).unwrap().attr1, m.attr1);
}

#[test]
fn query_round_trip() {
    let q = Query {
        id: Some("abc".to_string()),
        display_name: None,
        email: Some("someone@somewhere.com".to_string()),
    };
    let p = q.to_params();
    assert_eq!(
        p,
        strings(&[
            "id",
            "\"abc\"",
            "display_name",
            "null",
            "email",
            "\"someone@somewhere.com\""
        ])
    );
    let back = Query::from_params(p).unwrap();
    assert_eq!(back.id, q.id);
    assert_eq!(back.display_name, q.display_name);
    assert_eq!(back.email, q.email);
}

#[test]
fn decode_looks_up_by_name() {
    let p = strings(&["email", "null", "id", "\"abc\"", "display_name", "\"Test User\""]);
    let q = Query::from_params(p).unwrap();
    assert_eq!(q.id, Some("abc".to_string()));
    assert_eq!(q.display_name, Some("Test User".to_string()));
    assert_eq!(q.email, None);
}

#[test]
fn decode_rejects_odd_length() {
    let p = strings(&["attr1", "\"x\"", "extra"]);
    assert!(matches!(TestMessage::from_params(p), Err(UtilError::MalformedParams)));
}

#[test]
fn decode_rejects_unknown_field() {
    let p = strings(&["attr1", "\"x\"", "attr2", "\"y\""]);
    assert!(matches!(TestMessage::from_params(p), Err(UtilError::MalformedParams)));
}

#[test]
fn decode_rejects_missing_field() {
    let p = strings(&["id", "null", "email", "null"]);
    assert!(matches!(Query::from_params(p), Err(UtilError::MalformedParams)));
}

#[test]
fn decode_rejects_non_json_value() {
    let p = strings(&["attr1", "x"]);
    assert!(matches!(TestMessage::from_params(p), Err(UtilError::MalformedParams)));
    let p = strings(&["attr1", "\"\\u0041\""]);
    assert!(matches!(TestMessage::from_params(p), Err(UtilError::MalformedParams)));
}

fn bulk(s: &str) -> Reply {
    Reply::Bulk(s.as_bytes().to_vec())
}

fn read_reply(id: &str, fields: Vec<Reply>) -> Reply {
    Reply::List(vec![Reply::List(vec![
        bulk("TestStream"),
        Reply::List(vec![Reply::List(vec![bulk(id), Reply::List(fields)])]),
    ])])
}

#[test]
fn reply_yields_entry() {
    let reply = read_reply(
        "1700000000000-0",
        vec![bulk("attr1"), Reply::Bulk(vec![0xff, 0xfe]), bulk("\"v\"")],
    );
    assert_eq!(entry_id(&reply), Some("1700000000000-0".to_string()));
    assert_eq!(entry_fields(&reply), Some(strings(&["attr1", "\"v\""])));
    let m: TestMessage = parse_message(&reply).unwrap();
    assert_eq!(m.attr1, "v");
}

#[test]
fn reply_without_entry_is_refused() {
    let reply = Reply::List(vec![]);
    assert_eq!(entry_id(&reply), None);
    let r: Result<TestMessage, UtilError> = parse_message(&reply);
    assert!(matches!(r, Err(UtilError::RedisStreamParams)));
    let r: Result<TestMessage, UtilError> = parse_message(&Reply::Other);
    assert!(matches!(r, Err(UtilError::RedisStreamParams)));
}

#[test]
fn reply_with_bad_fields_is_malformed() {
    let reply = read_reply("1-0", vec![bulk("attr1")]);
    let r: Result<TestMessage, UtilError> = parse_message(&reply);
    assert!(matches!(r, Err(UtilError::MalformedParams)));
}

#[test]
fn subscriber_parses_its_message() {
    let reply = read_reply(
        "5-1",
        vec![bulk("id"), bulk("\"abc\""), bulk("display_name"), bulk("null"), bulk("email"), bulk("null")],
    );
    let q = UserReadModel::default().parse_message(&reply).unwrap();
    assert_eq!(q.id, Some("abc".to_string()));
    let subs = subscribers();
    assert_eq!(subs.len(), 1);
    assert_eq!(subs[0].topic(), "MaterializeUserReadModel");
    assert_eq!(subs[0].group_name(), "MaterializeUserReadModel");
    let r = subs[0].parse_message(&read_reply("5-2", vec![bulk("attr1"), bulk("\"v\"")]));
    assert!(matches!(r, Err(UtilError::MalformedParams)));
}

#[test]
fn reply_becomes_delivery_event() {
    let reply = read_reply("9-3", vec![bulk("attr1"), bulk("\"v\"")]);
    match broker::worker::delivered(&reply) {
        broker::worker::WorkerEvent::Delivered { id, fields } => {
            assert_eq!(id, Some("9-3".to_string()));
            assert_eq!(fields, Some(strings(&["attr1", "\"v\""])));
        }
        _ => panic!("expected a delivery"),
    }
}

#[test]
fn existing_group_is_no_failure() {
    assert!(broker::worker::is_group_exists("BUSYGROUP Consumer Group name already exists"));
    assert!(!broker::worker::is_group_exists("ERR connection refused"));
}
