use aws_sdk_dynamodb::error::QueryError;
use aws_sdk_kinesis::error::{GetRecordsError, GetShardIteratorError, ListShardsError};
use aws_sdk_kinesis::types::SdkError;
use ddbstream::envelope::change_key;
use ddbstream::error::{ErrorKind, PollKinesisError, QueryDynamoDbError};
use ddbstream::event::EventKind;
use ddbstream::item::{enrich, is_json_number, item_json_from, project_item, Item, StoredItem};
use ddbstream::poll::{PollState, ShardCursor};
use ddbstream::registry::Registry;

fn stored(id: &str, value: Option<&str>) -> Option<StoredItem> {
    Some(StoredItem { id: Some(id.to_string()), value: value.map(|v| v.to_string()) })
}

fn envelope(key: &str) -> Vec<u8> {
    format!(
        "{{\"eventName\":\"MODIFY\",\"dynamodb\":{{\"Keys\":{{\"id\":{{\"S\":\"{}\"}}}},\"NewImage\":{{\"value\":{{\"N\":\"7\"}}}}}}}}",
        key
    )
    .into_bytes()
}

#[test]
fn one_cycle_scenario() {
    let mut reg = Registry::new();
    let mut rx1 = reg.subscribe();
    let mut rx2 = reg.subscribe();
    let mut state = PollState::new(vec![ShardCursor { shard: "s1".to_string(), cursor: "c0".to_string() }]);
    assert_eq!(state.cursors()[0].cursor, "c0");
    let key = change_key(&envelope("a")).unwrap();
    assert_eq!(key, "a");
    let event = enrich(&key, stored("a", Some("42"))).unwrap();
    assert_eq!(reg.broadcast(&event), vec![true, true]);
    state.advance(vec![Some("c1".to_string())]);
    for rx in [&mut rx1, &mut rx2] {
        let got = rx.try_recv().unwrap();
        assert_eq!(got.kind_name(), "broadcast");
        assert_eq!(got.data, "{\"id\":\"a\",\"value\":42}");
    }
    assert_eq!(state.cursors()[0].shard, "s1");
    assert_eq!(state.cursors()[0].cursor, "c1");
}

#[test]
fn enrichment_uses_store_value_not_record_value() {
    let key = change_key(&envelope("k9")).unwrap();
    let event = enrich(&key, stored("k9", Some("-3.5e2"))).unwrap();
    assert_eq!(event.kind, EventKind::Broadcast);
    assert_eq!(event.data, "{\"id\":\"k9\",\"value\":-3.5e2}");
}

#[test]
fn key_is_escaped_as_json_string() {
    let event = enrich("a\"b\\c", stored("a\"b\\c", Some("1"))).unwrap();
    assert_eq!(event.data, "{\"id\":\"a\\\"b\\\\c\",\"value\":1}");
    let item = Item { id: "x\ny".to_string(), value: None };
    assert_eq!(item.to_json(), "{\"id\":\"x\\ny\",\"value\":null}");
}

#[test]
fn missing_or_bad_value_is_null() {
    let event = enrich("a", stored("a", None)).unwrap();
    assert_eq!(event.data, "{\"id\":\"a\",\"value\":null}");
    let event = enrich("a", stored("a", Some("NaN"))).unwrap();
    assert_eq!(event.data, "{\"id\":\"a\",\"value\":null}");
}

#[test]
fn missing_item_is_lookup_error() {
    let err = enrich("a", None).unwrap_err();
    assert_eq!(err.message, "item not found");
    assert_eq!(err.kind, ErrorKind::Lookup);
    let err = enrich("a", stored("b", Some("1"))).unwrap_err();
    assert_eq!(err.kind, ErrorKind::Lookup);
    let err = enrich("a", Some(StoredItem { id: None, value: Some("1".to_string()) })).unwrap_err();
    assert_eq!(err.describe(), "item not found");
}

#[test]
fn project_item_keeps_key_and_number() {
    let item = project_item("a", stored("a", Some("0.25"))).unwrap();
    assert_eq!(item.id, "a");
    assert_eq!(item.value, Some("0.25".to_string()));
    let item = project_item("a", stored("a", Some("007"))).unwrap();
    assert_eq!(item.value, None);
}

#[test]
fn json_number_grammar() {
    for good in ["0", "-0", "42", "-17", "3.14", "1e5", "1E+5", "2.5e-3", "10"] {
        assert!(is_json_number(&good.to_string()), "{}", good);
    }
    for bad in ["", "-", "01", "1.", ".5", "1e", "1e+", "+1", "1.2.3", "NaN", "inf", " 1", "1 ", "0x10"] {
        assert!(!is_json_number(&bad.to_string()), "{}", bad);
    }
}

#[test]
fn item_json_layout() {
    assert_eq!(item_json_from("\"a\"", &Some("42".to_string())), "{\"id\":\"a\",\"value\":42}");
    assert_eq!(item_json_from("\"a\"", &None), "{\"id\":\"a\",\"value\":null}");
}

#[test]
fn malformed_envelopes_are_parse_errors() {
    for bad in [
        b"not json".to_vec(),
        b"{\"dynamodb\":{}}".to_vec(),
        b"{\"dynamodb\":{\"Keys\":{\"id\":{\"N\":\"1\"}}}}".to_vec(),
        b"{\"dynamodb\":{\"Keys\":{\"id\":{\"S\":5}}}}".to_vec(),
        vec![0xff, 0xfe],
        Vec::new(),
    ] {
        let err = change_key(&bad).unwrap_err();
        assert_eq!(err.kind, ErrorKind::Parse);
        assert_eq!(err.message, "malformed change record");
    }
}

#[test]
fn error_constructors() {
    assert_eq!(PollKinesisError::list_shards_failed().message, "failed to get shards list");
    assert_eq!(PollKinesisError::shard_iterator_failed().message, "failed to get shard iterator");
    let e = PollKinesisError::get_records_failed();
    assert_eq!(e.describe(), "failed to get records");
    assert_eq!(e.kind, ErrorKind::Connectivity);
    let q = QueryDynamoDbError::query_failed();
    assert_eq!(q.describe(), "query error");
    assert_eq!(q.kind, ErrorKind::Connectivity);
    let p = PollKinesisError::from(q);
    assert_eq!(p.message, "query error");
    assert_eq!(p.kind, ErrorKind::Connectivity);
}

#[test]
fn sdk_errors_convert_to_library_errors() {
    let e: SdkError<ListShardsError> = SdkError::ConstructionFailure("offline".into());
    assert_eq!(PollKinesisError::from(e).message, "failed to get shards list");
    let e: SdkError<GetShardIteratorError> = SdkError::ConstructionFailure("offline".into());
    assert_eq!(PollKinesisError::from(e).message, "failed to get shard iterator");
    let e: SdkError<GetRecordsError> = SdkError::ConstructionFailure("offline".into());
    let p = PollKinesisError::from(e);
    assert_eq!(p.message, "failed to get records");
    assert_eq!(p.kind, ErrorKind::Connectivity);
    let e: aws_sdk_dynamodb::types::SdkError<QueryError> = aws_sdk_dynamodb::types::SdkError::ConstructionFailure("offline".into());
    let q = QueryDynamoDbError::from(e);
    assert_eq!(q.message, "query error");
    assert_eq!(PollKinesisError::from(q).message, "query error");
}
