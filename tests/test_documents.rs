use es4forensics::{
    content_id, evaluate_bulk_response, ContentDocument, Credentials, DuplicateNamespace, EcsBuilder,
    EventLevel, EventLevelError, EvidenceItemV1, EvidenceObjectV1, File, FlushReport, Index,
    IndexBuilder, IndexError, JsonValue, Namespace, PosixFile, Protocol, TimeZone, TimelineObject,
    Timestamp, WindowsEvent, WithHost, has_unique_keys,
};

fn text(v: &JsonValue) -> String {
    String::from_utf8(v.to_bytes()).unwrap()
}

fn obj(members: Vec<(&str, JsonValue)>) -> JsonValue {
    JsonValue::Object(members.into_iter().map(|(k, v)| (k.to_string(), v)).collect())
}

fn doc(ms: i64) -> JsonValue {
    EcsBuilder::with(Timestamp::from_millis(ms)).build()
}

#[test]
fn minimal_document() {
    assert_eq!(text(&doc(7)), "{\"@timestamp\":7,\"ecs\":{\"version\":\"8.4\"}}");
}

#[test]
fn document_with_tags_message_and_namespaces() {
    let b = EcsBuilder::with(Timestamp::from_millis(-5))
        .with_additional_tag("b")
        .with_additional_tag("a")
        .with_additional_tag("b")
        .with_message("hello")
        .with_log(obj(vec![("x", JsonValue::Bool(true))]))
        .unwrap()
        .with_event(obj(vec![("y", JsonValue::Null)]))
        .unwrap();
    assert_eq!(
        text(&b.build()),
        "{\"@timestamp\":-5,\"ecs\":{\"version\":\"8.4\"},\"event\":{\"y\":null},\"log\":{\"x\":true},\
\"message\":\"hello\",\"tags\":[\"a\",\"b\"]}"
    );
}

#[test]
fn second_subobject_under_a_namespace_is_refused() {
    let mut b = EcsBuilder::with(Timestamp::from_millis(1));
    assert_eq!(b.insert_namespace(Namespace::Host, obj(vec![("name", JsonValue::Str("a".into()))])), Ok(()));
    let r = b.insert_namespace(Namespace::Host, obj(vec![("name", JsonValue::Str("b".into()))]));
    assert_eq!(r, Err(DuplicateNamespace { namespace: Namespace::Host }));
    assert_eq!(
        text(&b.build()),
        "{\"@timestamp\":1,\"ecs\":{\"version\":\"8.4\"},\"host\":{\"name\":\"a\"}}"
    );
    let again = EcsBuilder::with(Timestamp::from_millis(1))
        .with_file(File::from("/a".to_string()))
        .unwrap()
        .with_namespace(Namespace::File, JsonValue::Null);
    assert_eq!(again.err(), Some(DuplicateNamespace { namespace: Namespace::File }));
}

#[test]
fn json_strings_are_escaped_and_numbers_exact() {
    assert_eq!(text(&JsonValue::Str("a\"b\\c\n".to_string())), "\"a\\\"b\\\\c\\n\"");
    assert_eq!(text(&JsonValue::Int(i64::MIN)), "-9223372036854775808");
    assert_eq!(text(&JsonValue::UInt(u64::MAX)), "18446744073709551615");
    assert_eq!(text(&JsonValue::Int(0)), "0");
    assert_eq!(
        text(&JsonValue::Array(vec![JsonValue::Bool(false), JsonValue::Array(vec![]), obj(vec![])])),
        "[false,[],{}]"
    );
    let v = obj(vec![("k", JsonValue::Array(vec![JsonValue::Int(1), JsonValue::Int(-2)]))]);
    assert_eq!(text(&v.copy()), text(&v));
}

#[test]
fn identifier_is_the_digest_of_the_bytes() {
    let id = content_id(&b"{\"a\":1}".to_vec());
    assert_eq!(id, "AVq9f1zFei3ZS3WQ8ErYCEJzkF7jPsXOvq5iJ2qX-GI");
    let d = ContentDocument::new(&obj(vec![("a", JsonValue::Int(1))]));
    assert_eq!(d.id(), "AVq9f1zFei3ZS3WQ8ErYCEJzkF7jPsXOvq5iJ2qX-GI");
    assert_eq!(d.body(), &b"{\"a\":1}".to_vec());
    let other = ContentDocument::new(&obj(vec![("a", JsonValue::Int(2))]));
    assert_ne!(other.id(), d.id());
}

#[test]
fn buffer_flushes_once_at_threshold() {
    let mut index = Index::new("timeline".to_string());
    assert_eq!(index.set_cache_size(3).is_none(), true);
    assert!(index.add_bulk_document(&doc(1)).is_none());
    assert!(index.add_bulk_document(&doc(2)).is_none());
    let batch = index.add_bulk_document(&doc(3)).unwrap();
    assert_eq!(batch.index, "timeline");
    assert_eq!(batch.items.len(), 3);
    assert_eq!(batch.items[0].body(), &doc(1).to_bytes());
    assert_eq!(batch.items[2].body(), &doc(3).to_bytes());
    assert_eq!(index.pending_count(), 0);
}

#[test]
fn buffer_keeps_the_one_past_threshold() {
    let mut index = Index::new("timeline".to_string());
    index.set_cache_size(3);
    let docs = vec![doc(1), doc(2), doc(3), doc(4)];
    let batches = index.add_documents(&docs);
    assert_eq!(batches.len(), 1);
    assert_eq!(batches[0].items.len(), 3);
    assert_eq!(index.pending_count(), 1);
    let last = index.flush().unwrap();
    assert_eq!(last.items.len(), 1);
    assert_eq!(last.items[0].body(), &doc(4).to_bytes());
    assert!(index.flush().is_none());
}

#[test]
fn teardown_flushes_what_is_pending() {
    let mut index = Index::new("timeline".to_string());
    assert_eq!(index.cache_size(), 10000);
    index.add_bulk_document(&doc(1));
    index.add_bulk_document(&doc(2));
    let batch = index.close().unwrap();
    assert_eq!(batch.items.len(), 2);
    assert!(Index::new("empty".to_string()).close().is_none());
}

#[test]
fn shrinking_below_pending_flushes_first() {
    let mut index = Index::new("t".to_string());
    index.add_bulk_document(&doc(1));
    index.add_bulk_document(&doc(2));
    assert!(index.set_cache_size(2).is_none());
    let b = index.set_cache_size(1).unwrap();
    assert_eq!(b.items.len(), 2);
    // the old threshold stays until the batch is written and the size set again
    assert_eq!(index.cache_size(), 2);
    assert_eq!(index.pending_count(), 0);
    assert!(index.set_cache_size(1).is_none());
    assert_eq!(index.cache_size(), 1);
}

#[test]
fn timeline_object_documents_are_enqueued() {
    let mut index = Index::new("t".to_string());
    let p = PosixFile::try_from_values(
        "/x".to_string(), "1".to_string(), 0, 0, 0, 1, 2, 3, 4, &TimeZone::utc(),
    )
    .unwrap();
    index.set_cache_size(2);
    let batches = index.add_timeline_object(&EvidenceObjectV1::PosixFile(p));
    assert_eq!(batches.len(), 2);
    assert_eq!(index.pending_count(), 0);
}

#[test]
fn bulk_responses_are_judged() {
    assert_eq!(evaluate_bulk_response(500, Some(false), 3, false), Err(IndexError::Status(500)));
    assert_eq!(evaluate_bulk_response(200, None, 3, false), Err(IndexError::MalformedResponse));
    assert_eq!(evaluate_bulk_response(200, Some(true), 3, true), Err(IndexError::PartialFailure));
    assert_eq!(
        evaluate_bulk_response(201, Some(true), 3, false),
        Ok(FlushReport { items: 3, partial_failure: true })
    );
    assert_eq!(
        evaluate_bulk_response(200, Some(false), 3, true),
        Ok(FlushReport { items: 3, partial_failure: false })
    );
}

fn event() -> WindowsEvent {
    WindowsEvent::new(
        42,
        Timestamp::from_millis(1000),
        4624,
        EventLevel::Information,
        JsonValue::Str("PC1".to_string()),
        JsonValue::Str("Security".to_string()),
        JsonValue::Str("Microsoft-Windows-Security-Auditing".to_string()),
        None,
        vec![("LogonType".to_string(), JsonValue::UInt(2))],
    )
}

#[test]
fn windows_event_document() {
    let docs = event().documents();
    assert_eq!(docs.len(), 1);
    assert_eq!(docs[0].0.timestamp_millis(), 1000);
    assert_eq!(
        text(&docs[0].1),
        "{\"@timestamp\":1000,\"ecs\":{\"version\":\"8.4\"},\"event\":{\"activity\":null,\"code\":4624,\
\"custom_data\":{\"LogonType\":2},\"kind\":\"event\",\"module\":\"Microsoft-Windows-Security-Auditing\",\
\"provider\":\"Security\",\"sequence\":42,\"severity\":4},\"host\":{\"name\":\"PC1\"},\
\"log\":{\"syslog\":{\"severity\":{\"code\":4,\"name\":\"information\"}}}}"
    );
}

#[test]
fn event_levels_are_read_from_numbers() {
    assert_eq!(EventLevel::try_from_json(&JsonValue::UInt(1)), Ok(EventLevel::Critical));
    assert_eq!(EventLevel::try_from_json(&JsonValue::Int(5)), Ok(EventLevel::Verbose));
    assert_eq!(EventLevel::try_from_json(&JsonValue::UInt(6)), Err(EventLevelError::InvalidLevel(6)));
    assert_eq!(EventLevel::try_from_json(&JsonValue::Int(-1)), Err(EventLevelError::NotANumber));
    assert_eq!(
        EventLevel::try_from_json(&JsonValue::Str("1".to_string())),
        Err(EventLevelError::NotANumber)
    );
    assert_eq!(EventLevel::Warning.name(), "warning");
    assert_eq!(EventLevel::from_u64(0), Some(EventLevel::LogAlways));
}

#[test]
fn evidence_item_sets_the_host() {
    let item = EvidenceItemV1::from(EvidenceObjectV1::WindowsEvent(event())).with_host("ws1".to_string());
    assert_eq!(item.version, 1);
    let docs = item.documents();
    assert_eq!(docs.len(), 1);
    let t = text(&docs[0]);
    assert!(t.ends_with(",\"host\":\"ws1\"}"));
    assert!(!t.contains("\"host\":{"));
}

#[test]
fn index_settings() {
    let b = IndexBuilder::with_name("elastic4forensics_test".to_string());
    assert_eq!(b.host(), "localhost");
    assert_eq!(b.port(), 9200);
    assert_eq!(b.url(), "https://localhost:9200");
    let b = b
        .with_host("127.0.0.1")
        .with_port(9201)
        .without_certificate_validation()
        .with_protocol(Protocol::Http)
        .with_credentials(Credentials { username: "elastic".to_string(), password: "pw".to_string() });
    assert_eq!(b.url(), "http://127.0.0.1:9201");
    assert!(!b.do_certificate_validation);
    assert_eq!(b.index_name(), "elastic4forensics_test");
    let names = vec!["a".to_string(), "elastic4forensics_test".to_string()];
    assert!(b.has_index(&names));
    assert!(!b.has_index(&vec!["elastic4forensics".to_string()]));
    assert_eq!(Protocol::default(), Protocol::Https);
    assert_eq!(Protocol::Http.scheme(), "http");
    let b = b.with_host(String::from("db"));
    assert_eq!(b.host(), "db");
}

#[test]
fn timeline_objects_yield_their_documents() {
    let p = PosixFile::try_from_values(
        "/x".to_string(), "1".to_string(), 0, 0, 0, 1, 1, 2, -1, &TimeZone::utc(),
    )
    .unwrap();
    let from_trait: Vec<String> = p.timeline_documents().iter().map(text).collect();
    let from_pairs: Vec<String> = p.documents().iter().map(|(_, d)| text(d)).collect();
    assert_eq!(from_trait.len(), 2);
    assert_eq!(from_trait, from_pairs);
    let e = event();
    assert_eq!(text(&e.timeline_documents()[0]), text(&e.documents()[0].1));
    let o = EvidenceObjectV1::WindowsEvent(event());
    assert_eq!(o.timeline_documents().len(), 1);
}

#[test]
fn file_builders_fill_the_namespace() {
    let f = File::from("/var/log/syslog.1".to_string())
        .with_mtime(Some(Timestamp::from_millis(2)))
        .with_created(None)
        .with_type(Some(es4forensics::FileType::Symlink))
        .with_target_path(Some("/dev/null".to_string()))
        .with_gid(3)
        .with_uid(4)
        .with_inode("5".to_string())
        .with_mode("r".to_string())
        .with_size(6);
    assert_eq!(
        text(&f.to_json()),
        "{\"directory\":\"/var/log\",\"extension\":\"1\",\"gid\":3,\"inode\":\"5\",\"mode\":\"r\",\"mtime\":2,\
\"name\":\"syslog.1\",\"path\":\"/var/log/syslog.1\",\"size\":6,\"target_path\":\"/dev/null\",\
\"type\":\"Symlink\",\"uid\":4}"
    );
}

#[test]
fn tag_order_does_not_change_the_document() {
    let build = |tags: &[&str]| {
        let mut b = EcsBuilder::with(Timestamp::from_millis(3));
        for t in tags {
            b = b.with_additional_tag(t);
        }
        ContentDocument::new(&b.build())
    };
    let one = build(&["zeta", "alpha", "ab", "a", "alpha"]);
    let two = build(&["a", "ab", "zeta", "alpha"]);
    assert_eq!(one.id(), two.id());
    assert_eq!(
        String::from_utf8(one.body().clone()).unwrap(),
        "{\"@timestamp\":3,\"ecs\":{\"version\":\"8.4\"},\"tags\":[\"a\",\"ab\",\"alpha\",\"zeta\"]}"
    );
    let three = build(&["\u{e9}", "z", "Z"]);
    assert_eq!(
        String::from_utf8(three.body().clone()).unwrap(),
        "{\"@timestamp\":3,\"ecs\":{\"version\":\"8.4\"},\"tags\":[\"Z\",\"z\",\"\u{e9}\"]}"
    );
}

#[test]
fn extra_data_keys_must_be_unique() {
    let unique = vec![("a".to_string(), JsonValue::Null), ("b".to_string(), JsonValue::Null)];
    assert!(has_unique_keys(&unique));
    let repeated = vec![
        ("a".to_string(), JsonValue::Null),
        ("b".to_string(), JsonValue::Null),
        ("a".to_string(), JsonValue::Int(1)),
    ];
    assert!(!has_unique_keys(&repeated));
    assert!(has_unique_keys(&vec![]));
}
