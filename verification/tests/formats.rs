//! Record parsing and filtering, batching, the sinks' compute parts, and the
//! text helpers.

use audit_log_collector::collector::{get_output_string, Filters, ResultProcessor};
use audit_log_collector::data_structures::{Caches, ContentToRetrieve};
use audit_log_collector::interfaces::azure_oms_interface::build_signature;
use audit_log_collector::interfaces::file_interface::{
    create_content_type_paths, fill_log, get_all_columns,
};
use audit_log_collector::interfaces::fluentd_interface::get_timestamp;
use audit_log_collector::interfaces::graylog_interface::{add_timestamp_field, GraylogInterface};
use audit_log_collector::known_blobs::KnownBlobs;
use audit_log_collector::records::{quote_string, strip_quotes, Record};
use audit_log_collector::text::{str_contains_ci, str_eq_ci, u64_to_string};

fn blob(ct: &str) -> ContentToRetrieve {
    ContentToRetrieve {
        content_type: ct.to_string(),
        content_id: "b1".to_string(),
        expiration: "2030-01-01T00:00:00.000Z".to_string(),
        url: "https://feed/b1".to_string(),
    }
}

#[test]
fn blob_bodies_parse_as_json_lists_of_objects() {
    // keys come out sorted, values keep their JSON rendering
    let mut proc = ResultProcessor::new(10, KnownBlobs::new(), Filters::new());
    let (amount, _) = proc.handle_content(&r#"[{"b":1,"a":"x"},{}]"#.to_string(), &blob("Audit.General"));
    assert_eq!(amount, 2);
    let batch = proc.flush();
    let kept = batch.bucket_at(0);
    assert_eq!(kept.len(), 2);
    assert_eq!(
        kept[0].fields,
        vec![
            ("a".to_string(), "\"x\"".to_string()),
            ("b".to_string(), "1".to_string()),
            ("OriginFeed".to_string(), "\"Audit.General\"".to_string()),
        ]
    );
    assert_eq!(
        kept[1].fields,
        vec![("OriginFeed".to_string(), "\"Audit.General\"".to_string())]
    );
    // a JSON object (not a list) and plain text both fail to parse
    let (none_amount, _) = proc.handle_content(&"{\"not\":\"a list\"}".to_string(), &blob("Audit.General"));
    assert_eq!(none_amount, 0);
    let (text_amount, _) = proc.handle_content(&"no json at all".to_string(), &blob("Audit.General"));
    assert_eq!(text_amount, 0);
}

#[test]
fn strip_quotes_only_unwraps_quoted_text() {
    assert_eq!(strip_quotes("\"abc\""), Some("abc".to_string()));
    assert_eq!(strip_quotes("\"\""), Some(String::new()));
    assert_eq!(strip_quotes("abc"), None);
    assert_eq!(strip_quotes("\"abc"), None);
    assert_eq!(strip_quotes("7"), None);
    assert_eq!(quote_string("abc"), "\"abc\"");
}

#[test]
fn record_insert_and_lookup() {
    let mut rec = Record::new();
    rec.insert("a".to_string(), "1".to_string());
    rec.insert("b".to_string(), "2".to_string());
    rec.insert("a".to_string(), "3".to_string());
    assert_eq!(rec.get("a").map(|s| s.as_str()), Some("3"));
    assert_eq!(rec.get("b").map(|s| s.as_str()), Some("2"));
    assert_eq!(rec.get("missing"), None);
    assert_eq!(rec.fields.len(), 2);
}

#[test]
fn filter_drops_mismatched_records_only() {
    let mut filters = Filters::new();
    let filter = Record {
        fields: vec![("Workload".to_string(), "\"Exchange\"".to_string())],
    };
    filters.push("Audit.Exchange".to_string(), filter);
    let mut proc = ResultProcessor::new(100, KnownBlobs::new(), filters);

    let body = format!(
        "[{},{},{}]",
        r#"{"Id":"l1","Workload":"Exchange"}"#,
        r#"{"Id":"l2","Workload":"SharePoint"}"#,
        r#"{"Id":"l3"}"#
    );
    let (amount, batches) = proc.handle_content(&body, &blob("Audit.Exchange"));
    assert_eq!(amount, 3);
    assert!(batches.is_empty());
    // l2 fails the filter; l1 matches and l3 lacks the key, so both stay
    assert_eq!(proc.saved, 2);
    let flushed = proc.flush();
    let kept = flushed.bucket_at(2);
    assert_eq!(kept.len(), 2);
    assert_eq!(kept[0].get("Id").map(|s| s.as_str()), Some("\"l1\""));
    assert_eq!(kept[1].get("Id").map(|s| s.as_str()), Some("\"l3\""));
}

#[test]
fn batches_hand_off_at_capacity_and_never_exceed_it() {
    let mut proc = ResultProcessor::new(2, KnownBlobs::new(), Filters::new());
    let body =
        r#"[{"Id":"l1"},{"Id":"l2"},{"Id":"l3"},{"Id":"l4"},{"Id":"l5"}]"#.to_string();
    let (amount, batches) = proc.handle_content(&body, &blob("Audit.General"));
    assert_eq!(amount, 5);
    assert_eq!(batches.len(), 2);
    for batch in &batches {
        assert_eq!(batch.bucket_at(0).len(), 2);
        assert_eq!(batch.size, 2);
    }
    // the remainder stays in the current batch for the final flush
    let last = proc.flush();
    assert_eq!(last.bucket_at(0).len(), 1);
    // every record that passed the filter was delivered exactly once
    let mut ids: Vec<String> = Vec::new();
    for batch in batches.iter().chain(std::iter::once(&last)) {
        for rec in batch.bucket_at(0).iter() {
            ids.push(rec.get("Id").unwrap().clone());
        }
    }
    assert_eq!(ids, vec!["\"l1\"", "\"l2\"", "\"l3\"", "\"l4\"", "\"l5\""]);
}

#[test]
fn unparsable_blob_body_is_skipped_but_blob_is_known() {
    let mut proc = ResultProcessor::new(10, KnownBlobs::new(), Filters::new());
    let body = "not a json list".to_string();
    let (amount, batches) = proc.handle_content(&body, &blob("Audit.General"));
    assert_eq!(amount, 0);
    assert!(batches.is_empty());
    assert_eq!(proc.saved, 0);
    assert!(proc.known_blobs.contains("b1"));
}

#[test]
fn unknown_content_type_is_dropped_from_batches() {
    let mut cache = Caches::new(10);
    let rec = Record { fields: vec![("Id".to_string(), "\"l1\"".to_string())] };
    cache.insert(rec, &"NotAFeed".to_string());
    for b in 0..5 {
        assert!(cache.bucket_at(b).is_empty());
    }
}

#[test]
fn columns_are_union_in_first_appearance_order() {
    let logs = vec![
        Record {
            fields: vec![
                ("b".to_string(), "1".to_string()),
                ("a".to_string(), "2".to_string()),
            ],
        },
        Record {
            fields: vec![
                ("a".to_string(), "3".to_string()),
                ("c".to_string(), "4".to_string()),
            ],
        },
    ];
    let columns = get_all_columns(&logs);
    assert_eq!(columns, vec!["b", "a", "c"]);
    let row = fill_log(&logs[1], &columns);
    assert_eq!(row, vec!["", "3", "4"]);
}

#[test]
fn content_type_paths_are_derived_from_stem_and_feed() {
    let types = vec!["Audit.General".to_string(), "DLP.All".to_string()];
    let parent = "out/dir".to_string();
    let paths = create_content_type_paths(Some(&parent), "20240101000000", "logs", &types);
    assert_eq!(
        paths[0],
        (
            "Audit.General".to_string(),
            "out/dir/20240101000000_logs_AuditGeneral.csv".to_string()
        )
    );
    assert_eq!(
        paths[1],
        ("DLP.All".to_string(), "out/dir/20240101000000_logs_DLPAll.csv".to_string())
    );
    let bare = create_content_type_paths(None, "p", "s", &types);
    assert_eq!(bare[0].1, "p_s_AuditGeneral.csv");
}

#[test]
fn graylog_timestamp_is_derived_from_creation_time() {
    let mut rec = Record {
        fields: vec![("CreationTime".to_string(), "\"2024-01-01T00:00:00\"".to_string())],
    };
    assert!(add_timestamp_field(&mut rec).is_ok());
    assert_eq!(
        rec.get("timestamp").map(|s| s.as_str()),
        Some("\"2024-01-01 00:00:00.000\"")
    );

    let mut missing = Record::new();
    assert!(add_timestamp_field(&mut missing).is_err());
    assert!(missing.fields.is_empty());

    let mut unquoted = Record { fields: vec![("CreationTime".to_string(), "7".to_string())] };
    assert!(add_timestamp_field(&mut unquoted).is_err());

    let mut unreadable = Record {
        fields: vec![("CreationTime".to_string(), "\"yesterday\"".to_string())],
    };
    assert!(add_timestamp_field(&mut unreadable).is_err());

    let iface = GraylogInterface::new("localhost".to_string(), 12201);
    assert_eq!(iface.address, "localhost");
    assert_eq!(iface.port, 12201);
}

#[test]
fn fluentd_timestamp_reads_creation_time() {
    let rec = Record {
        fields: vec![("CreationTime".to_string(), "\"2024-01-01T00:00:00\"".to_string())],
    };
    // 2024-01-01T00:00:00Z as a unix timestamp
    assert_eq!(get_timestamp(&rec), Some(1704067200));
    assert_eq!(get_timestamp(&Record::new()), None);
}

#[test]
fn shared_key_signature_matches_reference_digest() {
    // key = base64("key"); canonical block of a 5-byte POST to /api/logs
    let signature = build_signature(
        "a2V5",
        "workspace",
        "Mon, 01 Jan 2024 00:00:00 GMT",
        5,
        "POST",
        "application/json",
        "/api/logs",
    )
    .expect("valid base64 key");
    assert_eq!(
        signature,
        "SharedKey workspace:9Ss4oz7n/V8EO0GOBg5CBIXtRcaCbh4hc+iqBc2JvK0="
    );
    // a shared key that is not base64 cannot sign anything
    assert!(build_signature("!!!", "w", "d", 0, "POST", "t", "/r").is_none());
}

#[test]
fn run_summary_format() {
    assert_eq!(
        get_output_string(2, 1, 1, 3, 17),
        "Done!||\nBlobs found: 2||\nBlobs successful: 1||\nBlobs failed: 1||\nBlobs retried: 3||\nLogs saved: 17"
    );
}

#[test]
fn text_helpers() {
    assert_eq!(u64_to_string(0), "0");
    assert_eq!(u64_to_string(10), "10");
    assert_eq!(u64_to_string(123456789), "123456789");
    assert!(str_contains_ci("...TOO MANY REQUESTS...", "too many request"));
    assert!(str_contains_ci("too many request", "too many request"));
    assert!(!str_contains_ci("too many", "too many request"));
    assert!(str_eq_ci("Enabled", "enabled"));
    assert!(!str_eq_ci("enabled", "disabled"));
}
