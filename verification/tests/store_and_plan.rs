//! The known-blob store's file format and purge, the run planner's windows,
//! the seed URLs, and the subscription plan.

use audit_log_collector::api_connection::{
    create_base_urls, get_base_url, get_feeds, get_login_url, plan_subscriptions,
    subscription_list_url, subscription_start_url,
};
use audit_log_collector::config::{
    collection_windows, Config, CollectSubConfig, ContentTypesSubConfig, OutputSubConfig,
};
use audit_log_collector::known_blobs::{load_known_store, parse_store, serialize_known, KnownBlobs};
use audit_log_collector::records::Record;

const EARLY: i64 = 0;

fn future_exp() -> String {
    "2030-01-01T00:00:00.000Z".to_string()
}

#[test]
fn known_store_round_trip_bytes() {
    let mut store = KnownBlobs::new();
    store.insert("b1".to_string(), future_exp());
    store.insert("b2".to_string(), "2031-06-15T12:30:45.500Z".to_string());
    let text = serialize_known(&store);
    assert_eq!(
        text,
        "b1,2030-01-01T00:00:00.000Z\nb2,2031-06-15T12:30:45.500Z\n"
    );
    // loading the saved text with no intervening operations and no expired
    // entries gives the same store, hence the same bytes again
    let reloaded = load_known_store(&text, EARLY);
    assert_eq!(serialize_known(&reloaded), text);
}

#[test]
fn known_store_purges_expired_and_unreadable() {
    let text = "old,2020-01-01T00:00:00.000Z\nnew,2030-01-01T00:00:00.000Z\nbad,not-a-date\n\nnocomma\n";
    // now = 2024-01-01T00:00:00Z
    let now = 1704067200;
    let store = load_known_store(text, now);
    assert_eq!(store.len(), 1);
    assert!(store.contains("new"));
    assert!(!store.contains("old"));
    assert!(!store.contains("bad"));
}

#[test]
fn known_store_parse_keeps_file_order_and_splits_first_comma() {
    let entries = parse_store("a,1,2\nb,x\n");
    assert_eq!(
        entries,
        vec![
            ("a".to_string(), "1,2".to_string()),
            ("b".to_string(), "x".to_string()),
        ]
    );
    // an entry boundary also ends an unterminated final line
    let tail = parse_store("a,1\nb,2");
    assert_eq!(tail.len(), 2);
    assert_eq!(tail[1], ("b".to_string(), "2".to_string()));
}

#[test]
fn known_store_load_trims_and_tolerates_crlf() {
    let text = " b1 ,\t2030-01-01T00:00:00.000Z \r\nb2,2030-01-01T00:00:00.000Z\r\n";
    let store = load_known_store(text, EARLY);
    assert_eq!(store.len(), 2);
    assert_eq!(
        store.get("b1").map(|s| s.as_str()),
        Some("2030-01-01T00:00:00.000Z")
    );
    assert!(store.contains("b2"));
    let entries = parse_store(" a , 1 \r\n");
    assert_eq!(entries, vec![("a".to_string(), "1".to_string())]);
}

#[test]
fn known_store_insert_overwrites_in_place() {
    let mut store = KnownBlobs::new();
    store.insert("b1".to_string(), "e1".to_string());
    store.insert("b2".to_string(), "e2".to_string());
    store.insert("b1".to_string(), "e3".to_string());
    assert_eq!(store.len(), 2);
    assert_eq!(store.get("b1").map(|s| s.as_str()), Some("e3"));
    assert_eq!(serialize_known(&store), "b1,e3\nb2,e2\n");
}

#[test]
fn windows_cover_span_oldest_first() {
    let now: i64 = 1700000000;
    let w = collection_windows(now, 25);
    assert_eq!(w, vec![(now - 90000, now - 86400), (now - 86400, now)]);
    let single = collection_windows(now, 24);
    assert_eq!(single, vec![(now - 86400, now)]);
    let week = collection_windows(now, 168);
    assert_eq!(week.len(), 7);
    assert_eq!(week[0].0, now - 168 * 3600);
    assert_eq!(week[6].1, now);
    for i in 0..6 {
        assert_eq!(week[i].1, week[i + 1].0);
    }
}

fn config_for(hours: Option<u64>) -> Config {
    Config {
        log: None,
        collect: CollectSubConfig {
            working_dir: None,
            cache_size: None,
            content_types: ContentTypesSubConfig {
                general: None,
                azure_active_directory: None,
                exchange: Some(true),
                share_point: None,
                dlp: Some(true),
            },
            max_threads: None,
            global_timeout: None,
            retries: None,
            hours_to_collect: hours,
            duplicate: None,
            skip_known_logs: None,
            filter: None,
        },
        output: OutputSubConfig { file: None, graylog: None, fluentd: None, oms: None },
    }
}

#[test]
fn needed_runs_formats_windows_per_enabled_feed() {
    let config = config_for(Some(25));
    let runs = config.get_needed_runs(1700000000).expect("valid window");
    assert_eq!(runs.len(), 2);
    assert_eq!(runs[0].0, "Audit.Exchange");
    assert_eq!(runs[1].0, "DLP.All");
    let expected = vec![
        (
            "2023-11-13T21:13:20Z".to_string(),
            "2023-11-13T22:13:20Z".to_string(),
        ),
        (
            "2023-11-13T22:13:20Z".to_string(),
            "2023-11-14T22:13:20Z".to_string(),
        ),
    ];
    assert_eq!(runs[0].1, expected);
    assert_eq!(runs[1].1, expected);
}

#[test]
fn needed_runs_rejects_out_of_range_window() {
    assert!(config_for(Some(0)).get_needed_runs(1700000000).is_none());
    assert!(config_for(Some(169)).get_needed_runs(1700000000).is_none());
    assert!(config_for(Some(168)).get_needed_runs(1700000000).is_some());
}

#[test]
fn default_configuration_values() {
    let config = config_for(None);
    assert_eq!(config.cache_size(), 500000);
    assert_eq!(config.max_threads(), 50);
    assert_eq!(config.retries(), 3);
    assert_eq!(config.hours_to_collect(), 24);
    assert_eq!(config.duplicate(), 1);
    assert_eq!(config.working_dir(), "./");
}

#[test]
fn content_type_strings_in_fixed_order() {
    let types = ContentTypesSubConfig {
        general: Some(true),
        azure_active_directory: Some(false),
        exchange: Some(true),
        share_point: None,
        dlp: Some(true),
    };
    assert_eq!(
        types.get_content_type_strings(),
        vec!["Audit.General", "Audit.Exchange", "DLP.All"]
    );
}

#[test]
fn base_urls_per_window_and_feed() {
    let runs = vec![
        (
            "Audit.Exchange".to_string(),
            vec![("S1".to_string(), "E1".to_string()), ("S2".to_string(), "E2".to_string())],
        ),
        ("DLP.All".to_string(), vec![("S3".to_string(), "E3".to_string())]),
    ];
    let urls = create_base_urls(
        vec!["Audit.Exchange".to_string(), "DLP.All".to_string()],
        "tenant".to_string(),
        "pub".to_string(),
        runs,
    );
    assert_eq!(urls.len(), 3);
    assert_eq!(urls[0].0, "Audit.Exchange");
    assert_eq!(
        urls[0].1,
        "https://manage.office.com/api/v1.0/tenant/activity/feed/subscriptions/content?contentType=Audit.Exchange&startTime=S1&endTime=E1&PublisherIdentifier=pub"
    );
    assert_eq!(
        urls[2].1,
        "https://manage.office.com/api/v1.0/tenant/activity/feed/subscriptions/content?contentType=DLP.All&startTime=S3&endTime=E3&PublisherIdentifier=pub"
    );
}

#[test]
fn endpoint_urls() {
    assert_eq!(
        get_base_url("t1"),
        "https://manage.office.com/api/v1.0/t1/activity/feed"
    );
    assert_eq!(
        get_login_url("t1"),
        "https://login.microsoftonline.com/t1/oauth2/token"
    );
    assert_eq!(
        subscription_list_url("t1"),
        "https://manage.office.com/api/v1.0/t1/activity/feed/subscriptions/list"
    );
    assert_eq!(
        subscription_start_url("t1", "DLP.All"),
        "https://manage.office.com/api/v1.0/t1/activity/feed/subscriptions/start?contentType=DLP.All"
    );
}

fn subscription(status: &str, content_type: &str) -> Record {
    Record {
        fields: vec![
            ("status".to_string(), format!("\"{}\"", status)),
            ("contentType".to_string(), format!("\"{}\"", content_type)),
        ],
    }
}

#[test]
fn subscription_plan_starts_missing_feeds_once() {
    let wanted = vec!["Audit.Exchange".to_string(), "DLP.All".to_string()];
    let current = vec![
        subscription("enabled", "audit.exchange"),
        subscription("disabled", "dlp.all"),
    ];
    let plan = plan_subscriptions(&current, &wanted);
    assert_eq!(plan, vec!["DLP.All".to_string()]);

    // running the manager again against the upstream that now has every
    // started feed enabled yields no start call: idempotence
    let mut after: Vec<Record> = current;
    for started in &plan {
        after.push(subscription("Enabled", started));
    }
    let second = plan_subscriptions(&after, &wanted);
    assert!(second.is_empty());
}

#[test]
fn enabled_feeds_from_listing() {
    let current = vec![
        subscription("enabled", "Audit.Exchange"),
        subscription("disabled", "DLP.All"),
        // the listing filter compares the status exactly, unlike the planner
        subscription("Enabled", "Audit.General"),
        Record { fields: vec![("contentType".to_string(), "\"X\"".to_string())] },
    ];
    assert_eq!(get_feeds(&current), vec!["Audit.Exchange".to_string()]);
}
