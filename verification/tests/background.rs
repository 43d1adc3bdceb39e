use ntfy_app::background::{
    build_combined_url, clean_message, combined_url_text, handle_event, is_ntfy_websocket,
    parse_topic, parse_topic_url, retry_count_after_attempt, retry_delay, validate_page_url,
    with_since, BackgroundListener, WebSocketEvent,
};
use ntfy_app::urls::{append_query_pair, parse_url};

fn topic(instance: &str, source: &str) -> Result<(String, Option<String>), String> {
    parse_topic_url(instance, source).map(|p| (p.topic_path, p.auth))
}

fn ws_event(kind: &str, id: Option<&str>, message: Option<&str>) -> WebSocketEvent {
    WebSocketEvent {
        event: kind.to_string(),
        id: id.map(String::from),
        message: message.map(String::from),
        time: Some(7),
        title: None,
        topic: Some("news".to_string()),
    }
}

#[test]
fn parse_url_reads_the_parts() {
    let u = parse_url("https://Example.com:8443/a/b?x=1&y=two%20words").unwrap();
    assert_eq!(u.scheme, "https");
    assert_eq!(u.host, Some("example.com".to_string()));
    assert_eq!(u.port, Some(8443));
    assert_eq!(u.known_port, Some(8443));
    assert_eq!(u.path, "/a/b");
    assert_eq!(
        u.query,
        vec![("x".to_string(), "1".to_string()), ("y".to_string(), "two words".to_string())]
    );
    assert_eq!(u.serialization, "https://example.com:8443/a/b?x=1&y=two%20words");
    let d = parse_url("https://ntfy.sh").unwrap();
    assert_eq!((d.port, d.known_port, d.path.as_str()), (None, Some(443), "/"));
    assert_eq!(parse_url("not a url").unwrap_err(), "relative URL without a base");
}

#[test]
fn append_query_pair_encodes_the_pair() {
    assert_eq!(
        append_query_pair("wss://ntfy.sh/a/ws", "since", "x y"),
        Some("wss://ntfy.sh/a/ws?since=x+y".to_string())
    );
    assert_eq!(append_query_pair("nope", "a", "b"), None);
}

#[test]
fn ntfy_websockets_are_recognised() {
    assert!(is_ntfy_websocket("wss://ntfy.sh/alerts/ws"));
    assert!(is_ntfy_websocket("ws://localhost:8080/base/alerts/ws"));
    assert!(!is_ntfy_websocket("https://ntfy.sh/alerts/ws"));
    assert!(!is_ntfy_websocket("wss://ntfy.sh/ws"));
    assert!(!is_ntfy_websocket("wss://ntfy.sh//ws"));
    assert!(!is_ntfy_websocket("wss://ntfy.sh/alerts/json"));
    assert!(!is_ntfy_websocket("not a url"));
}

#[test]
fn topic_is_read_with_its_auth() {
    assert_eq!(
        topic("https://ntfy.sh", "wss://ntfy.sh/alerts/ws?Auth=abc"),
        Ok(("alerts".to_string(), Some("abc".to_string())))
    );
    assert_eq!(
        topic("https://example.com/ntfy/", "wss://example.com/ntfy/news/ws"),
        Ok(("news".to_string(), None))
    );
    assert_eq!(
        topic("https://example.com:8443", "wss://example.com:8443/t/ws"),
        Ok(("t".to_string(), None))
    );
}

#[test]
fn foreign_websockets_are_refused() {
    assert_eq!(
        topic("http://example.com", "wss://example.com/x/ws"),
        Err("The WebSocket does not belong to the configured ntfy instance".to_string())
    );
    assert_eq!(
        topic("https://example.com", "wss://other.com/x/ws"),
        Err("The WebSocket does not belong to the configured ntfy instance".to_string())
    );
    assert_eq!(
        topic("ftp://example.com", "wss://example.com/x/ws"),
        Err("The configured ntfy instance must use HTTP or HTTPS".to_string())
    );
    assert_eq!(
        topic("https://example.com/ntfy", "wss://example.com/other/t/ws"),
        Err("The WebSocket is outside the configured ntfy instance path".to_string())
    );
    assert_eq!(
        topic("https://example.com", "wss://example.com/ws"),
        Err("The ntfy WebSocket URL does not contain a topic".to_string())
    );
    assert_eq!(topic("not a url", "wss://x/t/ws"), Err("relative URL without a base".to_string()));
    assert_eq!(
        parse_topic(None, "wss://x/t/ws").map(|p| p.topic_path),
        Err("No ntfy instance is configured".to_string())
    );
}

#[test]
fn pages_must_belong_to_the_instance() {
    assert_eq!(validate_page_url(Some("https://ntfy.sh"), "https://ntfy.sh/app"), Ok(()));
    assert_eq!(validate_page_url(Some("https://h/ntfy/"), "https://h/ntfy"), Ok(()));
    assert_eq!(validate_page_url(Some("https://h/ntfy/"), "https://h/ntfy/x"), Ok(()));
    assert_eq!(
        validate_page_url(Some("https://ntfy.sh"), "http://ntfy.sh/app"),
        Err("The page does not belong to the configured ntfy instance".to_string())
    );
    assert_eq!(
        validate_page_url(Some("https://h/ntfy"), "https://h/ntfy2"),
        Err("The page is outside the configured ntfy instance path".to_string())
    );
    assert_eq!(
        validate_page_url(None, "https://h/"),
        Err("No ntfy instance is configured".to_string())
    );
}

#[test]
fn combined_url_joins_sorted_topics() {
    let i = parse_url("https://ntfy.sh").unwrap();
    let topics = vec!["a".to_string(), "b".to_string()];
    assert_eq!(combined_url_text(&i, &topics), Some("wss://ntfy.sh/a,b/ws".to_string()));
    assert_eq!(build_combined_url(&i, &topics, None), Some("wss://ntfy.sh/a,b/ws".to_string()));
    assert_eq!(
        build_combined_url(&i, &topics, Some("x y")),
        Some("wss://ntfy.sh/a,b/ws?auth=x+y".to_string())
    );
    let local = parse_url("http://localhost:8080/base/").unwrap();
    assert_eq!(
        build_combined_url(&local, &vec!["t".to_string()], None),
        Some("ws://localhost:8080/base/t/ws".to_string())
    );
    let ftp = parse_url("ftp://example.com").unwrap();
    assert_eq!(build_combined_url(&ftp, &topics, None), None);
}

#[test]
fn with_since_adds_a_non_empty_id() {
    assert_eq!(with_since("wss://ntfy.sh/a/ws", Some("abc")), "wss://ntfy.sh/a/ws?since=abc");
    assert_eq!(with_since("wss://ntfy.sh/a/ws", Some("")), "wss://ntfy.sh/a/ws");
    assert_eq!(with_since("wss://ntfy.sh/a/ws", None), "wss://ntfy.sh/a/ws");
}

#[test]
fn clean_message_tidies_text() {
    assert_eq!(clean_message("  a\n\n\n\nb \u{202f}c\n "), "a\nb  c");
    assert_eq!(clean_message("x\u{00e2}\u{0080}\u{00af}y"), "x y");
    assert_eq!(clean_message("x\u{00e2}\u{20ac}\u{00af}y"), "x y");
    let tidy = clean_message("\n\n q \n\n\n r \n\n");
    assert_eq!(tidy.trim(), tidy);
    assert!(!tidy.contains("\n\n"));
}

#[test]
fn message_events_become_notifications() {
    let mut last: Option<String> = None;
    let p = handle_event(ws_event("message", Some("m1"), Some(" hi\n\nthere ")), &mut last).unwrap();
    assert_eq!(last, Some("m1".to_string()));
    assert_eq!(p.message, "hi\nthere");
    assert_eq!(p.topic, "news");
    assert_eq!(p.title, Some("news".to_string()));
    assert_eq!(p.time, Some(7));
    assert_eq!(p.id, Some("m1".to_string()));
}

#[test]
fn other_events_only_move_the_stream_position() {
    let mut last = Some("old".to_string());
    assert!(handle_event(ws_event("message_delete", Some("d1"), Some("x")), &mut last).is_none());
    assert_eq!(last, Some("d1".to_string()));
    assert!(handle_event(ws_event("keepalive", Some("k1"), None), &mut last).is_none());
    assert_eq!(last, Some("d1".to_string()));
    assert!(handle_event(ws_event("message", Some("m2"), Some("{\"a\":1}")), &mut last).is_none());
    assert_eq!(last, Some("m2".to_string()));
    assert!(handle_event(ws_event("message", None, None), &mut last).is_none());
    assert_eq!(last, Some("m2".to_string()));
}

#[test]
fn retry_delay_backs_off_to_two_minutes() {
    let delays: Vec<u64> = (0..8).map(|i| retry_delay(i).0).collect();
    assert_eq!(delays, vec![5, 10, 20, 30, 60, 120, 120, 120]);
    assert_eq!(retry_delay(3).1, 4);
    assert_eq!(retry_delay(usize::MAX), (120, usize::MAX));
}

#[test]
fn listener_topics_stay_sorted_and_unique() {
    let mut l = BackgroundListener::new();
    l.sync("b".to_string(), None);
    l.sync("a".to_string(), Some("tok".to_string()));
    l.sync("b".to_string(), None);
    assert_eq!(l.topics(), vec!["a".to_string(), "b".to_string()]);
    l.unsync("a");
    assert_eq!(l.topics(), vec!["b".to_string()]);
    l.unsync("zzz");
    assert_eq!(l.topics(), vec!["b".to_string()]);
}

#[test]
fn unsubscribing_a_new_topic_restores_the_topics() {
    let mut l = BackgroundListener::new();
    l.sync("x".to_string(), None);
    let before = l.topics();
    l.sync("y".to_string(), None);
    l.unsync("y");
    assert_eq!(l.topics(), before);
}

#[test]
fn unload_flow_connects_once_synced() {
    let mut l = BackgroundListener::new();
    l.sync("t".to_string(), Some("tok".to_string()));
    assert!(l.connection_plan().is_none());
    l.request_unload(true);
    assert!(!l.schedule_unload());
    l.complete();
    assert!(l.schedule_unload());
    assert!(!l.schedule_unload());
    assert!(l.begin_unload());
    l.end_unload();
    let (topics, auth) = l.connection_plan().unwrap();
    assert_eq!(topics, vec!["t".to_string()]);
    assert_eq!(auth, Some("tok".to_string()));
    assert_eq!(l.install("g1".to_string()), Ok(None));
    assert!(l.is_current("g1"));
    assert_eq!(l.install("g2".to_string()), Ok(Some("g1".to_string())));
    assert!(!l.is_current("g1"));
    assert_eq!(l.stop(), Some("g2".to_string()));
    assert!(!l.is_current("g2"));
    assert_eq!(l.install("g3".to_string()), Err(()));
}

#[test]
fn unload_without_instance_counts_as_synced() {
    let mut l = BackgroundListener::new();
    l.request_unload(false);
    assert!(l.schedule_unload());
}

#[test]
fn last_topic_gone_drops_the_token() {
    let mut l = BackgroundListener::new();
    l.sync("t".to_string(), Some("tok".to_string()));
    l.request_unload(true);
    l.unsync("t");
    assert!(l.connection_plan().is_none());
    l.sync("u".to_string(), None);
    assert_eq!(l.connection_plan().unwrap().1, None);
}

#[test]
fn cleaned_messages_stay_clean() {
    for m in ["  a\n\n\n\nb \u{202f}c\n ", "\u{202f}\u{202f}x\u{00e2}\u{0080}\u{00af}\n\n\ny", "\n \n z \u{00e2}\u{20ac}\u{00af}"] {
        let once = clean_message(m);
        assert!(!once.contains('\u{202f}'));
        assert_eq!(clean_message(&once), once);
    }
}

#[test]
fn built_topic_urls_read_back() {
    let instance = "https://ntfy.example.com/base/";
    let i = parse_url(instance).unwrap();
    let built = build_combined_url(&i, &vec!["alerts_1".to_string()], Some("tok")).unwrap();
    assert_eq!(topic(instance, &built), Ok(("alerts_1".to_string(), Some("tok".to_string()))));
    let plain = build_combined_url(&i, &vec!["x-y".to_string()], None).unwrap();
    assert_eq!(topic(instance, &plain), Ok(("x-y".to_string(), None)));
}

#[test]
fn a_connection_restarts_the_backoff() {
    assert_eq!(retry_count_after_attempt(4, true), 0);
    assert_eq!(retry_delay(retry_count_after_attempt(4, true)).0, 5);
    assert_eq!(retry_count_after_attempt(4, false), 4);
    assert_eq!(retry_delay(retry_count_after_attempt(9, false)).0, 120);
}
