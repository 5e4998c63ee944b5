use reef_metrics_onchain::errors::MetricsError;
use reef_metrics_onchain::fetch::{check_status, collect_active_wallets, parse_extrinsics_count, parse_transfers_page, refresh_window, Pagination};
use reef_metrics_onchain::json::JsonValue;

fn obj(pairs: Vec<(&str, JsonValue)>) -> JsonValue {
    let mut fields: Vec<(String, JsonValue)> = Vec::new();
    for (k, v) in pairs {
        fields.push((k.to_string(), v));
    }
    JsonValue::Obj(fields)
}

fn s(v: &str) -> JsonValue {
    JsonValue::Str(v.to_string())
}

fn edge(from: &str, to: &str) -> JsonValue {
    obj(vec![(
        "node",
        obj(vec![("from", obj(vec![("id", s(from))])), ("to", obj(vec![("id", s(to))]))]),
    )])
}

fn page(edges: Vec<JsonValue>, has_next: bool, cursor: Option<&str>) -> JsonValue {
    let cursor_value = match cursor {
        Some(c) => s(c),
        None => JsonValue::Null,
    };
    obj(vec![(
        "data",
        obj(vec![(
            "transfersConnection",
            obj(vec![
                ("pageInfo", obj(vec![
                    ("hasNextPage", JsonValue::Bool(has_next)),
                    ("endCursor", cursor_value),
                ])),
                ("edges", JsonValue::Arr(edges)),
            ]),
        )]),
    )])
}

#[test]
fn single_page_collects_both_transfer_endpoints() {
    let pages = vec![page(vec![edge("a", "b"), edge("b", "c")], false, None)];
    let wallets = collect_active_wallets(&pages).unwrap();
    assert_eq!(wallets, vec!["a", "b", "c"]);
}

#[test]
fn pagination_follows_cursors_and_deduplicates() {
    let pages = vec![
        page(vec![edge("a", "b")], true, Some("cur1")),
        page(vec![edge("b", "d")], false, None),
    ];
    let wallets = collect_active_wallets(&pages).unwrap();
    assert_eq!(wallets, vec!["a", "b", "d"]);
}

#[test]
fn more_pages_without_cursor_is_a_protocol_violation() {
    let pages = vec![page(vec![edge("a", "b")], true, None)];
    assert_eq!(collect_active_wallets(&pages), Err(MetricsError::Protocol));
}

#[test]
fn embedded_error_payload_aborts_the_fetch() {
    let doc = obj(vec![("errors", JsonValue::Arr(vec![s("boom")]))]);
    assert_eq!(collect_active_wallets(&vec![doc]), Err(MetricsError::Protocol));
}

#[test]
fn missing_connection_aborts_the_fetch() {
    let doc = obj(vec![("data", obj(vec![]))]);
    assert_eq!(collect_active_wallets(&vec![doc]), Err(MetricsError::Protocol));
}

#[test]
fn pagination_stops_at_the_page_bound() {
    let mut pages: Vec<JsonValue> = Vec::new();
    for i in 0..101 {
        let cursor = format!("c{}", i);
        pages.push(page(vec![edge("a", "b")], true, Some(cursor.as_str())));
    }
    assert_eq!(collect_active_wallets(&pages), Err(MetricsError::PageLimitExceeded));
}

#[test]
fn hundred_pages_within_the_bound_succeed() {
    let mut pages: Vec<JsonValue> = Vec::new();
    for i in 0..99 {
        let cursor = format!("c{}", i);
        pages.push(page(vec![edge("a", "b")], true, Some(cursor.as_str())));
    }
    pages.push(page(vec![edge("x", "y")], false, None));
    let wallets = collect_active_wallets(&pages).unwrap();
    assert_eq!(wallets, vec!["a", "b", "x", "y"]);
}

#[test]
fn step_reports_the_cursor_to_follow() {
    let mut pag = Pagination::new();
    let more = pag.step(&page(vec![edge("a", "b")], true, Some("next"))).unwrap();
    assert!(more);
    assert_eq!(pag.cursor.as_deref(), Some("next"));
    assert_eq!(pag.pages, 1);
    let done = pag.step(&page(vec![], false, None)).unwrap();
    assert!(!done);
    assert_eq!(pag.wallets, vec!["a", "b"]);
}

#[test]
fn parse_page_skips_edges_without_nodes() {
    let p = page(vec![obj(vec![]), edge("a", "b")], false, None);
    let parsed = parse_transfers_page(&p).unwrap();
    assert_eq!(parsed.wallet_ids, vec!["a", "b"]);
    assert!(!parsed.has_next);
    assert_eq!(parsed.end_cursor, None);
}

#[test]
fn extrinsics_count_reads_the_total() {
    let doc = obj(vec![(
        "data",
        obj(vec![("extrinsicsConnection", obj(vec![("totalCount", JsonValue::UInt(77))]))]),
    )]);
    assert_eq!(parse_extrinsics_count(&doc), Ok(77));
}

#[test]
fn extrinsics_count_missing_total_is_a_protocol_violation() {
    let doc = obj(vec![("data", obj(vec![("extrinsicsConnection", obj(vec![]))]))]);
    assert_eq!(parse_extrinsics_count(&doc), Err(MetricsError::Protocol));
    let err_doc = obj(vec![("errors", JsonValue::Arr(vec![]))]);
    assert_eq!(parse_extrinsics_count(&err_doc), Err(MetricsError::Protocol));
}

#[test]
fn non_success_status_is_a_network_error() {
    assert!(check_status(200).is_ok());
    assert_eq!(check_status(500), Err(MetricsError::Network));
    assert_eq!(check_status(404), Err(MetricsError::Network));
}

#[test]
fn refresh_window_renders_the_trailing_day() {
    let w = refresh_window(1709251200000000000).unwrap();
    assert_eq!(w.to_iso, "2024-03-01T00:00:00Z");
    assert_eq!(w.from_iso, "2024-02-29T00:00:00Z");
    assert_eq!(w.day_label, "2024-03-01");
}

#[test]
fn refresh_window_succeeds_for_extreme_clock_values() {
    let at_epoch = refresh_window(0).unwrap();
    assert_eq!(at_epoch.to_iso, "1970-01-01T00:00:00Z");
    assert_eq!(at_epoch.from_iso, "1969-12-31T00:00:00Z");
    assert_eq!(at_epoch.day_label, "1970-01-01");
    let far_future = refresh_window(u64::MAX).unwrap();
    assert!(far_future.to_iso.starts_with("2554-07-21T"));
    assert_eq!(far_future.day_label, "2554-07-21");
}

#[test]
fn refresh_window_keeps_subsecond_precision() {
    let w = refresh_window(1709251200500000000).unwrap();
    let expected = time::OffsetDateTime::from_unix_timestamp(1709251200)
        .unwrap()
        .replace_nanosecond(500000000)
        .unwrap()
        .format(&time::format_description::well_known::Rfc3339)
        .unwrap();
    assert_eq!(w.to_iso, expected);
    assert!(w.from_iso.starts_with("2024-02-29T00:00:00"));
}
