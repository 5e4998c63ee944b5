use reef_metrics_onchain::errors::MetricsError;
use reef_metrics_onchain::payload::{build_payload, default_extrinsics_payload, default_inflow_payload};
use reef_metrics_onchain::series::DailyPoint;
use reef_metrics_onchain::state::{require_owner, DailySnapshotInput, State, StateV1, StateV5};

fn owner_bytes() -> Vec<u8> {
    vec![1, 2, 3]
}

fn snapshot(ts: &str, active: u64, new_wallets: u64, extrinsics: u64) -> DailySnapshotInput {
    DailySnapshotInput { ts: ts.to_string(), active, new_wallets, extrinsics }
}

#[test]
fn fresh_state_has_documented_defaults() {
    let s = State::new(owner_bytes());
    assert_eq!(s.owner, vec![1, 2, 3]);
    assert_eq!(s.source_url, "https://squid.subsquid.io/reef-explorer/graphql");
    assert_eq!(s.payload, "{\"days\":30,\"series\":[]}");
    assert_eq!(s.extrinsics_payload, "{\"days\":30,\"series\":[]}");
    assert_eq!(s.inflow_payload, "{\"asOf\":null,\"entries\":[],\"minRaw\":\"0\"}");
    assert_eq!(s.last_updated, None);
    assert!(s.series.is_empty());
    assert!(s.extrinsics_series.is_empty());
    assert!(s.prev_active_wallets.is_empty());
    assert!(s.refresh_enabled);
}

#[test]
fn owner_gate_accepts_only_the_owner() {
    assert!(require_owner(&vec![1, 2, 3], &vec![1, 2, 3]).is_ok());
    assert_eq!(require_owner(&vec![9], &vec![1, 2, 3]), Err(MetricsError::Authorization));
}

#[test]
fn mutating_calls_refuse_non_owner() {
    let mut s = State::new(owner_bytes());
    let stranger = vec![9, 9];
    assert_eq!(s.set_owner(&stranger, vec![9, 9]), Err(MetricsError::Authorization));
    assert_eq!(s.set_source_url(&stranger, "x".to_string()), Err(MetricsError::Authorization));
    assert_eq!(s.set_refresh_enabled(&stranger, false), Err(MetricsError::Authorization));
    assert!(s.ingest_daily_snapshot(&stranger, snapshot("2024-03-01", 1, 0, 1), 5).is_err());
    assert!(s.ingest_new_wallets_inflow(&stranger, "{}".to_string(), 5).is_err());
    assert_eq!(s.owner, vec![1, 2, 3]);
    assert!(s.refresh_enabled);
}

#[test]
fn owner_setters_update_fields() {
    let mut s = State::new(owner_bytes());
    let owner = owner_bytes();
    assert!(s.set_source_url(&owner, "https://example.test/graphql".to_string()).is_ok());
    assert_eq!(s.source_url, "https://example.test/graphql");
    assert!(s.set_refresh_enabled(&owner, false).is_ok());
    assert!(!s.refresh_enabled);
    assert!(s.set_owner(&owner, vec![7]).is_ok());
    assert_eq!(s.owner, vec![7]);
    assert_eq!(s.set_refresh_enabled(&owner, true), Err(MetricsError::Authorization));
}

#[test]
fn snapshot_ingested_twice_changes_nothing() {
    let mut s = State::new(owner_bytes());
    let owner = owner_bytes();
    let (payload1, updated1) = s
        .ingest_daily_snapshot(&owner, snapshot("2024-03-01", 5, 2, 10), 1000)
        .unwrap();
    assert!(updated1);
    assert_eq!(s.last_updated, Some(1000));
    assert_eq!(
        payload1,
        "{\"days\":30,\"series\":[{\"ts\":\"2024-03-01\",\"active\":5,\"new\":2}]}"
    );
    let (payload2, updated2) = s
        .ingest_daily_snapshot(&owner, snapshot("2024-03-01", 5, 2, 10), 2000)
        .unwrap();
    assert!(!updated2);
    assert_eq!(payload2, payload1);
    assert_eq!(s.last_updated, Some(1000));
}

#[test]
fn snapshots_ingested_out_of_order_serve_a_sorted_series() {
    let mut s = State::new(owner_bytes());
    let owner = owner_bytes();
    s.ingest_daily_snapshot(&owner, snapshot("2024-03-03", 3, 0, 3), 1).unwrap();
    s.ingest_daily_snapshot(&owner, snapshot("2024-03-01", 1, 0, 1), 2).unwrap();
    let (payload, _) = s.ingest_daily_snapshot(&owner, snapshot("2024-03-02", 2, 0, 2), 3).unwrap();
    assert_eq!(
        payload,
        "{\"days\":30,\"series\":[{\"ts\":\"2024-03-01\",\"active\":1,\"new\":0},{\"ts\":\"2024-03-02\",\"active\":2,\"new\":0},{\"ts\":\"2024-03-03\",\"active\":3,\"new\":0}]}"
    );
}

#[test]
fn snapshot_clears_previous_actor_window() {
    let mut s = State::new(owner_bytes());
    s.prev_active_wallets = vec!["a".to_string(), "b".to_string()];
    let owner = owner_bytes();
    let (_, updated) = s
        .ingest_daily_snapshot(&owner, snapshot("2024-03-01", 5, 2, 10), 1000)
        .unwrap();
    assert!(updated);
    assert!(s.prev_active_wallets.is_empty());
    assert_eq!(
        s.extrinsics_payload,
        "{\"days\":30,\"series\":[{\"ts\":\"2024-03-01\",\"extrinsics\":10}]}"
    );
}

#[test]
fn snapshot_older_than_a_full_window_is_trimmed_away() {
    let mut s = State::new(owner_bytes());
    let owner = owner_bytes();
    for day in 1..=30u64 {
        let ts = format!("2024-03-{:02}", day);
        s.ingest_daily_snapshot(&owner, DailySnapshotInput { ts, active: day, new_wallets: 0, extrinsics: day }, day).unwrap();
    }
    let (_, updated) = s
        .ingest_daily_snapshot(&owner, snapshot("2024-02-01", 9, 9, 9), 99)
        .unwrap();
    // The point predates the whole window, so it is dropped as the oldest of
    // thirty-one; the call still counts as an update.
    assert!(updated);
    assert_eq!(s.series.len(), 30);
    assert_eq!(s.series[0].ts, "2024-03-01");
    assert_eq!(s.last_updated, Some(99));
}

#[test]
fn inflow_ingestion_is_idempotent_on_identical_bytes() {
    let mut s = State::new(owner_bytes());
    let owner = owner_bytes();
    let body = "{\"asOf\":\"2024-03-01\",\"entries\":[],\"minRaw\":\"5\"}".to_string();
    let (stored, updated) = s.ingest_new_wallets_inflow(&owner, body.clone(), 1000).unwrap();
    assert!(updated);
    assert_eq!(stored, body);
    assert_eq!(s.last_updated, Some(1000));
    let (stored2, updated2) = s.ingest_new_wallets_inflow(&owner, body.clone(), 2000).unwrap();
    assert!(!updated2);
    assert_eq!(stored2, body);
    assert_eq!(s.last_updated, Some(1000));
}

#[test]
fn refresh_gate_serves_the_cached_payload_when_disabled() {
    let mut s = State::new(owner_bytes());
    assert_eq!(s.refresh_gate(), None);
    let owner = owner_bytes();
    s.set_refresh_enabled(&owner, false).unwrap();
    assert_eq!(s.refresh_gate(), Some(s.payload.clone()));
}

#[test]
fn refresh_records_delta_between_windows() {
    let mut s = State::new(owner_bytes());
    s.prev_active_wallets = vec!["a".to_string(), "b".to_string()];
    let active = vec!["b".to_string(), "c".to_string(), "d".to_string()];
    let payload = s.apply_refresh(active, 42, "2024-03-02".to_string(), 7000);
    assert_eq!(s.series.len(), 1);
    assert_eq!(s.series[0].ts, "2024-03-02");
    assert_eq!(s.series[0].active, 3);
    assert_eq!(s.series[0].new_wallets, 2);
    assert_eq!(s.extrinsics_series[0].extrinsics, 42);
    assert_eq!(s.last_updated, Some(7000));
    assert_eq!(s.prev_active_wallets, vec!["b", "c", "d"]);
    assert_eq!(payload, build_payload(&s.series));
}

#[test]
fn first_refresh_records_zero_delta() {
    let mut s = State::new(owner_bytes());
    let active = vec!["a".to_string(), "b".to_string()];
    s.apply_refresh(active, 1, "2024-03-01".to_string(), 1);
    assert_eq!(s.series[0].new_wallets, 0);
    assert_eq!(s.series[0].active, 2);
}

#[test]
fn status_reports_the_cached_payload_length() {
    let mut s = State::new(owner_bytes());
    s.last_updated = Some(33);
    let st = s.get_status();
    assert_eq!(st.source_url, s.source_url);
    assert_eq!(st.last_updated, Some(33));
    assert_eq!(st.payload_bytes, s.payload.len() as u64);
    assert!(st.refresh_enabled);
}

#[test]
fn oldest_schema_restores_with_default_fill() {
    let v1 = StateV1 {
        owner: vec![4],
        source_url: "https://example.test".to_string(),
        payload: "{\"days\":30,\"series\":[]}".to_string(),
        last_updated: Some(5),
    };
    let s = State::from_v1(v1);
    assert_eq!(s.owner, vec![4]);
    assert_eq!(s.source_url, "https://example.test");
    assert_eq!(s.payload, "{\"days\":30,\"series\":[]}");
    assert_eq!(s.extrinsics_payload, default_extrinsics_payload());
    assert_eq!(s.inflow_payload, default_inflow_payload());
    assert_eq!(s.last_updated, Some(5));
    assert!(s.series.is_empty());
    assert!(s.extrinsics_series.is_empty());
    assert!(s.prev_active_wallets.is_empty());
    assert!(s.refresh_enabled);
}

#[test]
fn fifth_schema_keeps_its_fields_and_defaults_inflow() {
    let v5 = StateV5 {
        owner: vec![4],
        source_url: "u".to_string(),
        payload: "p".to_string(),
        extrinsics_payload: "e".to_string(),
        last_updated: None,
        series: vec![DailyPoint { ts: "2024-03-01".to_string(), active: 1, new_wallets: 0 }],
        extrinsics_series: vec![],
        prev_active_wallets: vec!["a".to_string()],
        refresh_enabled: false,
    };
    let s = State::from_v5(v5);
    assert_eq!(s.extrinsics_payload, "e");
    assert_eq!(s.inflow_payload, default_inflow_payload());
    assert_eq!(s.series.len(), 1);
    assert_eq!(s.prev_active_wallets, vec!["a"]);
    assert!(!s.refresh_enabled);
}
