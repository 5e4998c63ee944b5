use reef_metrics_onchain::payload::{build_extrinsics_payload, build_payload, default_extrinsics_payload, default_inflow_payload, default_payload};
use reef_metrics_onchain::series::{daily_series_is_wf, ext_series_is_wf, upsert_daily_point, upsert_extrinsics_point, DailyExtrinsicsPoint, DailyPoint};

fn dp(ts: &str, active: u64, new_wallets: u64) -> DailyPoint {
    DailyPoint { ts: ts.to_string(), active, new_wallets }
}

fn ep(ts: &str, extrinsics: u64) -> DailyExtrinsicsPoint {
    DailyExtrinsicsPoint { ts: ts.to_string(), extrinsics }
}

#[test]
fn upsert_sorts_any_ingestion_order() {
    let mut series: Vec<DailyPoint> = Vec::new();
    upsert_daily_point(&mut series, dp("2024-03-03", 3, 0));
    upsert_daily_point(&mut series, dp("2024-03-01", 1, 0));
    upsert_daily_point(&mut series, dp("2024-03-02", 2, 0));
    let dates: Vec<&str> = series.iter().map(|p| p.ts.as_str()).collect();
    assert_eq!(dates, vec!["2024-03-01", "2024-03-02", "2024-03-03"]);
    assert!(daily_series_is_wf(&series));
}

#[test]
fn upsert_replaces_same_date() {
    let mut series: Vec<DailyPoint> = Vec::new();
    upsert_daily_point(&mut series, dp("2024-03-01", 1, 0));
    upsert_daily_point(&mut series, dp("2024-03-01", 7, 2));
    assert_eq!(series.len(), 1);
    assert_eq!(series[0].active, 7);
    assert_eq!(series[0].new_wallets, 2);
}

#[test]
fn window_drops_oldest_beyond_thirty() {
    let mut series: Vec<DailyPoint> = Vec::new();
    for day in 1..=31u64 {
        let ts = format!("2024-03-{:02}", day);
        upsert_daily_point(&mut series, DailyPoint { ts, active: day, new_wallets: 0 });
    }
    assert_eq!(series.len(), 30);
    assert_eq!(series[0].ts, "2024-03-02");
    assert_eq!(series[29].ts, "2024-03-31");
    assert!(daily_series_is_wf(&series));
}

#[test]
fn extrinsics_window_drops_oldest_beyond_thirty() {
    let mut series: Vec<DailyExtrinsicsPoint> = Vec::new();
    for day in 1..=31u64 {
        let ts = format!("2024-01-{:02}", day);
        upsert_extrinsics_point(&mut series, DailyExtrinsicsPoint { ts, extrinsics: day });
    }
    assert_eq!(series.len(), 30);
    assert_eq!(series[0].ts, "2024-01-02");
    assert!(ext_series_is_wf(&series));
}

#[test]
fn wf_check_rejects_unsorted_series() {
    let series = vec![dp("2024-03-02", 1, 0), dp("2024-03-01", 2, 0)];
    assert!(!daily_series_is_wf(&series));
    let dup = vec![dp("2024-03-01", 1, 0), dp("2024-03-01", 2, 0)];
    assert!(!daily_series_is_wf(&dup));
}

#[test]
fn payload_renders_exact_json() {
    let series = vec![dp("2024-03-01", 5, 2)];
    assert_eq!(
        build_payload(&series),
        "{\"days\":30,\"series\":[{\"ts\":\"2024-03-01\",\"active\":5,\"new\":2}]}"
    );
    let two = vec![dp("2024-03-01", 5, 2), dp("2024-03-02", 6, 1)];
    assert_eq!(
        build_payload(&two),
        "{\"days\":30,\"series\":[{\"ts\":\"2024-03-01\",\"active\":5,\"new\":2},{\"ts\":\"2024-03-02\",\"active\":6,\"new\":1}]}"
    );
}

#[test]
fn extrinsics_payload_renders_exact_json() {
    let series = vec![ep("2024-03-01", 10)];
    assert_eq!(
        build_extrinsics_payload(&series),
        "{\"days\":30,\"series\":[{\"ts\":\"2024-03-01\",\"extrinsics\":10}]}"
    );
}

#[test]
fn default_payloads_render_exact_json() {
    assert_eq!(default_payload(), "{\"days\":30,\"series\":[]}");
    assert_eq!(default_extrinsics_payload(), "{\"days\":30,\"series\":[]}");
    assert_eq!(default_inflow_payload(), "{\"asOf\":null,\"entries\":[],\"minRaw\":\"0\"}");
}

#[test]
fn payload_escapes_date_strings() {
    let series = vec![dp("20\"24\\x\n", 1, 0)];
    assert_eq!(
        build_payload(&series),
        "{\"days\":30,\"series\":[{\"ts\":\"20\\\"24\\\\x\\n\",\"active\":1,\"new\":0}]}"
    );
}
