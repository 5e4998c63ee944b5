use reef_metrics_onchain::router::{http_request, normalize_path};
use reef_metrics_onchain::state::State;

fn header<'a>(r: &'a reef_metrics_onchain::router::HttpResponsePayload, name: &str) -> Option<&'a str> {
    for (k, v) in r.headers.iter() {
        if k == name {
            return Some(v.as_str());
        }
    }
    None
}

#[test]
fn normalize_strips_query_and_scheme() {
    assert_eq!(normalize_path("/x?q=1"), "/x");
    assert_eq!(normalize_path("https://host.example/path/a?b=c"), "/path/a");
    assert_eq!(normalize_path("https://host.example"), "/");
    assert_eq!(normalize_path(""), "/");
    assert_eq!(normalize_path("/active-wallets-daily.json"), "/active-wallets-daily.json");
}

#[test]
fn unknown_path_gets_plain_404_without_certification() {
    let state = State::new(vec![1]);
    let cert = vec![1u8, 2, 3];
    let r = http_request("/unknown.json", &state, Some(&cert));
    assert_eq!(r.status_code, 404);
    assert_eq!(r.body, b"Not found".to_vec());
    assert_eq!(r.headers.len(), 1);
    assert_eq!(header(&r, "Content-Type"), Some("text/plain"));
    assert_eq!(header(&r, "IC-Certificate"), None);
}

#[test]
fn allowed_path_serves_cached_payload_with_headers() {
    let state = State::new(vec![1]);
    let r = http_request("/", &state, None);
    assert_eq!(r.status_code, 200);
    assert_eq!(r.body, state.payload.as_bytes().to_vec());
    assert_eq!(header(&r, "Content-Type"), Some("application/json"));
    assert_eq!(header(&r, "Cache-Control"), Some("public, max-age=60"));
    assert_eq!(header(&r, "IC-Certificate"), None);
}

#[test]
fn each_asset_path_serves_its_own_payload() {
    let mut state = State::new(vec![1]);
    state.payload = "pa".to_string();
    state.extrinsics_payload = "pe".to_string();
    state.inflow_payload = "pi".to_string();
    assert_eq!(http_request("/active-wallets-daily.json", &state, None).body, b"pa".to_vec());
    assert_eq!(http_request("/extrinsics-daily.json", &state, None).body, b"pe".to_vec());
    assert_eq!(http_request("/new-wallets-inflow.json", &state, None).body, b"pi".to_vec());
    assert_eq!(http_request("/", &state, None).body, b"pa".to_vec());
}

#[test]
fn certificate_header_appears_when_a_certificate_is_at_hand() {
    let state = State::new(vec![1]);
    let cert = vec![0xde, 0xad];
    let r = http_request("/extrinsics-daily.json?cache=no", &state, Some(&cert));
    assert_eq!(r.status_code, 200);
    let h = header(&r, "IC-Certificate").unwrap();
    assert!(h.starts_with("certificate=:"));
    assert!(h.contains(":, tree=:"));
}
