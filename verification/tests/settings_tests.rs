use xmrigcc_proxy_monitor::settings::{
    normalize_endpoint, normalize_transport, trimmed_or_none, Settings,
};

fn sample() -> Settings {
    Settings {
        api_host: " 10.0.0.5 ".to_string(),
        api_port: 8080,
        api_transport: " HTTPS ".to_string(),
        api_access_token: "  secret  ".to_string(),
        poll_frequency_seconds: 30,
        preferred_endpoint: "1/workers".to_string(),
    }
}

#[test]
fn defaults_match_the_first_run_settings() {
    let s = Settings::default();
    assert_eq!(s.api_host, "127.0.0.1");
    assert_eq!(s.api_port, 80);
    assert_eq!(s.api_transport, "http");
    assert_eq!(s.api_access_token, "");
    assert_eq!(s.poll_frequency_seconds, 10);
    assert_eq!(s.preferred_endpoint, "/1/summary");
}

#[test]
fn base_url_uses_normalized_transport_and_trimmed_host() {
    let s = sample();
    assert_eq!(s.api_url_display(), "https://10.0.0.5:8080");
    assert_eq!(s.summary_url_display(), "https://10.0.0.5:8080/1/summary");
    assert_eq!(Settings::default().api_url_display(), "http://127.0.0.1:80");
}

#[test]
fn unknown_transport_falls_back_to_http() {
    let mut s = sample();
    s.api_transport = "ftp".to_string();
    assert_eq!(s.api_url_display(), "http://10.0.0.5:8080");
}

#[test]
fn connection_carries_trimmed_token_or_none() {
    let c = sample().api_connection();
    assert_eq!(c.base_url, "https://10.0.0.5:8080");
    assert_eq!(c.access_token.as_deref(), Some("secret"));
    let mut blank = sample();
    blank.api_access_token = "   ".to_string();
    assert_eq!(blank.api_connection().access_token, None);
}

#[test]
fn normalize_fixes_transport_and_route() {
    let mut s = sample();
    s.normalize();
    assert_eq!(s.api_transport, "https");
    assert_eq!(s.preferred_endpoint, "/1/workers");
    assert_eq!(s.api_host, " 10.0.0.5 ");
    assert_eq!(s.api_access_token, "  secret  ");
    let again = {
        let mut t = s.clone();
        t.normalize();
        t
    };
    assert_eq!(again.api_transport, s.api_transport);
    assert_eq!(again.preferred_endpoint, s.preferred_endpoint);
}

#[test]
fn transport_normalization() {
    assert_eq!(normalize_transport("HTTP", "http"), "http");
    assert_eq!(normalize_transport(" https\t", "http"), "https");
    assert_eq!(normalize_transport("httpx", "http"), "http");
    assert_eq!(normalize_transport("", "https"), "https");
}

#[test]
fn endpoint_normalization() {
    assert_eq!(normalize_endpoint(""), "/1/summary");
    assert_eq!(normalize_endpoint("   "), "/1/summary");
    assert_eq!(normalize_endpoint("1/miners"), "/1/miners");
    assert_eq!(normalize_endpoint(" /1/config "), "/1/config");
    assert_eq!(normalize_endpoint(&normalize_endpoint("x")), "/x");
}

#[test]
fn trimmed_or_none_drops_blank_text() {
    assert_eq!(trimmed_or_none("  a b "), Some("a b".to_string()));
    assert_eq!(trimmed_or_none(" \n "), None);
}
