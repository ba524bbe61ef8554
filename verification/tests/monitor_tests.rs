use xmrigcc_proxy_monitor::inventory::{load_api_endpoints, ApiEndpointSpec};
use xmrigcc_proxy_monitor::json::{render_json_value, JsonMember, JsonValue};
use xmrigcc_proxy_monitor::monitor::{
    display_value, error_json, load_failure_message, FormInput, needs_route_request, parse_or_default_u16,
    parse_or_default_u64, poll_interval_seconds, poll_outcome, save_failure_message,
    transport_options, trimmed_or_default, MonitorState, Screen,
};
use xmrigcc_proxy_monitor::settings::Settings;
use xmrigcc_proxy_monitor::summary::SummarySnapshot;
use xmrigcc_proxy_monitor::tabs::View;

fn saved() -> Settings {
    Settings {
        api_host: "10.0.0.5".to_string(),
        api_port: 8080,
        api_transport: "https".to_string(),
        api_access_token: "secret".to_string(),
        poll_frequency_seconds: 30,
        preferred_endpoint: "/1/workers".to_string(),
    }
}

fn summary_json() -> JsonValue {
    JsonValue::Object(vec![
        JsonMember { key: "id".to_string(), value: JsonValue::Str("p1".to_string()) },
        JsonMember { key: "workers".to_string(), value: JsonValue::Number("2".to_string()) },
    ])
}

fn started() -> MonitorState {
    MonitorState::initial(&saved(), true, None, load_api_endpoints())
}

#[test]
fn form_helpers() {
    assert_eq!(transport_options(), vec!["http".to_string(), "https".to_string()]);
    assert_eq!(trimmed_or_default("  h  ", "d"), "h");
    assert_eq!(trimmed_or_default(" \t ", "d"), "d");
    assert_eq!(parse_or_default_u16(" ", 80, "bad"), Ok(80));
    assert_eq!(parse_or_default_u16(" 8080 ", 80, "bad"), Ok(8080));
    assert_eq!(parse_or_default_u16("70000", 80, "bad"), Err("bad".to_string()));
    assert_eq!(parse_or_default_u16("-1", 80, "bad"), Err("bad".to_string()));
    assert_eq!(parse_or_default_u64("", 10, "bad"), Ok(10));
    assert_eq!(parse_or_default_u64("+15", 10, "bad"), Ok(15));
    assert_eq!(parse_or_default_u64("1.5", 10, "bad"), Err("bad".to_string()));
    assert_eq!(poll_interval_seconds(" 25 "), 25);
    assert_eq!(poll_interval_seconds("0"), 10);
    assert_eq!(poll_interval_seconds("soon"), 10);
    assert_eq!(display_value(Some("1")), "1");
    assert_eq!(display_value(None), "Waiting");
    assert_eq!(load_failure_message("oops"), "Failed to load settings: oops");
    assert_eq!(save_failure_message("disk"), "Failed to save settings.json: disk");
}

#[test]
fn saved_settings_fill_the_form() {
    let state = started();
    assert_eq!(state.screen, Screen::Dashboard);
    assert_eq!(state.view, View::Home);
    assert_eq!(state.connection_status, "Disconnected");
    assert_eq!(state.last_poll, "Never");
    assert_eq!(state.api_host_input, "10.0.0.5");
    assert_eq!(state.api_port_input, "8080");
    assert_eq!(state.api_transport_input, "https");
    assert_eq!(state.api_access_token_input, "secret");
    assert_eq!(state.poll_frequency_input, "30");
    assert_eq!(state.selected_endpoint, "/1/workers");
    assert!(state.notice.is_none());
    let back = state.settings_from_inputs().unwrap();
    assert_eq!(back.api_host, "10.0.0.5");
    assert_eq!(back.api_port, 8080);
    assert_eq!(back.api_transport, "https");
    assert_eq!(back.api_access_token, "secret");
    assert_eq!(back.poll_frequency_seconds, 30);
    assert_eq!(back.preferred_endpoint, "/1/workers");
    assert_eq!(state.status_tick_seconds(), Some(30));
}

#[test]
fn first_run_shows_setup_with_blank_form() {
    let state = MonitorState::initial(
        &Settings::default(),
        false,
        Some("Failed to load settings: broken".to_string()),
        load_api_endpoints(),
    );
    assert_eq!(state.screen, Screen::Setup);
    assert_eq!(state.api_host_input, "");
    assert_eq!(state.api_port_input, "");
    assert_eq!(state.selected_endpoint, "/1/summary");
    assert_eq!(
        state.notice.as_deref(),
        Some("Enter the xmrigcc-proxy HTTP API settings and verify GET /1/summary.")
    );
    assert_eq!(state.error.as_deref(), Some("Failed to load settings: broken"));
    assert_eq!(state.status_tick_seconds(), None);
    let defaults = state.settings_from_inputs().unwrap();
    assert_eq!(defaults.api_host, "127.0.0.1");
    assert_eq!(defaults.api_port, 80);
    assert_eq!(defaults.api_transport, "http");
    assert_eq!(defaults.poll_frequency_seconds, 10);
    assert_eq!(defaults.preferred_endpoint, "/1/summary");
}

#[test]
fn unsafe_preferred_route_is_replaced_by_the_default() {
    let mut settings = saved();
    settings.preferred_endpoint = "/json_rpc".to_string();
    let state = MonitorState::initial(&settings, true, None, load_api_endpoints());
    assert_eq!(state.selected_endpoint, "/1/summary");
    settings.preferred_endpoint = "/nowhere".to_string();
    let state = MonitorState::initial(&settings, true, None, Vec::new());
    assert_eq!(state.selected_endpoint, "");
}

#[test]
fn form_errors_are_reported_in_order() {
    let mut state = started();
    state.api_port_input = "port".to_string();
    state.poll_frequency_input = "x".to_string();
    assert_eq!(
        state.settings_from_inputs().unwrap_err(),
        "HTTP API port must be a valid number between 0 and 65535."
    );
    state.api_port_input = "81".to_string();
    assert_eq!(
        state.settings_from_inputs().unwrap_err(),
        "Poll frequency must be a valid number of seconds."
    );
    state.poll_frequency_input = "0".to_string();
    assert_eq!(
        state.settings_from_inputs().unwrap_err(),
        "Poll frequency must be greater than zero."
    );
    state.poll_frequency_input = "5".to_string();
    state.api_endpoints = Vec::new();
    state.selected_endpoint = "/1/workers".to_string();
    assert_eq!(
        state.settings_from_inputs().unwrap_err(),
        "No safe HTTP API routes were loaded from http-api.output."
    );
    let snapshot = state.settings_snapshot();
    assert_eq!(snapshot.api_host, "127.0.0.1");
}

#[test]
fn form_normalizes_its_inputs() {
    let mut state = started();
    state.api_host_input = "  box  ".to_string();
    state.api_transport_input = " HTTPS ".to_string();
    state.api_access_token_input = "  t  ".to_string();
    state.selected_endpoint = "/1/summary".to_string();
    let s = state.settings_from_inputs().unwrap();
    assert_eq!(s.api_host, "box");
    assert_eq!(s.api_transport, "https");
    assert_eq!(s.api_access_token, "t");
    assert_eq!(s.preferred_endpoint, "/1/summary");
    state.api_transport_input = "gopher".to_string();
    assert_eq!(state.settings_from_inputs().unwrap().api_transport, "http");
}

#[test]
fn safe_paths_and_selection() {
    let mut state = started();
    assert_eq!(
        state.safe_endpoint_paths(),
        vec!["/1/summary", "/1/workers", "/1/miners", "/1/config"]
    );
    assert_eq!(state.selected_endpoint_spec().unwrap().method, "GET");
    state.selected_endpoint = "/json_rpc".to_string();
    assert_eq!(state.selected_endpoint_spec().unwrap().method, "POST");
    state.ensure_selected_endpoint();
    assert_eq!(state.selected_endpoint, "/1/summary");
    state.ensure_selected_endpoint();
    assert_eq!(state.selected_endpoint, "/1/summary");
    state.selected_endpoint = "/nowhere".to_string();
    assert!(state.selected_endpoint_spec().is_none());
}

#[test]
fn polling_the_summary_route_needs_one_request() {
    assert!(!needs_route_request(None));
    assert!(!needs_route_request(Some("/1/summary")));
    assert!(needs_route_request(Some("/1/workers")));

    let outcome = poll_outcome(summary_json(), None, None);
    assert_eq!(outcome.notice.as_deref(), Some("GET /1/summary completed successfully."));
    assert!(outcome.captured_output.is_none());
    assert_eq!(outcome.summary.api_id.as_deref(), Some("p1"));

    let outcome = poll_outcome(summary_json(), Some("/1/summary"), None);
    assert_eq!(
        outcome.notice.as_deref(),
        Some("GET /1/summary completed successfully and its payload was captured.")
    );
    assert_eq!(
        render_json_value(outcome.captured_output.as_ref().unwrap()),
        r#"{"id":"p1","workers":2}"#
    );
}

#[test]
fn polling_another_route_reports_its_result() {
    let ok = poll_outcome(
        summary_json(),
        Some("/1/workers"),
        Some(Ok(JsonValue::Array(Vec::new()))),
    );
    assert_eq!(
        ok.notice.as_deref(),
        Some("GET /1/summary completed successfully and /1/workers was captured.")
    );
    assert!(ok.error.is_none());
    assert_eq!(render_json_value(ok.captured_output.as_ref().unwrap()), "[]");

    let failed = poll_outcome(summary_json(), Some("/1/miners"), Some(Err("timeout".to_string())));
    assert_eq!(
        failed.notice.as_deref(),
        Some("GET /1/summary completed successfully, but /1/miners failed.")
    );
    assert_eq!(failed.error.as_deref(), Some("timeout"));
    assert_eq!(
        render_json_value(failed.captured_output.as_ref().unwrap()),
        r#"{"error":"timeout","path":"/1/miners"}"#
    );
}

#[test]
fn successful_poll_connects_and_shows_the_summary() {
    let mut state = started();
    state.selected_endpoint = "/1/summary".to_string();
    let outcome = poll_outcome(summary_json(), None, None);
    state.apply_poll(outcome, "2024-01-02 03:04:05".to_string());
    assert_eq!(state.connection_status, "Connected");
    assert_eq!(state.last_poll, "2024-01-02 03:04:05");
    assert_eq!(state.summary.workers.as_deref(), Some("2"));
    assert_eq!(
        render_json_value(state.selected_output.as_ref().unwrap()),
        r#"{"id":"p1","workers":2}"#
    );
    assert_eq!(
        state.selected_output_copy_text(),
        "id: p1\nworkers: 2"
    );
}

#[test]
fn failed_poll_disconnects() {
    let mut state = started();
    state.apply_poll(poll_outcome(summary_json(), None, None), "t".to_string());
    state.apply_disconnect("request failed".to_string(), true);
    assert_eq!(state.connection_status, "Disconnected");
    assert_eq!(state.notice.as_deref(), Some("HTTP API status check failed."));
    assert_eq!(state.error.as_deref(), Some("request failed"));
    assert!(state.last_summary_json.is_none());
    assert!(state.summary.api_id.is_none());
    assert_eq!(state.last_poll, "t");
    assert_eq!(
        render_json_value(state.selected_output.as_ref().unwrap()),
        r#"{"error":"request failed"}"#
    );
    let before = render_json_value(state.selected_output.as_ref().unwrap());
    state.apply_disconnect("again".to_string(), false);
    assert_eq!(render_json_value(state.selected_output.as_ref().unwrap()), before);
}

#[test]
fn selecting_routes_changes_what_is_shown() {
    let mut state = started();
    assert_eq!(
        state.selected_output_copy_text(),
        "No API response has been captured yet. Select a route and press Poll."
    );
    state.apply_poll(poll_outcome(summary_json(), None, None), "t".to_string());
    state.select_endpoint("/1/miners".to_string());
    assert!(state.selected_output.is_none());
    assert!(state.selected_output_fields().is_empty());
    state.select_endpoint("/1/summary".to_string());
    assert_eq!(state.selected_output_fields().len(), 2);
    state.selected_output = None;
    assert_eq!(state.selected_output_value().map(render_json_value).as_deref(), Some(r#"{"id":"p1","workers":2}"#));
}

#[test]
fn manual_poll_with_bad_form_captures_the_error() {
    let mut state = started();
    state.notice = Some("old".to_string());
    state.poll_frequency_input = "0".to_string();
    assert!(state.begin_manual_poll().is_none());
    assert!(state.notice.is_none());
    assert_eq!(state.error.as_deref(), Some("Poll frequency must be greater than zero."));
    assert_eq!(
        render_json_value(state.selected_output.as_ref().unwrap()),
        r#"{"error":"Poll frequency must be greater than zero."}"#
    );
    state.poll_frequency_input = "3".to_string();
    assert_eq!(state.begin_manual_poll().unwrap().poll_frequency_seconds, 3);
    assert!(state.error.is_none());
    assert!(state.begin_refresh().is_some());
}

#[test]
fn refresh_with_bad_form_shows_the_error_only() {
    let mut state = started();
    state.api_port_input = "99999".to_string();
    assert!(state.begin_refresh().is_none());
    assert_eq!(
        state.error.as_deref(),
        Some("HTTP API port must be a valid number between 0 and 65535.")
    );
    assert!(state.selected_output.is_none());
}

#[test]
fn saving_opens_the_dashboard() {
    let mut state = MonitorState::initial(&Settings::default(), false, None, load_api_endpoints());
    state.view = View::Preferences;
    let settings = state.begin_save().unwrap();
    assert_eq!(settings.api_port, 80);
    state.finish_save(poll_outcome(summary_json(), None, None), "now".to_string());
    assert_eq!(state.screen, Screen::Dashboard);
    assert_eq!(state.view, View::Home);
    assert_eq!(state.connection_status, "Connected");
    assert_eq!(state.notice.as_deref(), Some("GET /1/summary completed successfully."));
    state.fail_save("Failed to save settings.json: denied".to_string());
    assert_eq!(state.error.as_deref(), Some("Failed to save settings.json: denied"));
}

#[test]
fn connecting_at_start_reports_the_outcome() {
    let mut state = started();
    assert!(state.begin_connect().is_ok());
    state.finish_initial_connect(Ok(()));
    assert_eq!(
        state.notice.as_deref(),
        Some("Saved settings loaded and GET /1/summary completed successfully.")
    );
    state.finish_initial_connect(Err("refused".to_string()));
    assert_eq!(
        state.notice.as_deref(),
        Some("Saved settings loaded, but GET /1/summary is not reachable.")
    );
    assert_eq!(state.error.as_deref(), Some("refused"));
}

#[test]
fn window_save_failure_keeps_an_earlier_error() {
    let mut state = started();
    state.note_window_save_failure("read-only");
    assert_eq!(state.error.as_deref(), Some("Failed to save window size: read-only"));
    state.note_window_save_failure("again");
    assert_eq!(state.error.as_deref(), Some("Failed to save window size: read-only"));
}

#[test]
fn error_value_has_one_member() {
    assert_eq!(render_json_value(&error_json("x\"y")), r#"{"error":"x\"y"}"#);
}

#[test]
fn poll_interval_of_the_form() {
    let mut state = started();
    state.poll_frequency_input = " 7 ".to_string();
    assert_eq!(state.poll_interval(), 7);
    state.poll_frequency_input = "never".to_string();
    assert_eq!(state.poll_interval(), 10);
    let _ = ApiEndpointSpec {
        method: "GET".to_string(),
        path: "/".to_string(),
        description: String::new(),
        safe_to_poll: true,
    };
    let _ = SummarySnapshot::default();
}

#[test]
fn saved_settings_load_back_unchanged() {
    let mut form = started();
    form.api_host_input = "  rig.local ".to_string();
    form.api_port_input = " 3344".to_string();
    form.api_transport_input = "HTTP".to_string();
    form.api_access_token_input = " tok ".to_string();
    form.poll_frequency_input = "+12".to_string();
    form.selected_endpoint = "/1/miners".to_string();
    let saved = form.settings_from_inputs().unwrap();
    let mut loaded = saved.clone();
    loaded.normalize();
    assert_eq!(loaded.api_transport, saved.api_transport);
    assert_eq!(loaded.preferred_endpoint, saved.preferred_endpoint);
    let reopened = MonitorState::initial(&loaded, true, None, load_api_endpoints());
    let again = reopened.settings_from_inputs().unwrap();
    assert_eq!(again.api_host, "rig.local");
    assert_eq!(again.api_port, 3344);
    assert_eq!(again.api_transport, "http");
    assert_eq!(again.api_access_token, "tok");
    assert_eq!(again.poll_frequency_seconds, 12);
    assert_eq!(again.preferred_endpoint, "/1/miners");
    assert_eq!(again.api_host, saved.api_host);
}

#[test]
fn failed_check_before_save_disconnects() {
    let mut state = started();
    state.apply_poll(poll_outcome(summary_json(), None, None), "t".to_string());
    assert_eq!(state.connection_status, "Connected");
    state.view = View::Preferences;
    let settings = state.begin_save().unwrap();
    let kept = state.check_before_save(
        settings,
        Err("request failed for http://x/1/summary: refused".to_string()),
    );
    assert!(kept.is_none());
    assert_eq!(state.connection_status, "Disconnected");
    assert_eq!(
        state.error.as_deref(),
        Some("request failed for http://x/1/summary: refused")
    );
    assert!(state.notice.is_none());
    assert!(state.last_summary_json.is_some());
    assert_eq!(state.summary.workers.as_deref(), Some("2"));
    assert_eq!(state.screen, Screen::Dashboard);
    assert_eq!(state.view, View::Preferences);
}

#[test]
fn failed_save_keeps_the_setup_screen() {
    let mut state = MonitorState::initial(&Settings::default(), false, None, load_api_endpoints());
    state.fail_save_verification("refused".to_string());
    assert_eq!(state.screen, Screen::Setup);
    state.fail_save("Failed to save settings.json: denied".to_string());
    assert_eq!(state.screen, Screen::Setup);
    state.finish_save(poll_outcome(summary_json(), None, None), "now".to_string());
    assert_eq!(state.screen, Screen::Dashboard);
    state.apply_disconnect("down".to_string(), true);
    state.fail_save_verification("down".to_string());
    assert_eq!(state.screen, Screen::Dashboard);
}

#[test]
fn form_edits_change_one_field() {
    let mut state = started();
    state.edit(FormInput::ApiHost("h".to_string()));
    state.edit(FormInput::ApiPort("1".to_string()));
    state.edit(FormInput::ApiTransport("https".to_string()));
    state.edit(FormInput::ApiAccessToken("t".to_string()));
    state.edit(FormInput::PollFrequency("2".to_string()));
    state.edit(FormInput::Tab(View::Api));
    assert_eq!(state.api_host_input, "h");
    assert_eq!(state.api_port_input, "1");
    assert_eq!(state.api_transport_input, "https");
    assert_eq!(state.api_access_token_input, "t");
    assert_eq!(state.poll_frequency_input, "2");
    assert_eq!(state.view, View::Api);
    assert_eq!(state.screen, Screen::Dashboard);
    assert_eq!(state.selected_endpoint, "/1/workers");
}

#[test]
fn successful_check_hands_back_what_to_save() {
    let mut state = MonitorState::initial(&Settings::default(), false, None, load_api_endpoints());
    let settings = state.begin_save().unwrap();
    let (to_write, outcome) = state
        .check_before_save(settings, Ok(poll_outcome(summary_json(), None, None)))
        .unwrap();
    assert_eq!(to_write.api_host, "127.0.0.1");
    assert_eq!(state.screen, Screen::Setup);
    assert_eq!(state.connection_status, "Disconnected");
    state.finish_save(outcome, "2024-05-06 07:08:09".to_string());
    assert_eq!(state.screen, Screen::Dashboard);
    assert_eq!(state.last_poll, "2024-05-06 07:08:09");
    assert_eq!(state.connection_status, "Connected");
}
