use xmrigcc_proxy_monitor::inventory::{
    api_documentation, default_endpoint, documented_write_routes, load_api_endpoints,
    endpoints_from_document, load_api_options, options_from_document, parse_bulleted_section,
    parse_section, write_routes_of, ApiEndpointSpec,
};

fn route(method: &str, path: &str, safe: bool) -> ApiEndpointSpec {
    ApiEndpointSpec {
        method: method.to_string(),
        path: path.to_string(),
        description: String::new(),
        safe_to_poll: safe,
    }
}

#[test]
fn parses_config_keys_from_http_api_output() {
    let options = load_api_options();

    assert!(options.iter().any(|option| option.key == "http.access-token"));
    assert!(options.iter().any(|option| option.key == "api.worker-id"));
}

#[test]
fn parses_summary_route_and_default_endpoint() {
    let endpoints = load_api_endpoints();

    assert!(
        endpoints
            .iter()
            .any(|endpoint| endpoint.method == "GET" && endpoint.path == "/1/summary")
    );
    assert_eq!(default_endpoint(&endpoints).as_deref(), Some("/1/summary"));
}

#[test]
fn extracts_documented_write_routes() {
    let write_routes = documented_write_routes();

    assert!(
        write_routes
            .iter()
            .any(|route| route.method == "POST" && route.path == "/1/config")
    );
    assert!(
        write_routes
            .iter()
            .any(|route| route.method == "POST" && route.path == "/json_rpc")
    );
}

#[test]
fn documented_routes_are_read_in_order() {
    let endpoints = load_api_endpoints();
    let listed: Vec<(&str, &str, bool)> = endpoints
        .iter()
        .map(|e| (e.method.as_str(), e.path.as_str(), e.safe_to_poll))
        .collect();
    assert_eq!(
        listed,
        vec![
            ("GET", "/1/summary", true),
            ("GET", "/1/workers", true),
            ("GET", "/1/miners", true),
            ("GET", "/1/config", true),
            ("POST", "/1/config", false),
            ("POST", "/json_rpc", false),
        ]
    );
    assert_eq!(
        endpoints[5].description,
        "JSON-RPC 2.0 endpoint for control commands."
    );
}

#[test]
fn only_get_routes_are_safe_to_poll() {
    for endpoint in load_api_endpoints() {
        assert_eq!(endpoint.safe_to_poll, endpoint.method == "GET");
    }
}

#[test]
fn write_routes_are_never_safe() {
    let write_routes = documented_write_routes();
    assert_eq!(write_routes.len(), 2);
    assert!(write_routes.iter().all(|route| !route.safe_to_poll));
}

#[test]
fn config_keys_keep_their_descriptions() {
    let options = load_api_options();
    assert_eq!(options.len(), 7);
    assert_eq!(options[0].key, "http.enabled");
    assert_eq!(options[0].description, "Enables the embedded HTTP API server.");
    assert_eq!(options[6].key, "api.worker-id");
}

#[test]
fn multi_line_descriptions_are_joined_with_spaces() {
    let doc = "Intro\nSection\n- first\n    line one\n    line two\n\n- second\nOther\n- ignored\n";
    let entries = parse_section(doc, "Section");
    assert_eq!(
        entries,
        vec![
            ("first".to_string(), "line one line two".to_string()),
            ("second".to_string(), String::new()),
        ]
    );
}

#[test]
fn section_title_may_carry_trailing_spaces() {
    let doc = "Section   \n- a\n  b\n";
    let entries = parse_section(doc, "Section");
    assert_eq!(entries, vec![("a".to_string(), "b".to_string())]);
}

#[test]
fn missing_section_gives_no_entries() {
    assert!(parse_section("nothing here\n- a\n", "Section").is_empty());
    assert!(parse_bulleted_section("No such section").is_empty());
}

#[test]
fn bulleted_section_reads_the_reference() {
    let entries = parse_bulleted_section("Implemented HTTP API routes");
    assert_eq!(entries.len(), 6);
    assert_eq!(entries[0].0, "GET /1/summary");
    assert!(api_documentation().contains("Implemented HTTP API routes"));
}

#[test]
fn default_endpoint_falls_back_to_first_safe_route() {
    let endpoints = vec![route("POST", "/1/config", false), route("GET", "/1/workers", true)];
    assert_eq!(default_endpoint(&endpoints).as_deref(), Some("/1/workers"));
    let none = vec![route("POST", "/1/config", false)];
    assert_eq!(default_endpoint(&none), None);
    assert_eq!(default_endpoint(&[]), None);
}

#[test]
fn default_endpoint_prefers_summary_route() {
    let endpoints = vec![route("GET", "/1/workers", true), route("GET", "/1/summary", true)];
    assert_eq!(default_endpoint(&endpoints).as_deref(), Some("/1/summary"));
}

#[test]
fn write_routes_need_a_leading_slash() {
    let endpoints = vec![
        route("POST", "relative", false),
        route("GET", "/1/summary", true),
        route("DELETE", "/x", false),
    ];
    let writes = write_routes_of(endpoints);
    assert_eq!(writes.len(), 1);
    assert_eq!(writes[0].path, "/x");
}

#[test]
fn default_route_is_safe_to_poll() {
    let endpoints = load_api_endpoints();
    let default = default_endpoint(&endpoints).unwrap();
    assert!(endpoints.iter().any(|e| e.safe_to_poll && e.path == default));
}

#[test]
fn windows_line_endings_are_read_like_unix_ones() {
    let doc = "Section\r\n- GET /x\r\n    about x\r\n\r\n- POST /y\r\nEnd\r\n";
    let entries = parse_section(doc, "Section");
    assert_eq!(
        entries,
        vec![
            ("GET /x".to_string(), "about x".to_string()),
            ("POST /y".to_string(), String::new()),
        ]
    );
}

#[test]
fn entry_without_a_space_documents_no_route() {
    let doc = "Implemented HTTP API routes\n- lonely\n-  PUT   /a b \n  changes a\n";
    let endpoints = endpoints_from_document(doc);
    assert_eq!(endpoints.len(), 1);
    assert_eq!(endpoints[0].method, "PUT");
    assert_eq!(endpoints[0].path, "/a b");
    assert_eq!(endpoints[0].description, "changes a");
    assert!(!endpoints[0].safe_to_poll);
    let options = options_from_document("Current JSON config keys\n- k\n  v\n");
    assert_eq!(options.len(), 1);
    assert_eq!(options[0].key, "k");
    assert_eq!(options[0].description, "v");
}

#[test]
fn documented_routes_are_well_shaped() {
    for endpoint in load_api_endpoints() {
        assert!(!endpoint.method.contains(' '));
        assert_eq!(endpoint.method.trim(), endpoint.method);
        assert_eq!(endpoint.path.trim(), endpoint.path);
    }
}
