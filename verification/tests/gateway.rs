use lumina::config::{AppConfig, RouteConfig, ServerConfig};
use lumina::dispatch::dispatch;
use lumina::error::{ConfigError, LuminaError, Severity};
use lumina::header::{
    filter_request_headers, filter_response_headers, is_hop_by_hop_name, is_host_name,
    is_nominated, names_match, value_lists, Header,
};
use lumina::json::{error_body_json, frame_error_body, push_decimal};
use lumina::metrics::{init_metrics, recorder_handle};
use lumina::proxy::{
    build_target_url, classify, handle_proxy, handle_stream_failure, handle_upstream,
    relay_response, InboundRequest, ProxyAction, ProxyState, RelayAction, UpstreamOutcome,
    UpstreamResponse,
};
use lumina::route::RouteTable;
use lumina::upstream_url::is_valid_upstream;

fn route(path: &str, upstream: &str) -> RouteConfig {
    RouteConfig { path: path.to_string(), upstream: upstream.to_string(), timeout_ms: None }
}

fn header(name: &str, value: &str) -> Header {
    Header { name: name.as_bytes().to_vec(), value: value.as_bytes().to_vec() }
}

fn names(headers: &[Header]) -> Vec<String> {
    headers.iter().map(|h| String::from_utf8(h.name.clone()).unwrap()).collect()
}

fn state(routes: Vec<RouteConfig>) -> ProxyState {
    ProxyState::new(RouteTable::build(&routes).unwrap())
}

fn get(path: &str, query: Option<&str>, headers: Vec<Header>) -> InboundRequest {
    InboundRequest {
        method: "GET".to_string(),
        path: path.to_string(),
        query: query.map(|q| q.to_string()),
        headers,
    }
}

#[test]
fn config_records_hold_their_fields() {
    let config = AppConfig {
        server: ServerConfig { host: "127.0.0.1".to_string(), port: 8080 },
        routes: vec![RouteConfig {
            path: "users".to_string(),
            upstream: "http://localhost:9001".to_string(),
            timeout_ms: Some(250),
        }],
    };
    let copy = config.clone();
    assert_eq!(copy.server.host, "127.0.0.1");
    assert_eq!(copy.server.port, 8080);
    assert_eq!(copy.routes.len(), 1);
    assert_eq!(copy.routes[0].path, "users");
    assert_eq!(copy.routes[0].upstream, "http://localhost:9001");
    assert_eq!(copy.routes[0].timeout_ms, Some(250));
}

#[test]
fn upstream_addresses_are_judged_by_the_url_parser() {
    assert!(is_valid_upstream("http://localhost:9001"));
    assert!(is_valid_upstream("https://api.example.com/base"));
    assert!(is_valid_upstream("http://10.0.0.7:8080/"));
    assert!(!is_valid_upstream(""));
    assert!(!is_valid_upstream("localhost:9001/path with space"));
    assert!(!is_valid_upstream("/relative/path"));
    assert!(!is_valid_upstream("not a url"));
    assert!(!is_valid_upstream("http://"));
    assert!(!is_valid_upstream("data:text/plain,hello"));
    assert!(!is_valid_upstream("unix:/run/gateway.socket"));
}

#[test]
fn build_takes_distinct_routes_with_valid_upstreams() {
    let table = RouteTable::build(&vec![
        route("users", "http://localhost:9001"),
        route("orders", "http://localhost:9002"),
    ])
    .unwrap();
    let users = table.lookup("users").unwrap();
    assert_eq!(users.name, "users");
    assert_eq!(users.upstream_base, "http://localhost:9001");
    assert_eq!(users.timeout_ms, None);
    let orders = table.lookup("orders").unwrap();
    assert_eq!(orders.name, "orders");
    assert_eq!(orders.upstream_base, "http://localhost:9002");
    assert!(table.lookup("payments").is_none());
    assert!(table.lookup("").is_none());
    assert!(table.lookup("Users").is_none());
}

#[test]
fn build_of_no_routes_is_an_empty_table() {
    let table = RouteTable::build(&Vec::new()).unwrap();
    assert!(table.lookup("users").is_none());
}

#[test]
fn build_keeps_the_timeout_of_a_route() {
    let table = RouteTable::build(&vec![RouteConfig {
        path: "slow".to_string(),
        upstream: "http://localhost:9003".to_string(),
        timeout_ms: Some(1500),
    }])
    .unwrap();
    assert_eq!(table.lookup("slow").unwrap().timeout_ms, Some(1500));
}

#[test]
fn build_refuses_a_repeated_route_name() {
    let built = RouteTable::build(&vec![
        route("users", "http://localhost:9001"),
        route("orders", "http://localhost:9002"),
        route("users", "http://localhost:9003"),
    ]);
    match built {
        Err(ConfigError::DuplicateRoute(name)) => assert_eq!(name, "users"),
        _ => panic!("a repeated route name must be refused"),
    }
}

#[test]
fn build_refuses_a_repeated_name_even_with_the_same_upstream() {
    let built = RouteTable::build(&vec![
        route("users", "http://localhost:9001"),
        route("users", "http://localhost:9001"),
    ]);
    assert!(matches!(built, Err(ConfigError::DuplicateRoute(_))));
}

#[test]
fn build_refuses_an_upstream_that_does_not_parse() {
    let built = RouteTable::build(&vec![
        route("users", "http://localhost:9001"),
        route("orders", "not a url"),
    ]);
    match built {
        Err(ConfigError::InvalidUpstream(name)) => assert_eq!(name, "orders"),
        _ => panic!("an upstream that is no URL must be refused"),
    }
}

#[test]
fn build_refuses_an_upstream_without_host() {
    let built = RouteTable::build(&vec![route("files", "data:text/plain,hello")]);
    match built {
        Err(ConfigError::InvalidUpstream(name)) => assert_eq!(name, "files"),
        _ => panic!("an upstream without host must be refused"),
    }
}

#[test]
fn build_reports_the_first_entry_that_fails() {
    let built = RouteTable::build(&vec![
        route("users", "http://localhost:9001"),
        route("orders", "::"),
        route("users", "http://localhost:9003"),
    ]);
    match built {
        Err(ConfigError::InvalidUpstream(name)) => assert_eq!(name, "orders"),
        _ => panic!("the second entry fails first"),
    }
    let built = RouteTable::build(&vec![
        route("users", "http://localhost:9001"),
        route("users", "::"),
    ]);
    assert!(matches!(built, Err(ConfigError::DuplicateRoute(_))));
}

#[test]
fn lookup_does_not_depend_on_the_order_of_the_records() {
    let a = RouteTable::build(&vec![
        route("users", "http://localhost:9001"),
        route("orders", "http://localhost:9002"),
        route("stock", "http://localhost:9003"),
    ])
    .unwrap();
    let b = RouteTable::build(&vec![
        route("stock", "http://localhost:9003"),
        route("users", "http://localhost:9001"),
        route("orders", "http://localhost:9002"),
    ])
    .unwrap();
    for name in ["users", "orders", "stock"] {
        assert_eq!(a.lookup(name).unwrap().upstream_base, b.lookup(name).unwrap().upstream_base);
    }
    assert!(a.lookup("other").is_none());
    assert!(b.lookup("other").is_none());
}

#[test]
fn config_error_describes_itself() {
    assert_eq!(
        ConfigError::DuplicateRoute("users".to_string()).describe(),
        "duplicate route 'users'"
    );
    assert_eq!(
        ConfigError::InvalidUpstream("orders".to_string()).describe(),
        "invalid upstream for route 'orders'"
    );
}

#[test]
fn header_names_match_without_regard_to_case() {
    assert!(names_match(&b"Host".to_vec(), &b"host".to_vec()));
    assert!(names_match(&b"HOST".to_vec(), &b"hOsT".to_vec()));
    assert!(names_match(&Vec::new(), &Vec::new()));
    assert!(!names_match(&b"host".to_vec(), &b"hosts".to_vec()));
    assert!(!names_match(&b"host".to_vec(), &b"hast".to_vec()));
    assert!(!names_match(&b"a@".to_vec(), &b"a`".to_vec()));
    assert!(!names_match(&b"a[".to_vec(), &b"a{".to_vec()));
    assert!(is_host_name(&b"Host".to_vec()));
    assert!(is_host_name(&b"host".to_vec()));
    assert!(!is_host_name(&b"x-host".to_vec()));
    assert!(!is_host_name(&b"".to_vec()));
}

#[test]
fn hop_by_hop_names_are_known() {
    for name in [
        "Connection",
        "Keep-Alive",
        "Proxy-Authenticate",
        "Proxy-Authorization",
        "TE",
        "Trailer",
        "Transfer-Encoding",
        "Upgrade",
        "transfer-encoding",
        "KEEP-ALIVE",
    ] {
        assert!(is_hop_by_hop_name(&name.as_bytes().to_vec()), "{}", name);
    }
    for name in ["Content-Type", "Content-Length", "Host", "Set-Cookie", "", "T", "Trailers"] {
        assert!(!is_hop_by_hop_name(&name.as_bytes().to_vec()), "{}", name);
    }
}

#[test]
fn request_filter_passes_everything_when_host_is_absent() {
    let headers = vec![header("Accept", "*/*"), header("X-Trace", "1"), header("Accept", "a/b")];
    let kept = filter_request_headers(&headers);
    assert_eq!(names(&kept), vec!["Accept", "X-Trace", "Accept"]);
    assert_eq!(kept[0].value, b"*/*".to_vec());
    assert_eq!(kept[1].value, b"1".to_vec());
    assert_eq!(kept[2].value, b"a/b".to_vec());
}

#[test]
fn request_filter_removes_host_in_any_case_and_number() {
    let headers = vec![
        header("Host", "gateway.example"),
        header("Accept", "*/*"),
        header("hOsT", "other.example"),
        header("X-Forwarded-Host", "gateway.example"),
        header("HOST", "third.example"),
        header("Connection", "keep-alive"),
    ];
    let kept = filter_request_headers(&headers);
    assert_eq!(names(&kept), vec!["Accept", "X-Forwarded-Host", "Connection"]);
    assert!(kept.iter().all(|h| !h.name.eq_ignore_ascii_case(b"host")));
}

#[test]
fn request_filter_of_nothing_is_nothing() {
    assert!(filter_request_headers(&Vec::new()).is_empty());
    assert!(filter_request_headers(&vec![header("Host", "a")]).is_empty());
}

#[test]
fn response_filter_removes_hop_by_hop_headers() {
    let headers = vec![
        header("Content-Type", "application/json"),
        header("Connection", "close"),
        header("Set-Cookie", "a=1"),
        header("transfer-encoding", "chunked"),
        header("Keep-Alive", "timeout=5"),
        header("Set-Cookie", "b=2"),
        header("Host", "kept.example"),
    ];
    let kept = filter_response_headers(&headers);
    assert_eq!(names(&kept), vec!["Content-Type", "Set-Cookie", "Set-Cookie", "Host"]);
    assert_eq!(kept[1].value, b"a=1".to_vec());
    assert_eq!(kept[2].value, b"b=2".to_vec());
}

#[test]
fn list_values_name_their_items() {
    let lists = |value: &str, name: &str| value_lists(&value.as_bytes().to_vec(), &name.as_bytes().to_vec());
    assert!(lists("close", "close"));
    assert!(lists("Close", "close"));
    assert!(lists("keep-alive, X-Trace", "x-trace"));
    assert!(lists("keep-alive,X-Trace", "X-Trace"));
    assert!(lists(" \t keep-alive \t ,  x-trace  ", "keep-alive"));
    assert!(lists(",,a,,", "a"));
    assert!(lists("a,b,c", "b"));
    assert!(lists("a,b,c", "c"));
    assert!(lists("a b", "a b"));
    assert!(!lists("", "a"));
    assert!(!lists("a,b,c", "d"));
    assert!(!lists("ab", "a"));
    assert!(!lists("a b", "a"));
    assert!(!lists("keep-alive", "keep"));
    assert!(!lists("a,b", "a,b"));
    assert!(!lists(", ,", ""));
    assert!(!lists("", ""));
    assert!(!lists("a\nb", "a"));
}

#[test]
fn connection_headers_nominate_names() {
    let headers = vec![
        header("Content-Type", "x-trace"),
        header("connection", "close, X-Trace"),
        header("CONNECTION", "x-session"),
    ];
    let named = |name: &str| is_nominated(&headers, &name.as_bytes().to_vec());
    assert!(named("x-trace"));
    assert!(named("X-Session"));
    assert!(named("close"));
    assert!(!named("content-type"));
    assert!(!named("connection"));
    assert!(!named(""));
    assert!(!is_nominated(&Vec::new(), &b"close".to_vec()));
}

#[test]
fn response_filter_removes_what_connection_names() {
    let headers = vec![
        header("X-Trace", "abc"),
        header("Content-Type", "text/plain"),
        header("X-Session", "1"),
        header("Connection", "x-trace , X-SESSION"),
        header("x-trace", "def"),
        header("X-Tracer", "kept"),
    ];
    let kept = filter_response_headers(&headers);
    assert_eq!(names(&kept), vec!["Content-Type", "X-Tracer"]);
    let kept = filter_request_headers(&headers);
    assert_eq!(kept.len(), headers.len());
}

#[test]
fn interrupted_stream_is_an_error_event() {
    let event = handle_stream_failure("connection closed before message completed");
    assert_eq!(event.severity, Severity::Error);
    assert_eq!(event.message, "Response stream interrupted");
    assert_eq!(event.context, "connection closed before message completed");
}

#[test]
fn dispatch_splits_route_and_remainder() {
    let parts = dispatch("/api/users/42").unwrap();
    assert_eq!(parts.route, "users");
    assert_eq!(parts.remainder_path, "/42");
    let parts = dispatch("/api/orders/2024/open/").unwrap();
    assert_eq!(parts.route, "orders");
    assert_eq!(parts.remainder_path, "/2024/open/");
    let parts = dispatch("/api/a//").unwrap();
    assert_eq!(parts.route, "a");
    assert_eq!(parts.remainder_path, "//");
    let parts = dispatch("/api/caf\u{e9}/\u{fc}ber").unwrap();
    assert_eq!(parts.route, "caf\u{e9}");
    assert_eq!(parts.remainder_path, "/\u{fc}ber");
}

#[test]
fn dispatch_rejects_paths_outside_the_template() {
    for path in [
        "",
        "/",
        "/api",
        "/api/",
        "/api/users",
        "/api/users/",
        "/api//x",
        "/apx/users/42",
        "api/users/42",
        "/API/users/42",
        "/health",
        "/metrics",
        "/v1/api/users/42",
    ] {
        assert!(dispatch(path).is_none(), "{}", path);
    }
}

#[test]
fn target_url_is_base_then_remainder_then_query() {
    assert_eq!(build_target_url("http://localhost:9001", "/42", None), "http://localhost:9001/42");
    assert_eq!(
        build_target_url("http://localhost:9001", "/search", Some("q=a&b=c")),
        "http://localhost:9001/search?q=a&b=c"
    );
    assert_eq!(build_target_url("http://h/base", "/x", Some("")), "http://h/base/x?");
    assert_eq!(build_target_url("", "", None), "");
}

#[test]
fn forward_builds_the_outbound_request() {
    let state = state(vec![RouteConfig {
        path: "users".to_string(),
        upstream: "http://localhost:9001".to_string(),
        timeout_ms: Some(300),
    }]);
    let headers = vec![header("Host", "gateway"), header("Accept", "*/*")];
    let out = state.forward("users", "POST", "/42/edit", Some("dry=1"), &headers).unwrap();
    assert_eq!(out.method, "POST");
    assert_eq!(out.url, "http://localhost:9001/42/edit?dry=1");
    assert_eq!(names(&out.headers), vec!["Accept"]);
    assert_eq!(out.timeout_ms, Some(300));
}

#[test]
fn forward_of_an_absent_route_is_route_not_found() {
    let state = state(vec![route("users", "http://localhost:9001")]);
    for name in ["unknown", "", "Users", "users/"] {
        match state.forward(name, "GET", "/x", None, &Vec::new()) {
            Err(LuminaError::RouteNotFound(route)) => assert_eq!(route, name),
            _ => panic!("an absent route must give RouteNotFound"),
        }
    }
}

#[test]
fn get_of_a_known_route_is_sent_and_relayed() {
    let state = state(vec![route("users", "http://localhost:9001")]);
    let request = get("/api/users/42", None, vec![header("Host", "gateway.example")]);
    let out = match handle_proxy(&state, &request) {
        ProxyAction::Send(out) => out,
        _ => panic!("a known route must be forwarded"),
    };
    assert_eq!(out.method, "GET");
    assert_eq!(out.url, "http://localhost:9001/42");
    assert!(out.headers.is_empty());
    let upstream = UpstreamResponse {
        status: 200,
        headers: vec![header("Content-Type", "application/json"), header("Connection", "close")],
    };
    match handle_upstream(UpstreamOutcome::Responded(upstream)) {
        RelayAction::Relay(response) => {
            assert_eq!(response.status, 200);
            assert_eq!(names(&response.headers), vec!["Content-Type"]);
            assert_eq!(response.headers[0].value, b"application/json".to_vec());
        },
        _ => panic!("an answer of the upstream must be relayed"),
    }
}

#[test]
fn get_of_an_unknown_route_is_answered_with_404() {
    let state = state(vec![route("users", "http://localhost:9001")]);
    let request = get("/api/unknown/x", None, Vec::new());
    let response = match handle_proxy(&state, &request) {
        ProxyAction::Respond(response) => response,
        _ => panic!("an unknown route must be answered, not forwarded"),
    };
    assert_eq!(response.status, 404);
    assert_eq!(response.body.status, 404);
    assert_eq!(response.body.error, "No upstream configured for route 'unknown'");
    assert_eq!(response.log.severity, Severity::Error);
    let text = error_body_json(&response.body).unwrap();
    assert_eq!(text, "{\"error\":\"No upstream configured for route 'unknown'\",\"status\":404}");
    let value: serde_json::Value = serde_json::from_str(&text).unwrap();
    let object = value.as_object().unwrap();
    assert_eq!(object.len(), 2);
    assert_eq!(object["error"].as_str(), Some("No upstream configured for route 'unknown'"));
    assert_eq!(object["status"].as_u64(), Some(404));
}

#[test]
fn path_outside_the_template_is_unrouted() {
    let state = state(vec![route("users", "http://localhost:9001")]);
    for path in ["/health", "/api/users", "/api/users/", "/"] {
        assert!(matches!(handle_proxy(&state, &get(path, None, Vec::new())), ProxyAction::Unrouted));
    }
}

#[test]
fn query_is_appended_verbatim() {
    let state = state(vec![route("users", "http://localhost:9001")]);
    let request = get("/api/users/search", Some("name=a%20b&x=/api/users/"), Vec::new());
    match handle_proxy(&state, &request) {
        ProxyAction::Send(out) => {
            assert_eq!(out.url, "http://localhost:9001/search?name=a%20b&x=/api/users/")
        },
        _ => panic!("a known route must be forwarded"),
    }
}

#[test]
fn connection_reset_is_answered_with_502_and_logged() {
    let cause = "connection reset by peer (os error 104)";
    let response = match handle_upstream(UpstreamOutcome::NetworkFailure(cause.to_string())) {
        RelayAction::Respond(response) => response,
        _ => panic!("a network failure must be answered with an error"),
    };
    assert_eq!(response.status, 502);
    assert_eq!(response.body.status, 502);
    assert_eq!(response.body.error, "Upstream error");
    assert!(!response.body.error.contains(cause));
    assert_eq!(response.log.severity, Severity::Error);
    assert_eq!(response.log.message, "Request failed");
    assert_eq!(
        response.log.context,
        "Upstream service unreachable: connection reset by peer (os error 104)"
    );
    assert!(response.log.context.contains(cause));
}

#[test]
fn every_error_has_its_status_and_message() {
    let cases = vec![
        (
            LuminaError::ConfigError(ConfigError::DuplicateRoute("users".to_string())),
            500,
            "Configuration error",
            "Configuration error: duplicate route 'users'",
        ),
        (
            LuminaError::ConfigError(ConfigError::InvalidUpstream("users".to_string())),
            500,
            "Configuration error",
            "Configuration error: invalid upstream for route 'users'",
        ),
        (
            LuminaError::RouteNotFound("stock".to_string()),
            404,
            "No upstream configured for route 'stock'",
            "Invalid route mapping: No upstream configured for route 'stock'",
        ),
        (
            LuminaError::UpstreamUnreachable("timed out".to_string()),
            502,
            "Upstream error",
            "Upstream service unreachable: timed out",
        ),
        (
            LuminaError::BodyReadFailure("early eof".to_string()),
            500,
            "Internal server error",
            "Internal Server Error: Failed to read body: early eof",
        ),
        (
            LuminaError::ResponseBuildFailure("bad header".to_string()),
            500,
            "Internal server error",
            "Internal Server Error: Failed to build response: bad header",
        ),
    ];
    for (error, status, message, detail) in cases {
        assert_eq!(error.status_code(), status);
        assert_eq!(error.message(), message);
        assert_eq!(error.to_string(), detail);
        let response = error.into_response();
        assert_eq!(response.status, status);
        assert_eq!(response.body.status, status);
        assert_eq!(response.body.error, message);
        assert_eq!(response.log.severity, Severity::Error);
        assert_eq!(response.log.message, "Request failed");
        assert_eq!(response.log.context, detail);
    }
}

#[test]
fn outcomes_are_classified_one_to_one() {
    let answered = UpstreamOutcome::Responded(UpstreamResponse { status: 204, headers: Vec::new() });
    assert!(matches!(classify(answered), Ok(UpstreamResponse { status: 204, .. })));
    assert!(matches!(
        classify(UpstreamOutcome::NetworkFailure("refused".to_string())),
        Err(LuminaError::UpstreamUnreachable(cause)) if cause == "refused"
    ));
    assert!(matches!(
        classify(UpstreamOutcome::BodyReadFailure("eof".to_string())),
        Err(LuminaError::BodyReadFailure(cause)) if cause == "eof"
    ));
    assert!(matches!(
        classify(UpstreamOutcome::ResponseBuildFailure("header".to_string())),
        Err(LuminaError::ResponseBuildFailure(cause)) if cause == "header"
    ));
}

#[test]
fn failures_after_sending_are_answered_with_500() {
    for outcome in [
        UpstreamOutcome::BodyReadFailure("eof".to_string()),
        UpstreamOutcome::ResponseBuildFailure("header".to_string()),
    ] {
        match handle_upstream(outcome) {
            RelayAction::Respond(response) => {
                assert_eq!(response.status, 500);
                assert_eq!(response.body.error, "Internal server error");
            },
            _ => panic!("a failure must be answered with an error"),
        }
    }
}

#[test]
fn relay_keeps_the_status_of_the_upstream() {
    for status in [100u16, 200, 301, 404, 500, 599] {
        let out = relay_response(&UpstreamResponse {
            status,
            headers: vec![header("Upgrade", "h2c"), header("ETag", "\"x\"")],
        });
        assert_eq!(out.status, status);
        assert_eq!(names(&out.headers), vec!["ETag"]);
    }
}

#[test]
fn decimal_is_written_without_leading_zeros() {
    for (n, text) in [(0u16, "0"), (7, "7"), (10, "10"), (404, "404"), (502, "502"), (65535, "65535")] {
        let mut out = String::from("n=");
        push_decimal(&mut out, n);
        assert_eq!(out, format!("n={}", text));
    }
}

#[test]
fn error_body_is_framed_around_the_quoted_message() {
    assert_eq!(frame_error_body("\"x\"", 500), "{\"error\":\"x\",\"status\":500}");
    assert_eq!(frame_error_body("\"\"", 0), "{\"error\":\"\",\"status\":0}");
}

#[test]
fn error_body_quotes_what_json_must_quote() {
    let error = LuminaError::RouteNotFound("a\"b\\c\n\u{1}\u{e9}".to_string());
    let response = error.into_response();
    let text = error_body_json(&response.body).unwrap();
    assert_eq!(
        text,
        "{\"error\":\"No upstream configured for route 'a\\\"b\\\\c\\n\\u0001\u{e9}'\",\"status\":404}"
    );
    let value: serde_json::Value = serde_json::from_str(&text).unwrap();
    assert_eq!(value["error"].as_str(), Some(response.body.error.as_str()));
    assert_eq!(value["status"].as_u64(), Some(404));
}

#[test]
fn recorder_is_installed_once() {
    let first = init_metrics();
    assert!(first.is_some());
    let rendered = first.unwrap().render();
    assert!(rendered.is_empty() || rendered.ends_with('\n'));
    assert!(init_metrics().is_none());
}

#[test]
fn handle_is_taken_out_of_the_builders_answer() {
    let recorder = metrics_exporter_prometheus::PrometheusBuilder::new().build_recorder();
    assert!(recorder_handle(Ok(recorder.handle())).is_some());
    let refused = metrics_exporter_prometheus::BuildError::EmptyBucketsOrQuantiles;
    assert!(recorder_handle(Err(refused)).is_none());
}

#[test]
fn every_error_body_can_be_written() {
    for error in [
        LuminaError::RouteNotFound(String::new()),
        LuminaError::RouteNotFound("\u{0}\u{7f}\u{ffff}\u{10ffff}\"\\/".to_string()),
        LuminaError::UpstreamUnreachable("x".to_string()),
        LuminaError::BodyReadFailure("x".to_string()),
        LuminaError::ResponseBuildFailure("x".to_string()),
        LuminaError::ConfigError(ConfigError::DuplicateRoute("x".to_string())),
    ] {
        let response = error.into_response();
        let text = error_body_json(&response.body).unwrap();
        let value: serde_json::Value = serde_json::from_str(&text).unwrap();
        assert_eq!(value["error"].as_str(), Some(response.body.error.as_str()));
        assert_eq!(value["status"].as_u64(), Some(u64::from(response.status)));
    }
}

#[test]
fn dispatch_reads_the_path_as_written() {
    let parts = dispatch("/api/us%65rs/a%2Fb%20c").unwrap();
    assert_eq!(parts.route, "us%65rs");
    assert_eq!(parts.remainder_path, "/a%2Fb%20c");
    let state = state(vec![route("users", "http://localhost:9001")]);
    let request = get("/api/us%65rs/1", None, Vec::new());
    match handle_proxy(&state, &request) {
        ProxyAction::Respond(response) => {
            assert_eq!(response.status, 404);
            assert_eq!(response.body.error, "No upstream configured for route 'us%65rs'");
        },
        _ => panic!("a route is found only under its name as written"),
    }
}
