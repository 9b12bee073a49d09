use minihttp::compression::Compression;
use minihttp::config::Config;
use minihttp::conn;
use minihttp::error::ServerError;
use minihttp::metrics::ServerMetrics;
use minihttp::request::HttpMethod;
use minihttp::request::HttpRequest;
use minihttp::response::HttpResponse;
use minihttp::router::FileAction;
use minihttp::router::RouteOutcome;
use minihttp::router::Router;
use minihttp::router::file_delete_response;
use minihttp::router::file_read_response;
use minihttp::router::file_write_response;
use minihttp::router::guess_content_type;

fn zero_metrics() -> ServerMetrics {
    ServerMetrics::new()
}

fn route_done(raw: &[u8]) -> Vec<u8> {
    let req = HttpRequest::parse(raw).unwrap();
    let router = Router::new(".".to_string());
    match router.route(&req, &zero_metrics()).unwrap() {
        RouteOutcome::Done(b) => b,
        RouteOutcome::File(_) => panic!("expected a complete response"),
    }
}

#[test]
fn test_server_configuration() {
    let config = Config {
        port: 8080,
        host: "127.0.0.1".to_string(),
        directory: ".".to_string(),
        workers: 4,
        verbose: false,
    };

    assert_eq!(config.server_address(), b"127.0.0.1:8080".to_vec());
    assert!(config.validate().is_ok());
}

#[test]
fn test_configuration_rejects_zero_port_and_workers() {
    let mut config = Config {
        port: 0,
        host: "127.0.0.1".to_string(),
        directory: ".".to_string(),
        workers: 4,
        verbose: false,
    };
    assert_eq!(config.validate().unwrap_err(), "Port must be greater than 0");
    config.port = 1;
    config.workers = 0;
    assert_eq!(
        config.validate().unwrap_err(),
        "Number of workers must be greater than 0"
    );
}

#[test]
fn test_parse_reproduces_request_line() {
    let raw = b"GET /echo/hello HTTP/1.1\r\nHost: localhost\r\n\r\n";
    let req = HttpRequest::parse(raw).unwrap();
    assert_eq!(req.method, HttpMethod::GET);
    assert_eq!(req.path, b"/echo/hello".to_vec());
    assert_eq!(req.version, b"HTTP/1.1".to_vec());
    assert!(req.body.is_empty());
}

#[test]
fn test_parse_method_is_case_insensitive() {
    let raw = b"post /files/a.txt HTTP/1.1\r\nContent-Length: 2\r\n\r\nhi";
    let req = HttpRequest::parse(raw).unwrap();
    assert_eq!(req.method, HttpMethod::POST);
    assert_eq!(req.body, b"hi".to_vec());
}

#[test]
fn test_parse_rejects_short_request_line() {
    let raw = b"GET /\r\n\r\n";
    let err = HttpRequest::parse(raw).unwrap_err();
    assert_eq!(err.status_code(), 400);
    assert_eq!(err.message(), b"Invalid HTTP request: Invalid request line format".to_vec());
}

#[test]
fn test_parse_rejects_unknown_method() {
    let raw = b"BREW /pot HTTP/1.1\r\n\r\n";
    let err = HttpRequest::parse(raw).unwrap_err();
    assert_eq!(err.status_code(), 400);
    assert_eq!(err.message(), b"Invalid HTTP method: BREW".to_vec());
}

#[test]
fn test_parse_body_has_exactly_content_length_bytes() {
    let raw = b"POST /files/x HTTP/1.1\r\nContent-Length: 3\r\n\r\nabcdef";
    let req = HttpRequest::parse(raw).unwrap();
    assert_eq!(req.body, b"abc".to_vec());
}

#[test]
fn test_parse_unparsable_content_length_degrades_to_empty_body() {
    let raw = b"POST /files/x HTTP/1.1\r\nContent-Length: banana\r\n\r\nabc";
    let req = HttpRequest::parse(raw).unwrap();
    assert!(req.body.is_empty());
}

#[test]
fn test_parse_truncated_body_is_an_error() {
    let raw = b"POST /files/x HTTP/1.1\r\nContent-Length: 10\r\n\r\nabc";
    let err = HttpRequest::parse(raw).unwrap_err();
    assert_eq!(err.status_code(), 400);
}

#[test]
fn test_headers_are_lowercased_trimmed_last_wins() {
    let raw = b"GET / HTTP/1.1\r\nX-Thing:  first \r\nx-thing: second\r\nNo-Colon-Line\r\n\r\n";
    let req = HttpRequest::parse(raw).unwrap();
    assert_eq!(req.get_header(b"X-THING").unwrap(), &b"second".to_vec());
    assert!(req.get_header(b"no-colon-line").is_none());
}

#[test]
fn test_accepted_encodings_split_trim_lowercase() {
    let raw = b"GET / HTTP/1.1\r\nAccept-Encoding: GZip ,  br,zstd\r\n\r\n";
    let req = HttpRequest::parse(raw).unwrap();
    assert_eq!(
        req.get_accepted_encodings(),
        vec![b"gzip".to_vec(), b"br".to_vec(), b"zstd".to_vec()]
    );
    assert!(req.accepts_encoding(b"br"));
    assert!(!req.accepts_encoding(b"deflate"));
}

#[test]
fn test_accepts_encoding_wildcard() {
    let raw = b"GET / HTTP/1.1\r\nAccept-Encoding: *\r\n\r\n";
    let req = HttpRequest::parse(raw).unwrap();
    assert!(req.accepts_encoding(b"gzip"));
}

#[test]
fn test_body_as_string() {
    let raw = b"POST /files/x HTTP/1.1\r\nContent-Length: 5\r\n\r\nhello";
    let req = HttpRequest::parse(raw).unwrap();
    assert_eq!(req.body_as_string().unwrap(), "hello");

    let raw = b"POST /files/x HTTP/1.1\r\nContent-Length: 2\r\n\r\n\xff\xfe";
    let req = HttpRequest::parse(raw).unwrap();
    assert!(req.body_as_string().is_err());
}

#[test]
fn test_echo_without_accept_encoding() {
    let body = route_done(b"GET /echo/hello HTTP/1.1\r\n\r\n");
    assert_eq!(
        body,
        b"HTTP/1.1 200 OK\r\nContent-Type: text/plain\r\nContent-Length: 5\r\n\r\nhello".to_vec()
    );
}

#[test]
fn test_echo_with_gzip_round_trips() {
    let wire = route_done(b"GET /echo/something-long-enough HTTP/1.1\r\nAccept-Encoding: gzip\r\n\r\n");
    let text = String::from_utf8_lossy(&wire).to_string();
    assert!(text.starts_with("HTTP/1.1 200 OK\r\n"));
    assert!(text.contains("Content-Encoding: gzip\r\n"));
    let split = wire.windows(4).position(|w| w == b"\r\n\r\n").unwrap();
    let payload = &wire[split + 4..];
    assert_ne!(payload, b"something-long-enough");
    let restored = Compression::Gzip.decompress(payload).unwrap();
    assert_eq!(restored, b"something-long-enough".to_vec());
}

#[test]
fn test_user_agent_route() {
    let wire = route_done(b"GET /user-agent HTTP/1.1\r\nUser-Agent: curl/8.0\r\n\r\n");
    assert_eq!(
        wire,
        b"HTTP/1.1 200 OK\r\nContent-Type: text/plain\r\nContent-Length: 8\r\n\r\ncurl/8.0".to_vec()
    );
    let wire = route_done(b"GET /user-agent HTTP/1.1\r\n\r\n");
    let text = String::from_utf8_lossy(&wire).to_string();
    assert!(text.ends_with("\r\n\r\nUnknown"));
}

#[test]
fn test_unknown_route_is_404() {
    let wire = route_done(b"GET /nope HTTP/1.1\r\n\r\n");
    assert_eq!(
        wire,
        b"HTTP/1.1 404 Not Found\r\nContent-Type: text/plain\r\nContent-Length: 15\r\n\r\n404 - Not Found"
            .to_vec()
    );
}

#[test]
fn test_index_and_api_info_routes() {
    let wire = route_done(b"GET / HTTP/1.1\r\n\r\n");
    let text = String::from_utf8_lossy(&wire).to_string();
    assert!(text.starts_with("HTTP/1.1 200 OK\r\nContent-Type: text/html\r\n"));

    let wire = route_done(b"GET /api/info HTTP/1.1\r\n\r\n");
    let text = String::from_utf8_lossy(&wire).to_string();
    assert!(text.starts_with("HTTP/1.1 200 OK\r\nContent-Type: application/json\r\n"));
    assert!(text.contains("\"endpoints\""));
    assert!(text.contains("Structured logging"));
}

#[test]
fn test_health_and_metrics_routes() {
    let wire = route_done(b"GET /health HTTP/1.1\r\n\r\n");
    let text = String::from_utf8_lossy(&wire).to_string();
    assert!(text.starts_with("HTTP/1.1 200 OK\r\nContent-Type: application/json\r\n"));
    assert!(text.contains("\"total_requests\":0"));
    assert!(text.contains("\"error_rate\":\"0.00%\""));
    assert!(text.contains("\"status\":\"healthy\""));

    let wire = route_done(b"GET /metrics HTTP/1.1\r\n\r\n");
    let text = String::from_utf8_lossy(&wire).to_string();
    assert!(text.contains("http_requests_total 0\n"));
    assert!(text.contains("# TYPE http_active_connections gauge\n"));
}

#[test]
fn test_headers_route_dumps_json() {
    let wire = route_done(b"GET /headers HTTP/1.1\r\nX-One: 1\r\nX-Two: \"two\"\r\n\r\n");
    let text = String::from_utf8_lossy(&wire).to_string();
    assert!(text.contains("\"x-one\":\"1\""));
    assert!(text.contains("\"x-two\":\"\\\"two\\\"\""));
}

#[test]
fn test_path_traversal_guard() {
    let router = Router::new(".".to_string());
    let m = zero_metrics();
    for raw in [
        b"GET /files/..%2fetc HTTP/1.1\r\n\r\n".to_vec(),
        b"GET /files/a/b HTTP/1.1\r\n\r\n".to_vec(),
        b"GET /files/a\\b HTTP/1.1\r\n\r\n".to_vec(),
        b"DELETE /files/..secret HTTP/1.1\r\n\r\n".to_vec(),
        b"POST /files/../up HTTP/1.1\r\n\r\n".to_vec(),
    ] {
        let req = HttpRequest::parse(&raw).unwrap();
        let err = router.route(&req, &m).unwrap_err();
        assert_eq!(err.status_code(), 400);
        assert_eq!(err.message(), b"Invalid HTTP request: Invalid filename".to_vec());
    }
}

#[test]
fn test_file_upload_then_download() {
    let router = Router::new(".".to_string());
    let m = zero_metrics();
    let req = HttpRequest::parse(b"POST /files/test.txt HTTP/1.1\r\nContent-Length: 3\r\n\r\nabc")
        .unwrap();
    let (name, contents) = match router.route(&req, &m).unwrap() {
        RouteOutcome::File(FileAction::Write { name, contents }) => (name, contents),
        _ => panic!("expected a write action"),
    };
    assert_eq!(name, b"test.txt".to_vec());
    assert_eq!(contents, b"abc".to_vec());
    let wire = file_write_response(&name, contents.len());
    let text = String::from_utf8_lossy(&wire).to_string();
    assert!(text.starts_with("HTTP/1.1 201 Created\r\nContent-Type: application/json\r\n"));
    assert!(text.contains("\"filename\":\"test.txt\""));
    assert!(text.contains("\"size\":3"));

    let req = HttpRequest::parse(b"GET /files/test.txt HTTP/1.1\r\n\r\n").unwrap();
    let (name, compression) = match router.route(&req, &m).unwrap() {
        RouteOutcome::File(FileAction::Read { name, compression }) => (name, compression),
        _ => panic!("expected a read action"),
    };
    assert_eq!(name, b"test.txt".to_vec());
    assert_eq!(compression, Compression::Identity);
    let wire = file_read_response(&name, Some(b"abc".to_vec()), compression).unwrap();
    assert_eq!(
        wire,
        b"HTTP/1.1 200 OK\r\nContent-Type: text/plain\r\nContent-Length: 3\r\n\r\nabc".to_vec()
    );
}

#[test]
fn test_delete_missing_file_is_404() {
    let router = Router::new(".".to_string());
    let m = zero_metrics();
    let req = HttpRequest::parse(b"DELETE /files/missing.txt HTTP/1.1\r\n\r\n").unwrap();
    let name = match router.route(&req, &m).unwrap() {
        RouteOutcome::File(FileAction::Delete { name }) => name,
        _ => panic!("expected a delete action"),
    };
    let err = file_delete_response(&name, false).unwrap_err();
    assert_eq!(err.status_code(), 404);
    let wire = err.to_response();
    let text = String::from_utf8_lossy(&wire).to_string();
    assert!(text.starts_with("HTTP/1.1 404 Not Found\r\n"));
    assert!(text.ends_with("File not found: missing.txt"));
}

#[test]
fn test_delete_existing_file_confirms() {
    let wire = file_delete_response(b"gone.txt", true).unwrap();
    let text = String::from_utf8_lossy(&wire).to_string();
    assert!(text.starts_with("HTTP/1.1 200 OK\r\n"));
    assert!(text.contains("\"message\":\"File deleted successfully\""));
}

#[test]
fn test_file_read_missing_is_404() {
    let err = file_read_response(b"nope.bin", None, Compression::Identity).unwrap_err();
    assert_eq!(err.status_code(), 404);
}

#[test]
fn test_content_type_table() {
    assert_eq!(guess_content_type(b"a.html"), "text/html");
    assert_eq!(guess_content_type(b"a.htm"), "text/html");
    assert_eq!(guess_content_type(b"a.css"), "text/css");
    assert_eq!(guess_content_type(b"a.js"), "application/javascript");
    assert_eq!(guess_content_type(b"a.json"), "application/json");
    assert_eq!(guess_content_type(b"a.png"), "image/png");
    assert_eq!(guess_content_type(b"a.jpg"), "image/jpeg");
    assert_eq!(guess_content_type(b"a.jpeg"), "image/jpeg");
    assert_eq!(guess_content_type(b"a.gif"), "image/gif");
    assert_eq!(guess_content_type(b"a.svg"), "image/svg+xml");
    assert_eq!(guess_content_type(b"a.txt"), "text/plain");
    assert_eq!(guess_content_type(b"a.pdf"), "application/pdf");
    assert_eq!(guess_content_type(b"a.zip"), "application/zip");
    assert_eq!(guess_content_type(b"a.weird"), "application/octet-stream");
    assert_eq!(guess_content_type(b"noext"), "application/octet-stream");
    assert_eq!(guess_content_type(b".hidden"), "application/octet-stream");
    assert_eq!(guess_content_type(b"trailing."), "application/octet-stream");
}

#[test]
fn test_response_builder_wire_format() {
    let wire = HttpResponse::new(418).body(b"tea".to_vec()).build();
    assert_eq!(wire, b"HTTP/1.1 418 Unknown\r\nContent-Length: 3\r\n\r\ntea".to_vec());

    let wire = HttpResponse::ok()
        .header(b"Content-Length".to_vec(), b"0".to_vec())
        .build();
    assert_eq!(wire, b"HTTP/1.1 200 OK\r\nContent-Length: 0\r\n\r\n".to_vec());

    let wire = HttpResponse::no_content().build();
    assert_eq!(wire, b"HTTP/1.1 204 No Content\r\nContent-Length: 0\r\n\r\n".to_vec());

    let wire = HttpResponse::method_not_allowed().build();
    let text = String::from_utf8_lossy(&wire).to_string();
    assert!(text.starts_with("HTTP/1.1 405 Method Not Allowed\r\n"));

    let wire = HttpResponse::bad_request().build();
    assert!(wire.starts_with(b"HTTP/1.1 400 Bad Request\r\n"));

    let wire = HttpResponse::internal_error().build();
    assert!(wire.starts_with(b"HTTP/1.1 500 Internal Server Error\r\n"));
}

#[test]
fn test_response_compress_updates_length_and_encoding() {
    let resp = HttpResponse::ok()
        .text(b"a somewhat longer body that compresses fine".to_vec())
        .compress(Compression::Deflate)
        .unwrap();
    let wire = resp.build();
    let text = String::from_utf8_lossy(&wire).to_string();
    assert!(text.contains("Content-Encoding: deflate\r\n"));
    let split = wire.windows(4).position(|w| w == b"\r\n\r\n").unwrap();
    let payload = &wire[split + 4..];
    let stated: usize = text
        .split("Content-Length: ")
        .nth(1)
        .unwrap()
        .split('\r')
        .next()
        .unwrap()
        .parse()
        .unwrap();
    assert_eq!(stated, payload.len());
    assert_eq!(
        Compression::Deflate.decompress(payload).unwrap(),
        b"a somewhat longer body that compresses fine".to_vec()
    );
}

#[test]
fn test_error_kinds_and_messages() {
    let cases: Vec<(ServerError, u16, &str)> = vec![
        (ServerError::Io(b"boom".to_vec()), 500, "IO error: boom"),
        (ServerError::InvalidRequest(b"x".to_vec()), 400, "Invalid HTTP request: x"),
        (ServerError::InvalidMethod(b"x".to_vec()), 400, "Invalid HTTP method: x"),
        (ServerError::FileNotFound(b"x".to_vec()), 404, "File not found: x"),
        (ServerError::CompressionError(b"x".to_vec()), 500, "Compression error: x"),
        (ServerError::ParseError(b"x".to_vec()), 400, "Parse error: x"),
        (ServerError::ConfigError(b"x".to_vec()), 500, "Configuration error: x"),
        (ServerError::InternalError(b"x".to_vec()), 500, "Internal server error: x"),
    ];
    for (err, code, message) in cases {
        assert_eq!(err.status_code(), code);
        assert_eq!(err.message(), message.as_bytes().to_vec());
        let wire = err.to_response();
        let text = String::from_utf8_lossy(&wire).to_string();
        assert!(text.starts_with(&format!("HTTP/1.1 {} ", code)));
        assert!(text.ends_with(message));
        assert!(text.contains(&format!("Content-Length: {}\r\n", message.len())));
    }
}

#[test]
fn test_metrics_balance_over_many_connections() {
    let mut m = ServerMetrics::new();
    for _ in 0..50 {
        conn::connection_begin(&mut m);
        m.count_request();
        let fallback = conn::connection_epilogue(&mut m, 1, None);
        assert!(fallback.is_none());
    }
    assert_eq!(m.active_connections, 0);
    assert_eq!(m.request_count, 50);
    assert_eq!(m.error_count, 0);
    assert_eq!(m.total_response_time_ms, 50);
}

#[test]
fn test_failed_cycle_counts_error_and_builds_fallback() {
    let mut m = ServerMetrics::new();
    conn::connection_begin(&mut m);
    let err = ServerError::FileNotFound(b"gone".to_vec());
    let fallback = conn::connection_epilogue(&mut m, 7, Some(&err)).unwrap();
    assert_eq!(fallback, err.to_response());
    assert_eq!(m.active_connections, 0);
    assert_eq!(m.error_count, 1);
    assert_eq!(m.total_response_time_ms, 7);
    assert_eq!(m.request_count, 0);
}

#[test]
fn test_uptime_given() {
    let m = ServerMetrics::new();
    let now = m.start_unix_seconds + 42;
    assert_eq!(m.uptime_given(now), 42);
    assert_eq!(m.uptime_given(0), 0);
}

#[test]
fn test_shutdown_decisions() {
    assert!(conn::should_accept(false));
    assert!(!conn::should_accept(true));
    assert!(conn::drain_should_wait(3, 500, 10_000));
    assert!(!conn::drain_should_wait(0, 500, 10_000));
    assert!(!conn::drain_should_wait(3, 10_000, 10_000));
    assert!(!conn::drain_should_wait(3, 20_000, 10_000));
}

#[test]
fn test_required_total_len_framing() {
    assert_eq!(conn::required_total_len(b"GET / HTTP/1.1\r\nHost: x"), None);
    assert_eq!(conn::required_total_len(b"GET / HTTP/1.1\r\n\r\n"), Some(18));
    let head = b"POST /files/a HTTP/1.1\r\nContent-Length: 3\r\n\r\n";
    assert_eq!(conn::required_total_len(head), Some(head.len() + 3));
    let full = b"POST /files/a HTTP/1.1\r\nContent-Length: 3\r\n\r\nabc";
    assert_eq!(conn::required_total_len(full), Some(full.len()));
}

#[test]
fn test_method_names() {
    assert_eq!(HttpMethod::from_str(b"get").unwrap(), HttpMethod::GET);
    assert_eq!(HttpMethod::from_str(b"OPTIONS").unwrap(), HttpMethod::OPTIONS);
    assert_eq!(HttpMethod::GET.as_str(), "GET");
    assert_eq!(HttpMethod::PATCH.as_str(), "PATCH");
    assert!(HttpMethod::from_str(b"BREW").is_err());
}

#[test]
fn test_large_body_triggers_negotiation() {
    let body = vec![b'x'; 150];
    let mut raw = b"POST /files/big HTTP/1.1\r\nAccept-Encoding: br\r\nContent-Length: 150\r\n\r\n"
        .to_vec();
    raw.extend_from_slice(&body);
    let req = HttpRequest::parse(&raw).unwrap();
    let router = Router::new(".".to_string());
    match router.route(&req, &zero_metrics()).unwrap() {
        RouteOutcome::File(FileAction::Write { name, contents }) => {
            assert_eq!(name, b"big".to_vec());
            assert_eq!(contents, body);
        },
        _ => panic!("expected a write action"),
    }
}

#[test]
fn test_parse_lf_only_line_endings() {
    let raw = b"GET /echo/hi HTTP/1.1\nHost: x\n\nignored";
    let req = HttpRequest::parse(raw).unwrap();
    assert_eq!(req.method, HttpMethod::GET);
    assert_eq!(req.path, b"/echo/hi".to_vec());
    assert_eq!(req.get_header(b"host").unwrap(), &b"x".to_vec());
    assert!(req.body.is_empty());
}

#[test]
fn test_parse_content_length_with_plus_sign() {
    let raw = b"POST /files/x HTTP/1.1\r\nContent-Length: +3\r\n\r\nabcdef";
    let req = HttpRequest::parse(raw).unwrap();
    assert_eq!(req.body, b"abc".to_vec());
}

#[test]
fn test_parse_duplicate_content_length_last_wins() {
    let raw = b"POST /files/x HTTP/1.1\r\nContent-Length: 5\r\nContent-Length: 3\r\n\r\nabcde";
    let req = HttpRequest::parse(raw).unwrap();
    assert_eq!(req.body, b"abc".to_vec());
    assert_eq!(req.get_header(b"content-length").unwrap(), &b"3".to_vec());
}

#[test]
fn test_parse_huge_content_length_is_unparsable() {
    let raw = b"POST /files/x HTTP/1.1\r\nContent-Length: 99999999999999999999999999\r\n\r\nabc";
    let req = HttpRequest::parse(raw).unwrap();
    assert!(req.body.is_empty());
}

#[test]
fn test_identity_compress_leaves_response_untouched() {
    let wire = HttpResponse::ok()
        .text(b"plain and unencoded".to_vec())
        .compress(Compression::Identity)
        .unwrap()
        .build();
    let text = String::from_utf8_lossy(&wire).to_string();
    assert!(!text.contains("Content-Encoding"));
    assert!(text.ends_with("\r\n\r\nplain and unencoded"));
}

#[test]
fn test_build_recomputes_stale_content_length() {
    let wire = HttpResponse::ok()
        .header(b"Content-Length".to_vec(), b"5".to_vec())
        .body(b"abc".to_vec())
        .build();
    assert_eq!(wire, b"HTTP/1.1 200 OK\r\nContent-Length: 3\r\n\r\nabc".to_vec());
}
