use veloserve::cgi::{parse_cgi_output, CgiResponse};
use veloserve::config::{Config, ConfigError, SslConfig};
use veloserve::env::{build_cgi_env, CgiRequest};
use veloserve::executor::{php_command_args, process_result, ExecError, ProcessOutcome};
use veloserve::orchestrator::{can_enable_tls, version_line, PoolState};
use veloserve::paths::{is_php_file, php_path_candidates, resolve_path, resolve_php_path_info};
use veloserve::pool::{Admission, ExecutionGate, WorkerPool, QUEUE_CAPACITY};
use veloserve::protocol::{decode_frame, direct_response, encode_frame, payload_length, FrameError, PhpRequest, PhpResponse, RequestType};
use veloserve::sapi::{Capture, EmbedRequestInfo, HeaderOp, PhpEmbedConfig, RequestContext};
use veloserve::cache::parse_size;
use veloserve::static_files::StaticFileHandler;
use veloserve::vars::VarMap;
use veloserve::worker::{run_response, Config as WorkerConfig};

fn request(headers: Vec<(&str, &str)>) -> CgiRequest {
    CgiRequest {
        method: "POST".to_string(),
        uri: "/index.php?a=1".to_string(),
        query: "a=1".to_string(),
        protocol: "HTTP/1.1".to_string(),
        headers: headers
            .into_iter()
            .map(|(n, v)| (n.to_string(), v.to_string()))
            .collect(),
        remote_addr: None,
        remote_port: None,
    }
}

#[test]
fn host_header_gives_server_name_and_port() {
    let env = build_cgi_env(
        &request(vec![("host", "example.com:8080")]),
        "/site/index.php",
        "/site",
        "/index.php",
        "",
    );
    assert_eq!(env.get("SERVER_NAME").unwrap(), "example.com");
    assert_eq!(env.get("SERVER_PORT").unwrap(), "8080");
    assert_eq!(env.get("HTTP_HOST").unwrap(), "example.com:8080");
}

#[test]
fn host_splits_on_the_first_colon_only() {
    let env = build_cgi_env(&request(vec![("host", "a:1:2")]), "/s/i.php", "/s", "/i.php", "");
    assert_eq!(env.get("SERVER_NAME").unwrap(), "a");
    assert_eq!(env.get("SERVER_PORT").unwrap(), "1:2");
}

#[test]
fn missing_host_gives_localhost_80() {
    let env = build_cgi_env(&request(vec![]), "/site/index.php", "/site", "/index.php", "");
    assert_eq!(env.get("SERVER_NAME").unwrap(), "localhost");
    assert_eq!(env.get("SERVER_PORT").unwrap(), "80");
    assert!(env.get("PATH_INFO").is_none());
}

#[test]
fn host_without_port_defaults_to_80() {
    let env = build_cgi_env(
        &request(vec![("host", "example.com")]),
        "/s/i.php",
        "/s",
        "/i.php",
        "",
    );
    assert_eq!(env.get("SERVER_NAME").unwrap(), "example.com");
    assert_eq!(env.get("SERVER_PORT").unwrap(), "80");
}

#[test]
fn headers_become_http_variables() {
    let env = build_cgi_env(
        &request(vec![
            ("x-foo", "bar"),
            ("content-type", "text/plain"),
            ("content-length", "12"),
        ]),
        "/site/index.php",
        "/site",
        "/index.php",
        "",
    );
    assert_eq!(env.get("HTTP_X_FOO").unwrap(), "bar");
    assert_eq!(env.get("CONTENT_TYPE").unwrap(), "text/plain");
    assert_eq!(env.get("CONTENT_LENGTH").unwrap(), "12");
    assert!(env.get("HTTP_CONTENT_TYPE").is_none());
    assert_eq!(env.get("REQUEST_METHOD").unwrap(), "POST");
    assert_eq!(env.get("QUERY_STRING").unwrap(), "a=1");
    assert_eq!(env.get("REDIRECT_STATUS").unwrap(), "200");
    assert_eq!(env.get("PHP_SELF").unwrap(), "/index.php");
    assert_eq!(env.get("HTTPS").unwrap(), "off");
    assert_eq!(env.get("REMOTE_ADDR").unwrap(), "127.0.0.1");
    assert_eq!(env.get("REMOTE_PORT").unwrap(), "0");
    assert_eq!(env.get("GATEWAY_INTERFACE").unwrap(), "CGI/1.1");
}

#[test]
fn caller_supplied_remote_address_is_used() {
    let mut req = request(vec![]);
    req.remote_addr = Some("10.0.0.7".to_string());
    req.remote_port = Some("5555".to_string());
    let env = build_cgi_env(&req, "/s/i.php", "/s", "/i.php", "");
    assert_eq!(env.get("REMOTE_ADDR").unwrap(), "10.0.0.7");
    assert_eq!(env.get("REMOTE_PORT").unwrap(), "5555");
}

#[test]
fn path_info_resolution_scenario() {
    let candidates = php_path_candidates("/site", "/index.php/blog/1");
    assert_eq!(candidates.len(), 1);
    let found: Vec<bool> = candidates
        .iter()
        .map(|c| c.script_filename == "/site/index.php")
        .collect();
    let info = resolve_php_path_info(candidates, &found).unwrap();
    assert_eq!(info.script_filename, "/site/index.php");
    assert_eq!(info.script_name, "/index.php");
    assert_eq!(info.path_info, "/blog/1");
}

#[test]
fn path_info_skips_missing_scripts() {
    let candidates = php_path_candidates("/site", "/a.php/b.php/x");
    assert_eq!(candidates.len(), 2);
    assert_eq!(candidates[0].script_name, "/a.php");
    assert_eq!(candidates[0].path_info, "/b.php/x");
    assert_eq!(candidates[1].script_name, "/a.php/b.php");
    assert_eq!(candidates[1].path_info, "/x");
    let found = vec![false, true];
    let info = resolve_php_path_info(candidates, &found).unwrap();
    assert_eq!(info.script_filename, "/site/a.php/b.php");
    let none = resolve_php_path_info(php_path_candidates("/site", "/plain/path"), &vec![]);
    assert!(none.is_none());
}

#[test]
fn resolve_path_decodes_and_drops_parent_segments() {
    assert_eq!(resolve_path("/site", "/a%20b.php"), "/site/a b.php");
    assert_eq!(resolve_path("/site", "/../../etc/passwd"), "/site/etc/passwd");
    assert_eq!(resolve_path("/site/", "//x/./y.php"), "/site/x/y.php");
    assert!(is_php_file("/site/INDEX.PHP"));
    assert!(!is_php_file("/site/index.php5"));
}

#[test]
fn frame_round_trip_beyond_any_buffer() {
    let payload: Vec<u8> = (0..200_000u32).map(|i| (i % 251) as u8).collect();
    let mut framed = encode_frame(&payload);
    assert_eq!(framed.len(), payload.len() + 8);
    framed.extend_from_slice(b"trailing");
    let (decoded, used) = decode_frame(&framed).ok().unwrap();
    assert_eq!(decoded, payload);
    assert_eq!(used, payload.len() + 8);
}

#[test]
fn frame_errors() {
    assert!(matches!(decode_frame(&[0, 0, 0]), Err(FrameError::ShortHeader)));
    let mut framed = encode_frame(b"hello");
    framed.pop();
    assert!(matches!(
        decode_frame(&framed),
        Err(FrameError::ShortPayload { announced: 5 })
    ));
    let empty = encode_frame(&[]);
    assert_eq!(empty, vec![0u8; 8]);
}

#[test]
fn header_replace_keeps_only_the_replacement() {
    let mut c = Capture::new();
    c.apply_header("X: a", HeaderOp::Add);
    c.apply_header("x: b", HeaderOp::Replace);
    assert_eq!(c.headers, vec![("x".to_string(), "b".to_string())]);
}

#[test]
fn set_cookie_replace_accumulates() {
    let mut c = Capture::new();
    c.apply_header("Set-Cookie: a", HeaderOp::Add);
    c.apply_header("Set-Cookie: b", HeaderOp::Replace);
    assert_eq!(
        c.headers,
        vec![
            ("Set-Cookie".to_string(), "a".to_string()),
            ("Set-Cookie".to_string(), "b".to_string())
        ]
    );
}

#[test]
fn status_line_overrides_native_code() {
    let mut c = Capture::new();
    c.apply_header("Status: 404 Not Found\r\n", HeaderOp::Add);
    assert!(c.headers.is_empty());
    c.send_headers(500);
    let r = c.finish(true, 503, Vec::new()).ok().unwrap();
    assert_eq!(r.status_code, 404);

    let mut d = Capture::new();
    d.send_headers(201);
    assert_eq!(d.finish(true, 0, Vec::new()).ok().unwrap().status_code, 201);
    assert_eq!(d.finish(true, 418, Vec::new()).ok().unwrap().status_code, 418);
    let e = Capture::new();
    assert_eq!(e.finish(true, 0, Vec::new()).ok().unwrap().status_code, 200);
}

#[test]
fn early_exit_after_location_is_a_redirect() {
    let mut c = Capture::new();
    c.apply_header("Location: /x", HeaderOp::Replace);
    let r = c.finish(false, 0, Vec::new()).ok().unwrap();
    assert_eq!(r.status_code, 302);
    assert_eq!(r.headers, vec![("Location".to_string(), "/x".to_string())]);
}

#[test]
fn failed_execution_without_output_is_an_error() {
    let mut c = Capture::new();
    assert!(c.finish(false, 0, Vec::new()).is_err());
    c.record_error("boom");
    assert_eq!(
        c.finish(false, 0, Vec::new()).err().unwrap(),
        "PHP script execution failed: boom"
    );
    let mut d = Capture::new();
    d.write_output(b"partial");
    let r = d.finish(false, 0, b"ignored".to_vec()).ok().unwrap();
    assert_eq!(r.body, b"partial");
    let e = Capture::new();
    assert_eq!(e.finish(false, 0, b"buffered".to_vec()).ok().unwrap().body, b"buffered");
}

#[test]
fn malformed_status_lines_are_ignored() {
    let mut c = Capture::new();
    c.apply_header("Status: abc", HeaderOp::Add);
    c.apply_header("no colon here", HeaderOp::Add);
    c.apply_header("X: y", HeaderOp::Other);
    assert!(c.headers.is_empty());
    assert_eq!(c.status_line, None);
    c.reset();
    assert!(c.body.is_empty());
}

#[test]
fn read_post_serves_the_body_in_chunks() {
    let mut ctx = RequestContext::new();
    ctx.populate(b"hello world".to_vec(), Some("a=b".to_string()), VarMap::new());
    assert_eq!(ctx.read_post(5), b"hello");
    assert_eq!(ctx.read_post(100), b" world");
    assert!(ctx.read_post(10).is_empty());
    ctx.clear();
    assert!(ctx.cookie.is_none());
}

#[test]
fn embed_settings() {
    let mut cfg = PhpEmbedConfig::default();
    cfg.stack_limit = "16M".to_string();
    cfg.error_log = Some("/tmp/php.log".to_string());
    cfg.ini_settings = vec!["memory_limit=1G".to_string()];
    let ini = cfg.ini_entries();
    assert_eq!(ini[0], "zend.max_allowed_stack_size=16M");
    assert_eq!(ini[9], "display_errors=Off");
    assert_eq!(ini[11], "error_log=/tmp/php.log");
    assert_eq!(ini[12], "memory_limit=1G");
    assert_eq!(cfg.argv()[2], "zend.max_allowed_stack_size=16M");

    let mut vars = VarMap::new();
    vars.insert("REQUEST_METHOD".to_string(), "POST".to_string());
    let mut headers = VarMap::new();
    headers.insert("Cookie".to_string(), "k=v".to_string());
    let info = EmbedRequestInfo::from_request(&vars, &headers, "/s/x.php");
    assert_eq!(info.method, "POST");
    assert_eq!(info.uri, "/");
    assert_eq!(info.path_translated, "/s/x.php");
    assert_eq!(info.content_type, "application/x-www-form-urlencoded");
    assert_eq!(info.cookie, Some("k=v".to_string()));
}

#[test]
fn gate_never_exceeds_its_size() {
    let mut g = ExecutionGate::new(2);
    assert!(g.try_acquire());
    assert!(g.try_acquire());
    assert!(!g.try_acquire());
    assert_eq!(g.in_flight(), 2);
    g.release();
    assert_eq!(g.in_flight(), 1);
    assert!(g.try_acquire());
    assert!(!g.try_acquire());
}

#[test]
fn worker_pool_runs_queues_and_rejects() {
    let mut p = WorkerPool::new(1);
    assert!(matches!(p.dispatch(1), Admission::Run(0)));
    for t in 0..QUEUE_CAPACITY as u64 {
        assert!(matches!(p.dispatch(100 + t), Admission::Queued));
    }
    assert!(matches!(p.dispatch(999), Admission::Rejected));
    assert_eq!(p.queued_count(), QUEUE_CAPACITY);
    assert_eq!(p.release(0), Some(100));
    assert_eq!(p.busy_count(), 1);
    let mut q = WorkerPool::new(2);
    assert!(matches!(q.dispatch(1), Admission::Run(0)));
    assert!(matches!(q.dispatch(2), Admission::Run(1)));
    assert_eq!(q.release(0), None);
    assert_eq!(q.busy_count(), 1);
    assert_eq!(q.total(), 2);
    assert_eq!(
        q.status_json(),
        "{\"total_workers\":2,\"busy\":1,\"available\":1,\"queued\":0}"
    );
}

#[test]
fn pool_state_availability() {
    let config = Config::default();
    let mut s = PoolState::new(&config.php);
    assert!(matches!(s.begin(), Err(ExecError::Unavailable(_))));
    s.start("php", false, Some("PHP 8.2.1".to_string()));
    assert!(s.is_available());
    assert!(s.begin().is_ok());
    assert_eq!(s.active_workers(), 1);
    s.end();
    assert_eq!(s.active_workers(), 0);
    s.start("/missing/php", false, Some("PHP".to_string()));
    assert!(!s.is_available());
    assert_eq!(version_line("PHP 8.2.1 (cli)\r\nCopyright"), "PHP 8.2.1 (cli)");
    assert_eq!(version_line(""), "Unknown");
}

#[test]
fn process_outcomes() {
    assert!(matches!(
        process_result(ProcessOutcome::TimedOut, 30),
        Err(ExecError::Timeout(30))
    ));
    assert!(matches!(
        process_result(ProcessOutcome::SpawnFailed("nope".to_string()), 30),
        Err(ExecError::SpawnFailure(_))
    ));
    let failed = ProcessOutcome::Finished {
        success: false,
        stdout: vec![],
        stderr: b"fatal \xff".to_vec(),
    };
    match process_result(failed, 30) {
        Err(ExecError::ScriptFailure(m)) => assert_eq!(m, "fatal \u{FFFD}"),
        _ => panic!("expected a script failure"),
    }
    let partial = ProcessOutcome::Finished {
        success: false,
        stdout: b"out".to_vec(),
        stderr: b"warn".to_vec(),
    };
    assert_eq!(process_result(partial, 30).ok().unwrap(), "out");
}

#[test]
fn command_line_of_the_interpreter() {
    let mut config = Config::default().php;
    config.ini_settings = vec!["upload_max_filesize=8M".to_string()];
    let args = php_command_args(&config, "/site/index.php");
    assert_eq!(
        args,
        vec![
            "-d",
            "memory_limit=256M",
            "-d",
            "max_execution_time=30",
            "-d",
            "expose_php=Off",
            "-d",
            "display_errors=Off",
            "-d",
            "log_errors=On",
            "-d",
            "upload_max_filesize=8M",
            "/site/index.php"
        ]
    );
}

#[test]
fn cgi_output_with_headers() {
    let r = parse_cgi_output("Status: 404 Not Found\r\nContent-Type: text/plain\r\nX-Other: 1\r\n\r\nmissing");
    assert_eq!(r.status, 404);
    assert_eq!(r.content_type, "text/plain");
    assert_eq!(r.headers, vec![("X-Other".to_string(), "1".to_string())]);
    assert_eq!(r.body, b"missing");
}

#[test]
fn cgi_output_location_redirects() {
    let r = parse_cgi_output("Location: /x\nSet-Cookie: s=1\n\n");
    assert_eq!(r.status, 302);
    assert_eq!(
        r.headers,
        vec![
            ("Location".to_string(), "/x".to_string()),
            ("Set-Cookie".to_string(), "s=1".to_string())
        ]
    );
    assert!(r.body.is_empty());
}

#[test]
fn cgi_output_without_headers_is_all_body() {
    let html = "<html>\r\n\r\n<body>a: b</body></html>";
    let r = parse_cgi_output(html);
    assert_eq!(r.status, 200);
    assert_eq!(r.body, html.as_bytes());
    assert_eq!(r.content_type, "text/html; charset=utf-8");
    let css = "body { color: red }\r\n\r\nrest";
    assert_eq!(parse_cgi_output(css).body, css.as_bytes());
}

#[test]
fn protocol_messages() {
    let r = PhpResponse::ok("body", "warn").with_header("X-A", "1").with_status(201);
    assert!(r.success);
    assert_eq!(r.status_code, 201);
    assert_eq!(r.headers.get("X-A").unwrap(), "1");
    let e = PhpResponse::error("Worker pool exhausted");
    assert_eq!(e.status_code, 500);
    assert_eq!(e.error, Some("Worker pool exhausted".to_string()));
    let q = PhpResponse::queued();
    assert!(q.queued);
    assert_eq!(q.status_code, 202);
    let h = PhpRequest::health_check();
    assert!(matches!(h.request_type, RequestType::HealthCheck));
    assert_eq!(h.timeout_secs, 5);
    let x = PhpRequest::execute("/site/index.php".to_string());
    assert_eq!(x.timeout_secs, 30);
    assert_eq!(x.uri, "/");
}

#[test]
fn config_validation_errors() {
    let mut c = Config::default();
    assert!(c.validate().is_ok());
    c.ssl = Some(SslConfig {
        cert: String::new(),
        key: "k".to_string(),
        protocols: vec![],
        ocsp_stapling: false,
    });
    match c.validate() {
        Err(ConfigError::ValidationError(m)) => {
            assert_eq!(m, "SSL cert and key paths must be specified")
        }
        _ => panic!("expected a validation error"),
    }
    c.php.workers = 0;
    match c.validate() {
        Err(ConfigError::ValidationError(m)) => assert_eq!(m, "php.workers must be greater than 0"),
        _ => panic!("expected a validation error"),
    }
    c.server.max_connections = 0;
    match c.validate() {
        Err(ConfigError::ValidationError(m)) => {
            assert_eq!(m, "max_connections must be greater than 0")
        }
        _ => panic!("expected a validation error"),
    }
}

#[test]
fn tls_needs_an_address_and_files() {
    let mut c = Config::default();
    assert!(!can_enable_tls(&c, true, &vec![]));
    c.server.listen_ssl = Some("0.0.0.0:443".to_string());
    assert!(!can_enable_tls(&c, true, &vec![]));
    c.ssl = Some(SslConfig {
        cert: "c".to_string(),
        key: "k".to_string(),
        protocols: vec![],
        ocsp_stapling: false,
    });
    assert!(can_enable_tls(&c, true, &vec![]));
    assert!(!can_enable_tls(&c, false, &vec![]));
}

#[test]
fn sizes_in_any_case_and_with_spaces() {
    assert_eq!(parse_size(" 512m "), 512 * 1024 * 1024);
    assert_eq!(parse_size("xG"), 1024 * 1024 * 1024);
    assert_eq!(parse_size("junk"), 1024);
    assert_eq!(parse_size("abc"), 512 * 1024 * 1024);
    assert_eq!(parse_size("99999999999999G"), u64::MAX);
}

#[test]
fn mime_type_ignores_case() {
    let h = StaticFileHandler::new();
    assert_eq!(h.guess_mime_type("PAGE.HTML"), "text/html; charset=utf-8");
    assert_eq!(h.guess_mime_type("noext"), "application/octet-stream");
    assert_eq!(h.cache_control("video/mp4"), "public, max-age=86400");
    assert_eq!(h.cache_control("application/json"), "public, max-age=0, must-revalidate");
    assert_eq!(h.cache_control("text/plain"), "public, max-age=3600");
    let tag = h.generate_etag("/a", 1, Some(5));
    assert!(tag.chars().all(|c| c.is_ascii_hexdigit()));
}

#[test]
fn worker_run_arguments_and_responses() {
    let mut config = WorkerConfig::default();
    config.php_ini = Some("/etc/php.ini".to_string());
    assert_eq!(
        config.process_args(),
        vec!["-c", "/etc/php.ini", "-d", "memory_limit=256M", "-d", "max_execution_time=30", "-q"]
    );
    let ok = run_response(true, Some(0), b"out", b"warn");
    assert!(ok.success);
    assert_eq!(ok.body, "out");
    assert_eq!(ok.stderr, "warn");
    let partial = run_response(false, Some(255), b"page", b"notice");
    assert!(partial.success);
    assert_eq!(partial.body, "page");
    assert_eq!(partial.stderr, "notice");
    let failed = run_response(false, Some(-1), b"", b"bad");
    assert_eq!(failed.status_code, 500);
    assert_eq!(failed.error, Some("PHP exit code Some(-1): bad".to_string()));
    let killed = run_response(false, None, b"", b"");
    assert_eq!(killed.error, Some("PHP exit code None: ".to_string()));
    assert_eq!(config.php_binary_candidates().len(), 15);
}

#[test]
fn embedded_response_in_uniform_form() {
    let mut resp = veloserve::sapi::PhpResponse::new();
    resp.status_code = 1200;
    resp.headers = vec![
        ("X-A".to_string(), "1".to_string()),
        ("CONTENT-TYPE".to_string(), "application/json".to_string()),
    ];
    resp.body = vec![0x89, b'P', b'N', b'G', 0xff];
    let r = CgiResponse::from_embedded(resp);
    assert_eq!(r.status, 200);
    assert_eq!(r.content_type, "application/json");
    assert_eq!(r.headers.len(), 2);
    assert_eq!(r.body, vec![0x89, b'P', b'N', b'G', 0xff]);
    let plain = CgiResponse::from_embedded(veloserve::sapi::PhpResponse::new());
    assert_eq!(plain.content_type, "text/html; charset=utf-8");
}

#[test]
fn frame_length_is_capped() {
    let framed = encode_frame(&[7u8; 300]);
    assert_eq!(payload_length(&framed, 1000).ok(), Some(300));
    assert!(matches!(
        payload_length(&framed, 100),
        Err(FrameError::TooLarge { announced: 300 })
    ));
}

#[test]
fn requests_answered_without_a_run() {
    let h = direct_response(&RequestType::HealthCheck, "{}").unwrap();
    assert_eq!(h.body, "healthy");
    let s = direct_response(&RequestType::Status, "{\"busy\":0}").unwrap();
    assert_eq!(s.body, "status");
    assert_eq!(s.stderr, "{\"busy\":0}");
    assert!(direct_response(&RequestType::Execute, "{}").is_none());
}
