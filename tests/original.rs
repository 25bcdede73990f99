use veloserve::cache::parse_size;
use veloserve::config::{Config, PhpMode};
use veloserve::env::{build_cgi_env, CgiRequest};
use veloserve::executor::{first_existing, php_binary_candidates};
use veloserve::router::Router;
use veloserve::sapi::PhpResponse;
use veloserve::static_files::StaticFileHandler;
use veloserve::worker;

#[test]
fn test_parse_size() {
    assert_eq!(parse_size("512M"), 512 * 1024 * 1024);
    assert_eq!(parse_size("2G"), 2 * 1024 * 1024 * 1024);
    assert_eq!(parse_size("1024K"), 1024 * 1024);
    assert_eq!(parse_size("1048576"), 1048576);
}

#[test]
fn mod_test_default_config() {
    let config = Config::default();
    assert_eq!(config.server.listen, "0.0.0.0:8080");
    assert!(config.cache.enable);
    assert!(config.php.enable);
}

#[test]
fn test_worker_threads() {
    let mut config = Config::default();
    config.server.workers = "4".to_string();
    assert_eq!(config.worker_threads(), 4);
    config.server.workers = "auto".to_string();
    assert!(config.worker_threads() > 0);
}

#[test]
fn test_find_php_binary() {
    let candidates = php_binary_candidates("8.2");
    let exists: Vec<bool> = candidates
        .iter()
        .map(|p| std::path::Path::new(p).exists())
        .collect();
    let path = first_existing(&candidates, &exists, "php");
    assert!(!path.is_empty());
}

#[test]
fn test_cgi_env_path_info() {
    let req = CgiRequest {
        method: "GET".to_string(),
        uri: "/index.php/blog/1".to_string(),
        query: String::new(),
        protocol: "HTTP/1.1".to_string(),
        headers: vec![],
        remote_addr: None,
        remote_port: None,
    };
    let env = build_cgi_env(&req, "/site/index.php", "/site", "/index.php", "/blog/1");
    assert_eq!(env.get("PATH_INFO").unwrap(), "/blog/1");
    assert_eq!(env.get("PATH_TRANSLATED").unwrap(), "/site/blog/1");
    assert_eq!(env.get("SCRIPT_NAME").unwrap(), "/index.php");
}

#[test]
fn test_php_response_parsing() {
    let raw = b"Content-Type: text/html\r\nStatus: 200 OK\r\n\r\n<html>Hello</html>";
    let response = PhpResponse::from_raw_output(raw);
    assert_eq!(response.status_code, 200);
    assert_eq!(response.body, b"<html>Hello</html>");
    let content_type = response
        .headers
        .iter()
        .find(|(n, _)| n == "Content-Type")
        .map(|(_, v)| v.clone());
    assert_eq!(content_type, Some("text/html".to_string()));
}

#[test]
fn test_php_response_no_headers() {
    let raw = b"Hello World";
    let response = PhpResponse::from_raw_output(raw);
    assert_eq!(response.status_code, 200);
    assert_eq!(response.body, b"Hello World");
    assert!(response.headers.is_empty());
}

#[test]
fn test_php_response_404() {
    let raw = b"Status: 404 Not Found\r\nContent-Type: text/html\r\n\r\nNot Found";
    let response = PhpResponse::from_raw_output(raw);
    assert_eq!(response.status_code, 404);
}

#[test]
fn main_test_default_config() {
    let config = worker::Config::default();
    assert_eq!(config.socket, worker::DEFAULT_SOCKET);
    assert_eq!(config.workers, worker::DEFAULT_WORKERS);
    assert_eq!(config.memory_limit, "256M");
    assert_eq!(config.max_execution_time, 30);
}

#[test]
fn test_exact_match() {
    let mut router = Router::new();
    router.add_exact("/health", "health_handler");
    router.add_exact("/api/status", "status_handler");

    assert_eq!(router.match_path("/health"), Some("health_handler"));
    assert_eq!(router.match_path("/api/status"), Some("status_handler"));
    assert_eq!(router.match_path("/other"), None);
}

#[test]
fn test_prefix_match() {
    let mut router = Router::new();
    router.add_prefix("/api/v1/", "api_handler");
    router.add_prefix("/static/", "static_handler");

    assert_eq!(router.match_path("/api/v1/users"), Some("api_handler"));
    assert_eq!(router.match_path("/static/css/style.css"), Some("static_handler"));
    assert_eq!(router.match_path("/other"), None);
}

#[test]
fn test_exact_takes_precedence() {
    let mut router = Router::new();
    router.add_exact("/api/v1/special", "special_handler");
    router.add_prefix("/api/v1/", "api_handler");

    assert_eq!(router.match_path("/api/v1/special"), Some("special_handler"));
    assert_eq!(router.match_path("/api/v1/users"), Some("api_handler"));
}

#[test]
fn test_mime_types() {
    let handler = StaticFileHandler::new();

    assert_eq!(handler.guess_mime_type("test.html"), "text/html; charset=utf-8");
    assert_eq!(handler.guess_mime_type("style.css"), "text/css; charset=utf-8");
    assert_eq!(
        handler.guess_mime_type("app.js"),
        "application/javascript; charset=utf-8"
    );
    assert_eq!(handler.guess_mime_type("image.png"), "image/png");
    assert_eq!(handler.guess_mime_type("font.woff2"), "font/woff2");
    assert_eq!(handler.guess_mime_type("unknown.xyz"), "application/octet-stream");
}

#[test]
fn test_cache_control() {
    let handler = StaticFileHandler::new();

    assert!(handler.cache_control("image/png").contains("31536000"));
    assert!(handler.cache_control("font/woff2").contains("31536000"));

    assert!(handler.cache_control("text/html; charset=utf-8").contains("no-cache"));
}

#[test]
fn test_etag_generation() {
    let handler = StaticFileHandler::new();

    let etag1 = handler.generate_etag("/test.html", 1000, None);
    let etag2 = handler.generate_etag("/test.html", 1000, None);

    assert_eq!(etag1, etag2);

    let etag3 = handler.generate_etag("/test.html", 2000, None);
    assert_ne!(etag1, etag3);
}

#[test]
fn default_mode_is_cgi() {
    let config = Config::default();
    assert!(config.php.mode == PhpMode::Cgi);
    assert_eq!(config.php.max_execution_time, 30);
}
