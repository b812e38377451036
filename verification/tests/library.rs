use configserve::config::{load_config, parse_settings, render_settings, Config};
use configserve::credentials::{lookup, parse_credentials};
use configserve::http::{
    build_response, classify_request, file_path, split_headers_body, static_page, Route,
};
use configserve::text::{parse_u16, split_lines, u64_to_decimal};
use configserve::update::{apply_update, handle_update, process_update};

fn cfg(host: &str, port: u16, static_dir: &str) -> Config {
    Config { host: host.to_string(), port, static_dir: static_dir.to_string() }
}

fn creds_pairs() -> Vec<(String, String)> {
    parse_credentials("username:admin\npassword:correct\n")
}

#[test]
fn routes_home() {
    assert_eq!(classify_request("GET / HTTP/1.1"), Route::Home);
    assert_eq!(classify_request("GET /home HTTP/1.1"), Route::Home);
}

#[test]
fn routes_config_page() {
    assert_eq!(classify_request("GET /config HTTP/1.1"), Route::ConfigPage);
}

#[test]
fn routes_update() {
    assert_eq!(classify_request("POST /update_config HTTP/1.1"), Route::UpdateConfig);
}

#[test]
fn routes_everything_else_to_not_found() {
    assert_eq!(classify_request("GET /missing HTTP/1.1"), Route::NotFound);
    assert_eq!(classify_request("GET /homepage HTTP/1.1"), Route::NotFound);
    assert_eq!(classify_request("GET /"), Route::NotFound);
    assert_eq!(classify_request("DELETE / HTTP/1.1"), Route::NotFound);
    assert_eq!(classify_request(""), Route::NotFound);
}

#[test]
fn static_pages_per_route() {
    assert_eq!(static_page(&Route::Home), Some((true, "home.html".to_string())));
    assert_eq!(static_page(&Route::ConfigPage), Some((true, "config.html".to_string())));
    assert_eq!(static_page(&Route::NotFound), Some((false, "404.html".to_string())));
    assert_eq!(static_page(&Route::UpdateConfig), None);
}

#[test]
fn home_request_gets_ok_response_with_page_bytes() {
    let line = "GET /home HTTP/1.1";
    let page = static_page(&classify_request(line)).unwrap();
    assert!(page.0);
    assert_eq!(page.1, "home.html");
    let body = "<html>home</html>";
    let response = build_response(page.0, body);
    assert_eq!(response, "HTTP/1.1 200 OK\r\nContent-Length: 17\r\n\r\n<html>home</html>");
}

#[test]
fn unmatched_request_gets_not_found_response() {
    let line = "GET /nowhere HTTP/1.1";
    let page = static_page(&classify_request(line)).unwrap();
    assert!(!page.0);
    assert_eq!(page.1, "404.html");
    let response = build_response(page.0, "gone");
    assert_eq!(response, "HTTP/1.1 404 NOT FOUND\r\nContent-Length: 4\r\n\r\ngone");
}

#[test]
fn content_length_counts_bytes_not_chars() {
    let body = "h\u{e9}llo";
    assert_eq!(body.chars().count(), 5);
    assert_eq!(body.len(), 6);
    let response = build_response(true, body);
    assert_eq!(response, format!("HTTP/1.1 200 OK\r\nContent-Length: 6\r\n\r\n{}", body));
}

#[test]
fn content_length_of_empty_body_is_zero() {
    assert_eq!(build_response(true, ""), "HTTP/1.1 200 OK\r\nContent-Length: 0\r\n\r\n");
}

#[test]
fn file_path_joins_directory_and_name() {
    assert_eq!(file_path("src/html", "home.html"), "src/html/home.html");
}

#[test]
fn decimal_rendering() {
    assert_eq!(u64_to_decimal(0), "0");
    assert_eq!(u64_to_decimal(7), "7");
    assert_eq!(u64_to_decimal(7878), "7878");
    assert_eq!(u64_to_decimal(65535), "65535");
    assert_eq!(u64_to_decimal(1000), "1000");
}

#[test]
fn port_parsing() {
    assert_eq!(parse_u16("7878"), Some(7878));
    assert_eq!(parse_u16("0"), Some(0));
    assert_eq!(parse_u16("+80"), Some(80));
    assert_eq!(parse_u16("007"), Some(7));
    assert_eq!(parse_u16("65535"), Some(65535));
    assert_eq!(parse_u16("65536"), None);
    assert_eq!(parse_u16(""), None);
    assert_eq!(parse_u16("+"), None);
    assert_eq!(parse_u16("12a"), None);
    assert_eq!(parse_u16(" 80"), None);
    assert_eq!(parse_u16("-1"), None);
}

#[test]
fn line_splitting() {
    assert_eq!(split_lines("a\nb"), vec!["a", "b"]);
    assert_eq!(split_lines("a\nb\n"), vec!["a", "b", ""]);
    assert_eq!(split_lines(""), vec![""]);
    assert_eq!(split_lines("\n"), vec!["", ""]);
}

#[test]
fn settings_render_exact_text() {
    let c = cfg("127.0.0.1", 7878, "src/html");
    assert_eq!(render_settings(&c), "host: 127.0.0.1\nport: 7878\nstatic_dir: src/html\n");
}

#[test]
fn settings_round_trip() {
    let c = cfg("0.0.0.0", 65535, "assets");
    let text = render_settings(&c);
    let back = parse_settings(&text).unwrap();
    assert_eq!(back.host, "0.0.0.0");
    assert_eq!(back.port, 65535);
    assert_eq!(back.static_dir, "assets");
}

#[test]
fn settings_fields_in_any_order() {
    let c = parse_settings("static_dir: www\nhost: h\nport: 80\n").unwrap();
    assert_eq!(c.host, "h");
    assert_eq!(c.port, 80);
    assert_eq!(c.static_dir, "www");
}

#[test]
fn settings_reject_bad_structure() {
    assert!(parse_settings("").is_none());
    assert!(parse_settings("host: a\nport: 80\n").is_none());
    assert!(parse_settings("host: a\nhost: b\nport: 80\nstatic_dir: d\n").is_none());
    assert!(parse_settings("host: a\nport: eighty\nstatic_dir: d\n").is_none());
    assert!(parse_settings("host: a\nport: 80\nstatic_dir: d\nextra: x\n").is_none());
    assert!(parse_settings("not a settings file").is_none());
}

#[test]
fn load_config_defaults_when_absent() {
    let c = load_config(None);
    assert_eq!(c.host, "127.0.0.1");
    assert_eq!(c.port, 7878);
    assert_eq!(c.static_dir, "src/html");
}

#[test]
fn load_config_defaults_on_invalid_structure() {
    let c = load_config(Some("{ this is not settings }"));
    assert_eq!(c.host, "127.0.0.1");
    assert_eq!(c.port, 7878);
    assert_eq!(c.static_dir, "src/html");
}

#[test]
fn load_config_reads_valid_text() {
    let c = load_config(Some("host: 10.0.0.1\nport: 8080\nstatic_dir: pages\n"));
    assert_eq!(c.host, "10.0.0.1");
    assert_eq!(c.port, 8080);
    assert_eq!(c.static_dir, "pages");
}

#[test]
fn credentials_parsing() {
    let pairs = parse_credentials("username:admin\npassword:correct\n");
    assert_eq!(lookup(&pairs, "username"), Some("admin".to_string()));
    assert_eq!(lookup(&pairs, "password"), Some("correct".to_string()));
    assert_eq!(lookup(&pairs, "missing"), None);
}

#[test]
fn credentials_skip_malformed_lines() {
    let pairs = parse_credentials("nocolon\ntoo:many:colons\nusername:admin\n\n");
    assert_eq!(pairs.len(), 1);
    assert_eq!(lookup(&pairs, "username"), Some("admin".to_string()));
    assert_eq!(lookup(&pairs, "too"), None);
}

#[test]
fn credentials_strip_carriage_returns() {
    let pairs = parse_credentials("username:admin\r\npassword:correct\r\n");
    assert_eq!(lookup(&pairs, "username"), Some("admin".to_string()));
    assert_eq!(lookup(&pairs, "password"), Some("correct".to_string()));
}

#[test]
fn credentials_last_entry_wins() {
    let pairs = parse_credentials("username:first\nusername:second\n");
    assert_eq!(lookup(&pairs, "username"), Some("second".to_string()));
}

#[test]
fn update_with_matching_credentials_rewrites_host() {
    let current = cfg("127.0.0.1", 7878, "src/html");
    let outcome = handle_update(
        "username=admin&password=correct&host=0.0.0.0",
        &creds_pairs(),
        &current,
    );
    let new_config = outcome.new_config.expect("update should be granted");
    assert_eq!(outcome.page, "home.html");
    assert_eq!(new_config.host, "0.0.0.0");
    assert_eq!(new_config.port, 7878);
    assert_eq!(new_config.static_dir, "src/html");
    let written = render_settings(&new_config);
    let reloaded = load_config(Some(&written));
    assert_eq!(reloaded.host, "0.0.0.0");
}

#[test]
fn update_with_wrong_password_is_refused() {
    let current = cfg("127.0.0.1", 7878, "src/html");
    let outcome = handle_update(
        "username=admin&password=wrong&host=0.0.0.0",
        &creds_pairs(),
        &current,
    );
    assert!(outcome.new_config.is_none());
    assert_eq!(outcome.page, "404.html");
}

#[test]
fn update_with_missing_fields_is_refused() {
    let current = cfg("127.0.0.1", 7878, "src/html");
    assert!(process_update("username=admin", &creds_pairs(), &current).is_none());
    assert!(process_update("password=correct", &creds_pairs(), &current).is_none());
    assert!(process_update("", &creds_pairs(), &current).is_none());
}

#[test]
fn update_keeps_current_values_for_absent_fields() {
    let current = cfg("10.0.0.1", 8080, "pages");
    let new_config =
        process_update("username=admin&password=correct", &creds_pairs(), &current).unwrap();
    assert_eq!(new_config.host, "10.0.0.1");
    assert_eq!(new_config.port, 8080);
    assert_eq!(new_config.static_dir, "pages");
}

#[test]
fn update_keeps_current_port_when_submitted_port_is_unreadable() {
    let current = cfg("h", 7878, "d");
    let new_config = process_update(
        "username=admin&password=correct&port=eighty",
        &creds_pairs(),
        &current,
    )
    .unwrap();
    assert_eq!(new_config.port, 7878);
    let new_config = process_update(
        "username=admin&password=correct&port=8080",
        &creds_pairs(),
        &current,
    )
    .unwrap();
    assert_eq!(new_config.port, 8080);
}

#[test]
fn update_decodes_percent_escapes_and_plus() {
    let stored = parse_credentials("username:admin\npassword:p@ss word\n");
    let current = cfg("h", 1, "d");
    let new_config = process_update(
        "username=admin&password=p%40ss+word&host=example%2Ecom",
        &stored,
        &current,
    )
    .unwrap();
    assert_eq!(new_config.host, "example.com");
}

#[test]
fn update_uses_last_repeated_form_field() {
    let current = cfg("h", 1, "d");
    let new_config = process_update(
        "username=admin&password=correct&host=first&host=second",
        &creds_pairs(),
        &current,
    )
    .unwrap();
    assert_eq!(new_config.host, "second");
}

#[test]
fn repeating_a_granted_update_writes_the_same_settings() {
    let current = cfg("127.0.0.1", 7878, "src/html");
    let body = "username=admin&password=correct&host=0.0.0.0&port=9000";
    let once = process_update(body, &creds_pairs(), &current).unwrap();
    let text_once = render_settings(&once);
    let reloaded = load_config(Some(&text_once));
    let twice = process_update(body, &creds_pairs(), &reloaded).unwrap();
    assert_eq!(render_settings(&twice), text_once);
}

#[test]
fn apply_update_works_on_decoded_pairs() {
    let params: Vec<(String, String)> = vec![
        ("username".to_string(), "admin".to_string()),
        ("password".to_string(), "correct".to_string()),
        ("static_dir".to_string(), "newdir".to_string()),
    ];
    let current = cfg("h", 1, "d");
    let new_config = apply_update(&params, &creds_pairs(), &current).unwrap();
    assert_eq!(new_config.static_dir, "newdir");
    assert_eq!(new_config.host, "h");
    assert_eq!(new_config.port, 1);
}

#[test]
fn header_and_body_split() {
    let lines: Vec<String> = vec![
        "Host: localhost".to_string(),
        "Content-Length: 7".to_string(),
        "".to_string(),
        "a=1&".to_string(),
        "b=2".to_string(),
    ];
    let (headers, body) = split_headers_body(&lines);
    assert_eq!(headers, "Host: localhost\nContent-Length: 7\n");
    assert_eq!(body, "a=1&b=2");
}

#[test]
fn header_and_body_split_skips_empty_body_lines() {
    let lines: Vec<String> =
        vec!["H: v".to_string(), "".to_string(), "x".to_string(), "".to_string(), "y".to_string()];
    let (headers, body) = split_headers_body(&lines);
    assert_eq!(headers, "H: v\n");
    assert_eq!(body, "xy");
}

#[test]
fn header_and_body_split_without_blank_line_has_no_body() {
    let lines: Vec<String> = vec!["H: v".to_string()];
    let (headers, body) = split_headers_body(&lines);
    assert_eq!(headers, "H: v\n");
    assert_eq!(body, "");
}

#[test]
fn default_config_matches_documented_values() {
    let c = Config::default();
    assert_eq!(c.host, "127.0.0.1");
    assert_eq!(c.port, 7878);
    assert_eq!(c.static_dir, "src/html");
}
