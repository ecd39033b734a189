use bambu_monitor::stdtext::{split_whitespace, trim};
use bambu_monitor::http::{
    header_line_step, keepalive_due, on_broadcast_poll, parse_request_line, parse_usize, route_request,
    sse_event, stream_continues, write_bad_request, write_http_json_ok, write_http_ok, write_http_options,
    write_index_not_found, write_index_ok, write_not_found, write_sse_head, BroadcastPoll, ClientRead, Route,
    StreamAction,
};

fn text(b: &[u8]) -> String {
    String::from_utf8(b.to_vec()).unwrap()
}

#[test]
fn request_line_gives_method_and_path() {
    let rl = parse_request_line("  GET /api/status HTTP/1.1\r\n").unwrap();
    assert_eq!(rl.method, "GET");
    assert_eq!(rl.path, "/api/status");
    assert!(parse_request_line("GET\r\n").is_none());
    assert!(parse_request_line("").is_none());
}

#[test]
fn content_length_header_any_case() {
    let st = header_line_step("CONTENT-LENGTH: 42\r\n", 0);
    assert_eq!(st.content_length, 42);
    assert!(!st.end_of_headers);
    let st = header_line_step("Content-Length:+7", 3);
    assert_eq!(st.content_length, 7);
    let st = header_line_step("Content-Length: abc\r\n", 3);
    assert_eq!(st.content_length, 3);
    let st = header_line_step("Content-Type: text/plain\r\n", 5);
    assert_eq!(st.content_length, 5);
    let st = header_line_step("\r\n", 5);
    assert!(st.end_of_headers);
    assert_eq!(st.content_length, 5);
}

#[test]
fn parse_usize_like_std() {
    assert_eq!(parse_usize("0"), Some(0));
    assert_eq!(parse_usize("+12"), Some(12));
    assert_eq!(parse_usize("-1"), None);
    assert_eq!(parse_usize(""), None);
    assert_eq!(parse_usize("+"), None);
    assert_eq!(parse_usize("18446744073709551615"), Some(usize::MAX));
    assert_eq!(parse_usize("18446744073709551616"), None);
    assert_eq!(parse_usize("12a"), None);
}

#[test]
fn routes() {
    assert_eq!(route_request("GET", "/api/health", 0), Route::Health);
    assert_eq!(route_request("OPTIONS", "/events", 0), Route::Options);
    assert_eq!(route_request("OPTIONS", "/", 0), Route::NotFound);
    assert_eq!(route_request("GET", "/", 0), Route::Index);
    assert_eq!(route_request("GET", "/index.html", 0), Route::Index);
    assert_eq!(route_request("GET", "/api/status", 0), Route::Status);
    assert_eq!(route_request("GET", "/api/config", 0), Route::ConfigGet);
    assert_eq!(route_request("POST", "/api/config", 0), Route::BadRequest);
    assert_eq!(route_request("POST", "/api/config", 12), Route::ConfigPost);
    assert_eq!(route_request("GET", "/events", 0), Route::Events);
    assert_eq!(route_request("DELETE", "/api/config", 0), Route::NotFound);
}

#[test]
fn ok_response_bytes() {
    let mut out = Vec::new();
    write_http_ok(&mut out, b"hello", "text/plain");
    assert_eq!(
        text(&out),
        "HTTP/1.1 200 OK\r\nContent-Type: text/plain\r\nContent-Length: 5\r\nCache-Control: no-cache\r\nConnection: close\r\nAccess-Control-Allow-Origin: *\r\nAccess-Control-Allow-Methods: GET, POST, OPTIONS\r\nAccess-Control-Allow-Headers: Content-Type\r\n\r\nhello"
    );
    let mut out = Vec::new();
    write_http_json_ok(&mut out, b"{}");
    assert!(text(&out).starts_with("HTTP/1.1 200 OK\r\nContent-Type: application/json\r\nContent-Length: 2\r\n"));
    assert!(text(&out).ends_with("\r\n\r\n{}"));
}

#[test]
fn other_responses() {
    let mut out = Vec::new();
    write_http_options(&mut out);
    assert!(text(&out).starts_with("HTTP/1.1 204 No Content\r\n"));
    assert!(text(&out).contains("Access-Control-Max-Age: 86400\r\n"));
    let mut out = Vec::new();
    write_not_found(&mut out);
    assert_eq!(text(&out), "HTTP/1.1 404 Not Found\r\nContent-Length: 9\r\n\r\nNot Found");
    let mut out = Vec::new();
    write_bad_request(&mut out);
    assert_eq!(text(&out), "HTTP/1.1 400 Bad Request\r\nContent-Length: 0\r\n\r\n");
    let mut out = Vec::new();
    write_index_ok(&mut out, "<p>é</p>".as_bytes());
    assert_eq!(text(&out), "HTTP/1.1 200 OK\r\nContent-Type: text/html; charset=utf-8\r\nContent-Length: 9\r\n\r\n<p>é</p>");
    let mut out = Vec::new();
    write_index_not_found(&mut out);
    assert!(text(&out).ends_with("Content-Length: 9\r\n\r\nNot Found"));
    let mut out = Vec::new();
    write_sse_head(&mut out);
    assert!(text(&out).contains("Content-Type: text/event-stream; charset=utf-8\r\n"));
}

#[test]
fn written_content_length_reads_back() {
    let mut out = Vec::new();
    let body = vec![b'x'; 1234];
    write_http_ok(&mut out, &body, "a/b");
    let head = text(&out[..out.len() - body.len()]);
    let mut len = 0;
    for line in head.split("\r\n") {
        len = header_line_step(line, len).content_length;
    }
    assert_eq!(len, 1234);
}

#[test]
fn event_stream_decisions() {
    assert_eq!(sse_event("{\"a\":1}"), "data: {\"a\":1}\n\n");
    assert_eq!(on_broadcast_poll(BroadcastPoll::Message), StreamAction::Send);
    assert_eq!(on_broadcast_poll(BroadcastPoll::Lagged), StreamAction::Skip);
    assert_eq!(on_broadcast_poll(BroadcastPoll::Empty), StreamAction::Skip);
    assert_eq!(on_broadcast_poll(BroadcastPoll::Closed), StreamAction::Stop);
    assert!(stream_continues(ClientRead::Data));
    assert!(stream_continues(ClientRead::TimedOut));
    assert!(!stream_continues(ClientRead::Eof));
    assert!(!stream_continues(ClientRead::Failed));
    assert!(!keepalive_due(25, 0));
    assert!(keepalive_due(25, 1));
    assert!(keepalive_due(26, 0));
}

#[test]
fn trims_and_splits_on_unicode_white_space() {
    assert_eq!(trim("\u{3000} GET /\t\r\n"), "GET /");
    assert_eq!(trim(" \u{85}\u{a0}"), "");
    assert_eq!(split_whitespace("  GET\u{2003}/api/status  HTTP/1.1\r\n"), vec!["GET", "/api/status", "HTTP/1.1"]);
    assert!(split_whitespace(" \t ").is_empty());
}
