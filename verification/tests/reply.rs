use soul_agent_launcher::json::{JsonNumber, JsonValue};
use soul_agent_launcher::reply::{
    completion_answer, event_payloads_of, examine_reply, has_done_marker, is_html_reply, reply_head_length,
    stream_answer, sum_events, upstream_status, UpstreamReply,
};

fn s(x: &str) -> JsonValue {
    JsonValue::Str(x.to_string())
}

fn obj(members: Vec<(&str, JsonValue)>) -> JsonValue {
    JsonValue::Object(members.into_iter().map(|(k, v)| (k.to_string(), v)).collect())
}

fn unsigned(n: u64) -> JsonValue {
    JsonValue::Number(JsonNumber { as_u64: Some(n), as_i64: Some(n as i64), float_text: format!("{}.0", n) })
}

#[test]
fn done_marker_is_found_anywhere() {
    assert!(has_done_marker(b"data: {}\n\ndata: [DONE]\n\n"));
    assert!(!has_done_marker(b"data: [DONE"));
}

#[test]
fn whole_reply_head_ends_after_the_last_blank_line() {
    let all = b"HTTP/1.1 100 Continue\r\n\r\nHTTP/1.1 200 OK\r\nA: b\r\n\r\n{\"x\":1}";
    assert_eq!(reply_head_length(all, false), 50);
    assert_eq!(&all[50..], b"{\"x\":1}");
}

#[test]
fn streamed_reply_skips_a_continue_head() {
    let all = b"HTTP/1.1 100 Continue\r\n\r\nHTTP/1.1 200 OK\r\n\r\ndata: x\n\n";
    // The first blank line ends at 25; the next \r\n\r\n starts at 40, and the
    // head is taken to end two bytes after that.
    assert_eq!(reply_head_length(all, true), 42);
    let plain = b"HTTP/1.1 200 OK\r\n\r\ndata: x\n\n";
    assert_eq!(reply_head_length(plain, true), 19);
}

#[test]
fn head_falls_back_to_bare_line_feeds() {
    assert_eq!(reply_head_length(b"HTTP/1.1 200 OK\n\nbody", false), 17);
    assert_eq!(reply_head_length(b"no head at all", false), 0);
}

#[test]
fn status_code_is_read_from_the_first_line() {
    assert_eq!(upstream_status("HTTP/1.1 200 OK\r\nA: b\r\n"), 200);
    assert_eq!(upstream_status("HTTP/1.1 503 Service Unavailable\r\n"), 503);
    assert_eq!(upstream_status("garbage"), 0);
    assert_eq!(upstream_status(""), 0);
}

#[test]
fn html_replies_are_recognised() {
    assert!(is_html_reply("HTTP/1.1 200 OK\r\nContent-Type: Text/HTML; charset=utf-8\r\n"));
    assert!(!is_html_reply("HTTP/1.1 200 OK\r\ncontent-type: text/event-stream\r\n"));
    assert!(!is_html_reply("HTTP/1.1 200 OK\r\n"));
}

#[test]
fn event_payloads_drop_blank_lines_and_done() {
    let body = b"data: {\"content\":\"a\"}\n\n data:{\"content\":\"b\"} \r\n\ndata: [DONE]\n\n";
    let p = event_payloads_of(body);
    assert_eq!(p, vec!["{\"content\":\"a\"}".to_string(), "{\"content\":\"b\"}".to_string()]);
}

#[test]
fn events_add_up_to_content_and_token_counts() {
    let events = vec![
        Some(obj(vec![("content", s("Hel")), ("stop", JsonValue::Bool(false))])),
        None,
        Some(obj(vec![("content", s("lo"))])),
        Some(obj(vec![
            ("content", s("")),
            ("stop", JsonValue::Bool(true)),
            ("tokens_evaluated", unsigned(7)),
            ("tokens_predicted", unsigned(3)),
        ])),
    ];
    let t = sum_events(&events);
    assert_eq!(t.content, "Hello");
    assert!(t.finished);
    assert_eq!(t.prompt_tokens, 7);
    assert_eq!(t.completion_tokens, 3);
}

#[test]
fn streamed_answer_has_three_chunks_and_done() {
    let events = vec![Some(obj(vec![
        ("content", s("hi")),
        ("stop", JsonValue::Bool(true)),
        ("tokens_evaluated", unsigned(2)),
        ("tokens_predicted", unsigned(1)),
    ]))];
    let a = stream_answer(&events, 1700000000123, 1700000000);
    let tail = "\"created\":1700000000,\"id\":\"chatcmpl-soul-1700000000123\",\"object\":\"chat.completion.chunk\"";
    let sse = format!(
        "data: {{\"choices\":[{{\"delta\":{{\"role\":\"assistant\"}},\"finish_reason\":null,\"index\":0}}],{t}}}\n\n\
data: {{\"choices\":[{{\"delta\":{{\"content\":\"hi\"}},\"finish_reason\":null,\"index\":0}}],{t}}}\n\n\
data: {{\"choices\":[{{\"delta\":{{}},\"finish_reason\":\"stop\",\"index\":0}}],{t},\"usage\":{{\"completion_tokens\":1,\"prompt_tokens\":2,\"total_tokens\":3}}}}\n\n\
data: [DONE]\n\n",
        t = tail
    );
    let expected = format!(
        "HTTP/1.1 200 OK\r\nAccess-Control-Allow-Origin: *\r\nContent-Type: text/event-stream\r\nCache-Control: no-cache\r\nConnection: close\r\nContent-Length: {}\r\n\r\n{}",
        sse.len(),
        sse
    );
    assert_eq!(a, expected);
}

#[test]
fn unfinished_stream_ends_with_length() {
    let events = vec![Some(obj(vec![("content", s("x"))]))];
    let a = stream_answer(&events, 1, 2);
    assert!(a.contains("\"finish_reason\":\"length\""));
    assert!(a.contains("\"total_tokens\":0"));
}

#[test]
fn whole_completion_becomes_chat_completion() {
    let v = obj(vec![
        ("content", s("ok")),
        ("stop", JsonValue::Bool(true)),
        ("model", s("qwen")),
        ("tokens_evaluated", unsigned(5)),
        ("tokens_predicted", unsigned(2)),
    ]);
    let a = completion_answer(&Some(v), b"ignored", 42, 7);
    let body = "{\"choices\":[{\"finish_reason\":\"stop\",\"index\":0,\"message\":{\"content\":\"ok\",\"role\":\"assistant\"}}],\"created\":7,\"id\":\"chatcmpl-soul-42\",\"model\":\"qwen\",\"object\":\"chat.completion\",\"usage\":{\"completion_tokens\":2,\"prompt_tokens\":5,\"total_tokens\":7}}";
    assert_eq!(
        a,
        format!("HTTP/1.1 200 OK\r\nAccess-Control-Allow-Origin: *\r\nContent-Type: application/json\r\nContent-Length: {}\r\nConnection: close\r\n\r\n{}", body.len(), body)
    );
}

#[test]
fn completion_without_fields_uses_defaults() {
    let a = completion_answer(&Some(obj(vec![])), b"{}", 1, 1);
    assert!(a.contains("\"finish_reason\":\"length\""));
    assert!(a.contains("\"content\":\"\""));
    assert!(a.contains("\"model\":\"model\""));
}

#[test]
fn unparsable_completion_is_bad_gateway_text() {
    let a = completion_answer(&None, b"oops\xff", 1, 1);
    assert_eq!(a, "HTTP/1.1 502 Bad Gateway\r\nAccess-Control-Allow-Origin: *\r\nContent-Type: text/plain; charset=utf-8\r\nContent-Length: 5\r\nConnection: close\r\n\r\noops\u{fffd}");
}

fn sent(r: UpstreamReply) -> Vec<u8> {
    match r {
        UpstreamReply::Send(b) => b,
        _ => panic!("expected bytes to send"),
    }
}

#[test]
fn empty_reply_is_bad_gateway() {
    let body = "{\"error\":\"empty upstream response\",\"message\":\"上游返回空响应\"}";
    let expected = format!(
        "HTTP/1.1 502 Bad Gateway\r\nAccess-Control-Allow-Origin: *\r\nContent-Type: application/json\r\nContent-Length: {}\r\nConnection: close\r\n\r\n{}",
        body.len(),
        body
    );
    assert_eq!(sent(examine_reply(b"", true)), expected.into_bytes());
}

#[test]
fn error_status_is_passed_through() {
    let all = b"HTTP/1.1 500 Internal\r\n\r\nboom".to_vec();
    assert_eq!(sent(examine_reply(&all, true)), all);
}

#[test]
fn tiny_bodies_are_rejected() {
    let streamed = sent(examine_reply(b"HTTP/1.1 200 OK\r\n\r\nx", true));
    assert!(String::from_utf8(streamed).unwrap().contains("模型未加载或已休眠"));
    let whole = sent(examine_reply(b"HTTP/1.1 200 OK\r\n\r\nx", false));
    assert_eq!(whole, b"HTTP/1.1 502 Bad Gateway\r\nAccess-Control-Allow-Origin: *\r\nContent-Type: application/json\r\nContent-Length: 0\r\n\r\n".to_vec());
}

#[test]
fn html_stream_is_rejected() {
    let r = sent(examine_reply(b"HTTP/1.1 200 OK\r\nContent-Type: text/html\r\n\r\n<html></html>", true));
    assert!(String::from_utf8(r).unwrap().contains("wrong content type"));
}

#[test]
fn good_replies_are_handed_on() {
    match examine_reply(b"HTTP/1.1 200 OK\r\n\r\ndata: {\"content\":\"a\"}\n\n", true) {
        UpstreamReply::Events(p) => assert_eq!(p, vec!["{\"content\":\"a\"}".to_string()]),
        _ => panic!("expected events"),
    }
    match examine_reply(b"HTTP/1.1 200 OK\r\n\r\n{\"content\":\"a\"}", false) {
        UpstreamReply::Body(b) => assert_eq!(b, b"{\"content\":\"a\"}".to_vec()),
        _ => panic!("expected a body"),
    }
}
