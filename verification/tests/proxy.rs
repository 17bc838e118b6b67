use soul_agent_launcher::chatml::{build_prompt, convert_chat_to_native, convert_openai_to_native};
use soul_agent_launcher::json::{to_json_string, JsonNumber, JsonValue};
use soul_agent_launcher::proxy::{
    chat_models_body, client_wants_stream, content_length, decide_on_head, is_head_complete, json_ok_response,
    model_list_body, parse_request_head, plan_forward, upstream_port, upstream_request, waking_up_response,
    HeadDecision, ReplyMode,
};
use soul_agent_launcher::router::ModelRouter;

fn s(x: &str) -> JsonValue {
    JsonValue::Str(x.to_string())
}

fn obj(members: Vec<(&str, JsonValue)>) -> JsonValue {
    JsonValue::Object(members.into_iter().map(|(k, v)| (k.to_string(), v)).collect())
}

fn unsigned(n: u64) -> JsonValue {
    JsonValue::Number(JsonNumber { as_u64: Some(n), as_i64: Some(n as i64), float_text: format!("{}.0", n) })
}

fn router_with(entries: &[(&str, u16)]) -> ModelRouter {
    let mut r = ModelRouter::new();
    for (n, p) in entries {
        r.insert(n.to_string(), *p);
    }
    r
}

#[test]
fn request_head_is_split_into_line_headers_method_and_path() {
    let h = parse_request_head("POST /v1/chat/completions HTTP/1.1\r\nHost: x\r\nContent-Length: 12\r\n\r\n");
    assert_eq!(h.request_line, "POST /v1/chat/completions HTTP/1.1");
    assert_eq!(h.rest_headers, "Host: x\r\nContent-Length: 12\r\n\r\n");
    assert_eq!(h.method, "POST");
    assert_eq!(h.path, "/v1/chat/completions");
}

#[test]
fn request_head_without_path_defaults_to_root() {
    let h = parse_request_head("GET");
    assert_eq!(h.request_line, "GET");
    assert_eq!(h.rest_headers, "");
    assert_eq!(h.method, "GET");
    assert_eq!(h.path, "/");
}

#[test]
fn head_is_complete_only_after_blank_line() {
    assert!(is_head_complete(b"GET / HTTP/1.1\r\n\r\n"));
    assert!(!is_head_complete(b"GET / HTTP/1.1\r\n"));
    assert!(!is_head_complete(b"\r\n"));
}

#[test]
fn content_length_is_read_case_insensitively() {
    assert_eq!(content_length("Host: a\r\ncontent-LENGTH:  42 \r\n\r\n"), 42);
    assert_eq!(content_length("Host: a\r\n\r\n"), 0);
    assert_eq!(content_length("Content-Length: abc\r\nContent-Length: 5\r\n"), 0);
    assert_eq!(content_length("Content-Length: +7\r\n"), 7);
}

#[test]
fn preflight_is_answered_with_no_content() {
    let h = parse_request_head("OPTIONS /v1/chat/completions HTTP/1.1\r\n\r\n");
    match decide_on_head(&h, &ModelRouter::new()) {
        HeadDecision::Answer(a) => assert_eq!(
            a,
            "HTTP/1.1 204 No Content\r\nAccess-Control-Allow-Origin: *\r\nAccess-Control-Allow-Methods: GET, POST, OPTIONS\r\nAccess-Control-Allow-Headers: *\r\nConnection: close\r\n\r\n"
        ),
        HeadDecision::ReadBody(_) => panic!("expected an answer"),
    }
}

#[test]
fn chat_models_lists_the_routing_table() {
    let router = router_with(&[("qwen", 20000), ("glm", 20002)]);
    let body = chat_models_body(router.entries());
    assert_eq!(body, "{\"models\":[{\"name\":\"qwen\",\"port\":20000},{\"name\":\"glm\",\"port\":20002}]}");
    let h = parse_request_head("GET /chat/models HTTP/1.1\r\n\r\n");
    match decide_on_head(&h, &router) {
        HeadDecision::Answer(a) => {
            assert_eq!(a, format!("HTTP/1.1 200 OK\r\nAccess-Control-Allow-Origin: *\r\nContent-Type: application/json\r\nContent-Length: {}\r\nConnection: close\r\n\r\n{}", body.len(), body));
        }
        HeadDecision::ReadBody(_) => panic!("expected an answer"),
    }
}

#[test]
fn model_list_is_in_openai_form() {
    let router = router_with(&[("qwen", 20000)]);
    let body = model_list_body(router.entries());
    assert_eq!(body, "{\"data\":[{\"id\":\"qwen\",\"object\":\"model\",\"port\":20000}],\"object\":\"list\"}");
    for path in ["/v1/models", "/api/tags", "/models", "/x/models"] {
        let h = parse_request_head(&format!("GET {} HTTP/1.1\r\n\r\n", path));
        match decide_on_head(&h, &router) {
            HeadDecision::Answer(a) => assert!(a.ends_with(&body)),
            HeadDecision::ReadBody(_) => panic!("expected an answer for {}", path),
        }
    }
}

#[test]
fn other_requests_read_their_body() {
    let h = parse_request_head("POST /completion HTTP/1.1\r\nContent-Length: 17\r\n\r\n");
    match decide_on_head(&h, &ModelRouter::new()) {
        HeadDecision::ReadBody(n) => assert_eq!(n, 17),
        HeadDecision::Answer(_) => panic!("expected to read a body"),
    }
}

#[test]
fn json_answer_counts_utf8_bytes() {
    let r = json_ok_response("{\"a\":\"中\"}");
    assert!(r.contains("Content-Length: 11\r\n"));
}

#[test]
fn requests_naming_another_running_model_are_routed_to_it() {
    let router = router_with(&[("qwen", 20000), ("glm", 20002)]);
    let body = Some(obj(vec![("model", s("glm"))]));
    assert_eq!(upstream_port(&body, "qwen", &router, 20001), 20003);
    let own = Some(obj(vec![("model", s("qwen"))]));
    assert_eq!(upstream_port(&own, "qwen", &router, 20001), 20001);
    let unknown = Some(obj(vec![("model", s("yi"))]));
    assert_eq!(upstream_port(&unknown, "qwen", &router, 20001), 20001);
    let empty = Some(obj(vec![("model", s(""))]));
    assert_eq!(upstream_port(&empty, "qwen", &router, 20001), 20001);
    assert_eq!(upstream_port(&None, "qwen", &router, 20001), 20001);
}

#[test]
fn routing_wraps_at_the_last_port() {
    let router = router_with(&[("big", 65535)]);
    let body = Some(obj(vec![("model", s("big"))]));
    assert_eq!(upstream_port(&body, "small", &router, 1), 0);
}

#[test]
fn stream_flag_defaults_to_true() {
    assert!(client_wants_stream(b"", &None));
    assert!(client_wants_stream(b"x", &None));
    let off = Some(obj(vec![("stream", JsonValue::Bool(false))]));
    assert!(!client_wants_stream(b"{}", &off));
    let none = Some(obj(vec![]));
    assert!(client_wants_stream(b"{}", &none));
}

#[test]
fn openai_requests_become_completion_requests() {
    let msgs = vec![obj(vec![("role", s("user")), ("content", s("hi"))])];
    let parsed = Some(obj(vec![("messages", JsonValue::Array(msgs)), ("stream", JsonValue::Bool(false))]));
    let body = b"{...}";
    let h = parse_request_head("POST /v1/chat/completions HTTP/1.1\r\nContent-Length: 5\r\n\r\n");
    let plan = plan_forward(&h, body, &parsed, "qwen", 20001, &ModelRouter::new());
    assert_eq!(plan.port, 20001);
    assert!(matches!(plan.mode, ReplyMode::OpenAi(false)));
    let expected = "{\"prompt\":\"<|im_start|>user\\nhi<|im_end|>\\n<|im_start|>assistant\\n\",\"stream\":false}";
    assert_eq!(String::from_utf8(plan.body.clone()).unwrap(), expected);
    assert_eq!(plan.request_line, "POST /completion HTTP/1.1");
    assert_eq!(plan.headers, format!("Content-Length: {}\r\n\r\n", expected.len()));
    let bytes = upstream_request(&plan);
    let text = String::from_utf8(bytes).unwrap();
    assert_eq!(text, format!("POST /completion HTTP/1.1\r\nContent-Length: {}\r\n\r\n{}", expected.len(), expected));
}

#[test]
fn other_requests_are_forwarded_unchanged() {
    let h = parse_request_head("GET /health HTTP/1.1\r\nHost: x\r\n\r\n");
    let plan = plan_forward(&h, b"", &None, "qwen", 20001, &ModelRouter::new());
    assert!(matches!(plan.mode, ReplyMode::Raw));
    assert_eq!(plan.request_line, "GET /health HTTP/1.1");
    assert_eq!(plan.headers, "Host: x\r\n\r\n");
    assert!(plan.body.is_empty());
}

#[test]
fn waking_up_answer_is_503() {
    let body = "{\"error\":\"Model waking up\",\"message\":\"模型正在唤醒，请稍候...\",\"retry_after\":5}";
    let expected = format!(
        "HTTP/1.1 503 Service Unavailable\r\nAccess-Control-Allow-Origin: *\r\nContent-Type: application/json\r\nContent-Length: {}\r\nRetry-After: 5\r\nConnection: close\r\n\r\n{}",
        body.len(),
        body
    );
    assert_eq!(waking_up_response(), expected);
}

#[test]
fn chatml_prompt_defaults_role_and_content() {
    let msgs = vec![obj(vec![("content", s("a"))]), obj(vec![("role", s("system"))])];
    assert_eq!(
        build_prompt(&msgs),
        "<|im_start|>user\na<|im_end|>\n<|im_start|>system\n<|im_end|>\n<|im_start|>assistant\n"
    );
}

#[test]
fn openai_conversion_keeps_requests_without_messages() {
    let parsed = Some(obj(vec![("prompt", s("x"))]));
    let (b, h, l) = convert_openai_to_native(b"{}", &parsed, "POST /v1/chat/completions HTTP/1.1", "/v1/chat/completions", "A: b\r\n\r\n", false);
    assert_eq!(b, b"{}".to_vec());
    assert_eq!(h, "A: b\r\n\r\n");
    assert_eq!(l, "POST /v1/chat/completions HTTP/1.1");
}

#[test]
fn chat_conversion_adds_the_members_asked_for() {
    let msgs = vec![obj(vec![("role", s("user")), ("content", s("q"))])];
    let parsed = Some(obj(vec![
        ("messages", JsonValue::Array(msgs)),
        ("thinking", JsonValue::Bool(true)),
        ("max_tokens", unsigned(64)),
        ("temperature", JsonValue::Number(JsonNumber { as_u64: None, as_i64: None, float_text: "0.7".to_string() })),
    ]));
    let (b, h, l) = convert_chat_to_native(b"{..}", &parsed, "POST /chat HTTP/1.1", "/chat", "Content-Length: 4\r\n\r\n");
    let expected = "{\"cache_prompt\":true,\"n_predict\":64,\"penalize_nl\":false,\"prompt\":\"<|im_start|>user\\nq<|im_end|>\\n<|im_start|>assistant\\n\",\"stream\":true,\"temperature\":0.7}";
    assert_eq!(String::from_utf8(b).unwrap(), expected);
    assert_eq!(h, format!("Content-Length: {}\r\n\r\n", expected.len()));
    assert_eq!(l, "POST /completion HTTP/1.1");
}

#[test]
fn json_text_escapes_as_serde_does() {
    let v = obj(vec![("a", s("x\"y\n\u{1}")), ("b", JsonValue::Array(vec![JsonValue::Null, JsonValue::Bool(true), unsigned(3)]))]);
    assert_eq!(to_json_string(&v), "{\"a\":\"x\\\"y\\n\\u0001\",\"b\":[null,true,3]}");
}

#[test]
fn json_text_matches_serde_json_on_every_ascii_character_and_nesting() {
    let mut all = String::new();
    for b in 0u8..128 {
        all.push(b as char);
        let one = (b as char).to_string();
        assert_eq!(to_json_string(&s(&one)), serde_json::to_string(&one).unwrap(), "byte {}", b);
    }
    all.push_str("é中😀\u{7f}\u{2028}");
    assert_eq!(to_json_string(&s(&all)), serde_json::to_string(&all).unwrap());
    let nested: serde_json::Value = serde_json::from_str(r#"{"b":[null,false,12,-3,{"a":"x\ty"}],"a":{}}"#).unwrap();
    let lib = obj(vec![
        ("a", obj(vec![])),
        ("b", JsonValue::Array(vec![
            JsonValue::Null,
            JsonValue::Bool(false),
            unsigned(12),
            JsonValue::Number(JsonNumber { as_u64: None, as_i64: Some(-3), float_text: "-3.0".to_string() }),
            obj(vec![("a", s("x\ty"))]),
        ])),
    ]);
    assert_eq!(to_json_string(&lib), serde_json::to_string(&nested).unwrap());
}
