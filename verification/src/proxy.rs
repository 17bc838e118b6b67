//! The local proxy's decisions: how it splits a client's request head, which
//! requests it answers itself, where and in what form it forwards the others.
use vstd::prelude::*;
use vstd::slice::slice_to_vec;
use vstd::utf8::encode_utf8;
use crate::chatml::{
    chat_completion, chat_completion_text, chatml_prompt, convert_chat_to_native, convert_openai_to_native, converted,
    law_openai_stream_follows_request, openai_completion,
};
use crate::json::{array_of, as_bool, as_str, bool_of, get, member, push_quoted, quoted, str_of, JsonValue};
use crate::router::ModelRouter;
use crate::text::{
    chars_of, ci_starts_with, ci_starts_with_exec, contains, dec, ends_with, find_char, first_index,
    lemma_split_from_nonempty, lines, parse_unsigned, parse_unsigned_exec, push_digits, push_str, replace_all,
    split, split_chars, split_lines, str_contains, str_ends_with, str_eq, string_of, string_of_range,
    trim, trim_bounds, trim_end, trim_end_bound, views,
};

verus! {

broadcast use vstd::string::group_string_axioms;

/// The head of a client request, split as the proxy reads it.
pub struct RequestHead {
    /// The first line without trailing white space.
    pub request_line: String,
    /// Everything after the first line break.
    pub rest_headers: String,
    /// The first space-separated word of the request line.
    pub method: String,
    /// The second space-separated word of the request line (`/` where there is none).
    pub path: String,
}

/// The text before the first line break (all of it where there is none).
pub open spec fn first_line_of(h: Seq<char>) -> Seq<char> {
    match first_index(h, '\n') {
        Some(i) => h.take(i as int),
        None => h,
    }
}

/// The text after the first line break (nothing where there is none).
pub open spec fn after_first_line(h: Seq<char>) -> Seq<char> {
    match first_index(h, '\n') {
        Some(i) => h.skip(i as int + 1),
        None => Seq::empty(),
    }
}

/// The method of a request line: its first space-separated word.
pub open spec fn method_of(line: Seq<char>) -> Seq<char> {
    split(line, ' ')[0]
}

/// The path of a request line: its second space-separated word, `/` where there is none.
pub open spec fn path_of(line: Seq<char>) -> Seq<char> {
    if split(line, ' ').len() > 1 {
        split(line, ' ')[1]
    } else {
        "/"@
    }
}

/// Splits a request head (decoded text up to and including the blank line).
pub fn parse_request_head(header: &str) -> (r: RequestHead)
    ensures
        r.request_line@ == trim_end(first_line_of(header@)),
        r.rest_headers@ == after_first_line(header@),
        r.method@ == method_of(r.request_line@),
        r.path@ == path_of(r.request_line@),
{
    let cs = chars_of(header);
    let nl = find_char(&cs, '\n');
    let (line_end, rest_start) = match nl {
        Some(i) => {
            proof {
                crate::text::lemma_first_index(cs@, '\n', i as int);
            }
            assert(i < cs.len());
            (i, i + 1)
        },
        None => {
            proof {
                crate::text::lemma_first_index_none(cs@, '\n');
            }
            (cs.len(), cs.len())
        },
    };
    assert(cs@.subrange(0, line_end as int) =~= first_line_of(cs@));
    assert(cs@.subrange(rest_start as int, cs@.len() as int) =~= after_first_line(cs@));
    let e = trim_end_bound(&cs, 0, line_end);
    let request_line = string_of_range(&cs, 0, e);
    let rest_headers = string_of_range(&cs, rest_start, cs.len());
    let lcs = chars_of(request_line.as_str());
    let parts = split_chars(&lcs, ' ');
    proof {
        lemma_split_from_nonempty(lcs@, ' ', Seq::empty());
        assert(views(parts@)[0] == parts@[0]@);
    }
    let method = string_of(&parts[0]);
    let path = if parts.len() > 1 {
        assert(views(parts@)[1] == parts@[1]@);
        string_of(&parts[1])
    } else {
        String::from_str("/")
    };
    RequestHead { request_line, rest_headers, method, path }
}

/// The whole buffer read so far ends the head: its last four bytes are `\r\n\r\n`.
pub open spec fn head_complete(buf: Seq<u8>) -> bool {
    buf.len() >= 4 && buf.skip(buf.len() - 4) == seq![13u8, 10u8, 13u8, 10u8]
}

/// Whether the bytes read so far end with the blank line that closes a request head.
pub fn is_head_complete(buf: &[u8]) -> (r: bool)
    ensures
        r == head_complete(buf@),
{
    let n = buf.len();
    if n < 4 {
        return false;
    }
    let r = buf[n - 4] == 13 && buf[n - 3] == 10 && buf[n - 2] == 13 && buf[n - 1] == 10;
    assert(r == (buf@.skip(n - 4) =~= seq![13u8, 10u8, 13u8, 10u8]));
    r
}

/// Comma-separated pieces.
pub open spec fn comma_join(parts: Seq<Seq<char>>) -> Seq<char>
    decreases parts.len(),
{
    if parts.len() == 0 {
        Seq::empty()
    } else if parts.len() == 1 {
        parts[0]
    } else {
        comma_join(parts.drop_last()) + seq![','] + parts.last()
    }
}

/// One model of a listing: `{"name":..,"port":..}` for the `/chat/models`
/// form, `{"id":..,"object":"model","port":..}` for the OpenAI form.
pub open spec fn model_item(openai_form: bool, e: (String, u16)) -> Seq<char> {
    if openai_form {
        "{\"id\":"@ + quoted(e.0@) + ",\"object\":\"model\",\"port\":"@ + dec(e.1 as nat) + "}"@
    } else {
        "{\"name\":"@ + quoted(e.0@) + ",\"port\":"@ + dec(e.1 as nat) + "}"@
    }
}

/// The listed models, in the routing table's order.
pub open spec fn model_items(openai_form: bool, entries: Seq<(String, u16)>) -> Seq<Seq<char>> {
    entries.map_values(|e: (String, u16)| model_item(openai_form, e))
}

/// The body of the `/chat/models` answer.
pub open spec fn chat_models_json(entries: Seq<(String, u16)>) -> Seq<char> {
    "{\"models\":["@ + comma_join(model_items(false, entries)) + "]}"@
}

/// The body of the OpenAI model list answer.
pub open spec fn model_list_json(entries: Seq<(String, u16)>) -> Seq<char> {
    "{\"data\":["@ + comma_join(model_items(true, entries)) + "],\"object\":\"list\"}"@
}

fn push_model_items(out: &mut String, openai_form: bool, entries: &Vec<(String, u16)>)
    ensures
        final(out)@ == old(out)@ + comma_join(model_items(openai_form, entries@)),
{
    let ghost start = out@;
    let mut i: usize = 0;
    assert(model_items(openai_form, entries@.take(0)) =~= Seq::<Seq<char>>::empty());
    while i < entries.len()
        invariant
            i <= entries@.len(),
            out@ == start + comma_join(model_items(openai_form, entries@.take(i as int))),
        decreases entries@.len() - i,
    {
        let ghost before = out@;
        let ghost items = model_items(openai_form, entries@.take(i + 1));
        assert(items.drop_last() =~= model_items(openai_form, entries@.take(i as int)));
        assert(items.last() == model_item(openai_form, entries@[i as int]));
        let name = &entries[i].0;
        let port = entries[i].1;
        let mut item = String::new();
        if openai_form {
            push_str(&mut item, "{\"id\":");
            push_quoted(&mut item, name.as_str());
            push_str(&mut item, ",\"object\":\"model\",\"port\":");
        } else {
            push_str(&mut item, "{\"name\":");
            push_quoted(&mut item, name.as_str());
            push_str(&mut item, ",\"port\":");
        }
        push_digits(&mut item, port as u128, 10);
        push_str(&mut item, "}");
        assert(item@ =~= model_item(openai_form, entries@[i as int]));
        if i > 0 {
            push_str(out, ",");
        }
        push_str(out, item.as_str());
        assert(items.len() == i + 1);
        if i == 0 {
            assert(items.drop_last().len() == 0);
            assert(comma_join(items.drop_last()) == Seq::<char>::empty());
            assert(comma_join(items) == items[0]);
            assert(items[0] == items.last());
            assert(start + comma_join(items) == before + item@);
            assert(out@ == before + item@);
            assert(out@ == start + comma_join(items));
        } else {
            proof { reveal_strlit(","); }
            assert(comma_join(items) == comma_join(items.drop_last()) + seq![','] + items.last());
            assert(out@ == before + seq![','] + item@);
            assert(out@ =~= start + comma_join(items));
        }
        i += 1;
    }
    assert(entries@.take(entries@.len() as int) =~= entries@);
}

/// The `/chat/models` body for the routing table's entries.
pub fn chat_models_body(entries: &Vec<(String, u16)>) -> (r: String)
    ensures
        r@ == chat_models_json(entries@),
{
    let mut out = String::new();
    push_str(&mut out, "{\"models\":[");
    push_model_items(&mut out, false, entries);
    push_str(&mut out, "]}");
    assert(out@ =~= chat_models_json(entries@));
    out
}

/// The OpenAI model list body for the routing table's entries.
pub fn model_list_body(entries: &Vec<(String, u16)>) -> (r: String)
    ensures
        r@ == model_list_json(entries@),
{
    let mut out = String::new();
    push_str(&mut out, "{\"data\":[");
    push_model_items(&mut out, true, entries);
    push_str(&mut out, "],\"object\":\"list\"}");
    assert(out@ =~= model_list_json(entries@));
    out
}

/// A `200 OK` JSON answer whose `Content-Length` is the UTF-8 length of `body`.
pub open spec fn json_ok_text(body: Seq<char>) -> Seq<char> {
    "HTTP/1.1 200 OK\r\nAccess-Control-Allow-Origin: *\r\nContent-Type: application/json\r\nContent-Length: "@
        + dec(encode_utf8(body).len()) + "\r\nConnection: close\r\n\r\n"@ + body
}

/// Wraps a JSON body in a `200 OK` answer.
pub fn json_ok_response(body: &str) -> (r: String)
    ensures
        r@ == json_ok_text(body@),
{
    let mut out = String::new();
    push_str(
        &mut out,
        "HTTP/1.1 200 OK\r\nAccess-Control-Allow-Origin: *\r\nContent-Type: application/json\r\nContent-Length: ",
    );
    let n = body.as_bytes().len();
    push_digits(&mut out, n as u128, 10);
    push_str(&mut out, "\r\nConnection: close\r\n\r\n");
    push_str(&mut out, body);
    assert(out@ =~= json_ok_text(body@));
    out
}

/// The answer to a CORS preflight request.
pub open spec fn preflight_text() -> Seq<char> {
    "HTTP/1.1 204 No Content\r\nAccess-Control-Allow-Origin: *\r\nAccess-Control-Allow-Methods: GET, POST, OPTIONS\r\nAccess-Control-Allow-Headers: *\r\nConnection: close\r\n\r\n"@
}

/// The answer given while the model behind the proxy cannot be reached.
pub open spec fn waking_up_text() -> Seq<char> {
    let body = "{\"error\":\"Model waking up\",\"message\":\"模型正在唤醒，请稍候...\",\"retry_after\":5}"@;
    "HTTP/1.1 503 Service Unavailable\r\nAccess-Control-Allow-Origin: *\r\nContent-Type: application/json\r\nContent-Length: "@
        + dec(encode_utf8(body).len()) + "\r\nRetry-After: 5\r\nConnection: close\r\n\r\n"@ + body
}

/// The `503` answer sent when the upstream model server cannot be reached.
pub fn waking_up_response() -> (r: String)
    ensures
        r@ == waking_up_text(),
{
    let body = "{\"error\":\"Model waking up\",\"message\":\"模型正在唤醒，请稍候...\",\"retry_after\":5}";
    let mut out = String::new();
    push_str(
        &mut out,
        "HTTP/1.1 503 Service Unavailable\r\nAccess-Control-Allow-Origin: *\r\nContent-Type: application/json\r\nContent-Length: ",
    );
    let n = body.as_bytes().len();
    push_digits(&mut out, n as u128, 10);
    push_str(&mut out, "\r\nRetry-After: 5\r\nConnection: close\r\n\r\n");
    push_str(&mut out, body);
    assert(out@ =~= waking_up_text());
    out
}

/// The path asks for the running models in the proxy's own form.
pub open spec fn is_chat_models_path(path: Seq<char>) -> bool {
    path == "/chat/models"@ || ends_with(path, "/chat/models"@)
}

/// The path asks for the model list in the OpenAI or Ollama form.
pub open spec fn is_model_list_path(path: Seq<char>) -> bool {
    contains(path, "/v1/models"@) || contains(path, "/api/tags"@) || path == "/models"@ || ends_with(
        path,
        "/models"@,
    )
}

/// The answer the proxy gives by itself to a request head, if any: the
/// preflight answer to `OPTIONS`, then the model listings.
pub open spec fn own_answer(method: Seq<char>, path: Seq<char>, entries: Seq<(String, u16)>) -> Option<
    Seq<char>,
> {
    if method == "OPTIONS"@ {
        Some(preflight_text())
    } else if is_chat_models_path(path) {
        Some(json_ok_text(chat_models_json(entries)))
    } else if is_model_list_path(path) {
        Some(json_ok_text(model_list_json(entries)))
    } else {
        None
    }
}

/// The first line that starts, without regard to ASCII case, with `p`.
pub open spec fn first_line_starting(ls: Seq<Seq<char>>, p: Seq<char>) -> Option<Seq<char>>
    decreases ls.len(),
{
    if ls.len() == 0 {
        None
    } else if ci_starts_with(ls[0], p) {
        Some(ls[0])
    } else {
        first_line_starting(ls.drop_first(), p)
    }
}

/// The declared body length: the text after the first `:` (up to a second one)
/// of the first `Content-Length:` header line, trimmed and read as a `usize`;
/// zero where there is no such line or it does not read.
pub open spec fn content_length_of(rest: Seq<char>) -> nat {
    match first_line_starting(lines(rest), "content-length:"@) {
        Some(l) => if split(l, ':').len() > 1 {
            match parse_unsigned(trim(split(l, ':')[1]), usize::MAX as nat) {
                Some(v) => v,
                None => 0,
            }
        } else {
            0
        },
        None => 0,
    }
}

/// Finds the first line that starts with `pat`, ASCII letters compared without regard to case.
pub fn find_line_starting(ls: &Vec<Vec<char>>, pat: &Vec<char>) -> (r: Option<usize>)
    ensures
        match r {
            Some(k) => k < ls@.len() && first_line_starting(views(ls@), pat@) == Some(ls@[k as int]@),
            None => first_line_starting(views(ls@), pat@) is None,
        },
{
    let ghost all = views(ls@);
    let mut i: usize = 0;
    assert(all.skip(0) =~= all);
    while i < ls.len()
        invariant
            i <= ls@.len(),
            all == views(ls@),
            first_line_starting(all, pat@) == first_line_starting(all.skip(i as int), pat@),
        decreases ls@.len() - i,
    {
        assert(all.skip(i as int)[0] == ls@[i as int]@);
        if ci_starts_with_exec(&ls[i], pat) {
            return Some(i);
        }
        assert(all.skip(i as int).drop_first() =~= all.skip(i + 1));
        i += 1;
    }
    None
}

/// Reads the body length that the header lines declare.
pub fn content_length(rest_headers: &str) -> (r: usize)
    ensures
        r == content_length_of(rest_headers@),
{
    let cs = chars_of(rest_headers);
    let ls = split_lines(&cs);
    let pat = chars_of("content-length:");
    let found = find_line_starting(&ls, &pat);
    match found {
        None => 0,
        Some(k) => {
            assert(views(ls@)[k as int] == ls@[k as int]@);
            let parts = split_chars(&ls[k], ':');
            if parts.len() > 1 {
                assert(views(parts@)[1] == parts@[1]@);
                let (a, b) = trim_bounds(&parts[1], 0, parts[1].len());
                assert(parts@[1]@.subrange(0, parts@[1]@.len() as int) =~= parts@[1]@);
                match parse_unsigned_exec(&parts[1], a, b, usize::MAX as u64) {
                    Some(v) => v as usize,
                    None => 0,
                }
            } else {
                0
            }
        },
    }
}

/// What the proxy does once it has read a request head.
pub enum HeadDecision {
    /// Send this answer and close.
    Answer(String),
    /// Read a body of this many bytes and forward the request.
    ReadBody(usize),
}

/// Decides on a request head: answer preflight and model-listing requests
/// from the routing table, otherwise read the declared body.
pub fn decide_on_head(head: &RequestHead, router: &ModelRouter) -> (r: HeadDecision)
    ensures
        match own_answer(head.method@, head.path@, router.entry_seq()) {
            Some(text) => r is Answer && r->Answer_0@ == text,
            None => r == HeadDecision::ReadBody(content_length_of(head.rest_headers@) as usize),
        },
{
    if str_eq(head.method.as_str(), "OPTIONS") {
        let mut out = String::new();
        push_str(
            &mut out,
            "HTTP/1.1 204 No Content\r\nAccess-Control-Allow-Origin: *\r\nAccess-Control-Allow-Methods: GET, POST, OPTIONS\r\nAccess-Control-Allow-Headers: *\r\nConnection: close\r\n\r\n",
        );
        assert(out@ =~= preflight_text());
        return HeadDecision::Answer(out);
    }
    let path = head.path.as_str();
    if str_eq(path, "/chat/models") || str_ends_with(path, "/chat/models") {
        let body = chat_models_body(router.entries());
        return HeadDecision::Answer(json_ok_response(body.as_str()));
    }
    if str_contains(path, "/v1/models") || str_contains(path, "/api/tags") || str_eq(path, "/models")
        || str_ends_with(path, "/models") {
        let body = model_list_body(router.entries());
        return HeadDecision::Answer(json_ok_response(body.as_str()));
    }
    HeadDecision::ReadBody(content_length(head.rest_headers.as_str()))
}

/// The llama.cpp port a request goes to: the port after the proxy port of the
/// model that the body's `model` field names, where that is another running
/// model; otherwise this proxy's own llama.cpp port. (Port arithmetic wraps.)
pub open spec fn route_port(
    parsed: Option<JsonValue>,
    model_name: Seq<char>,
    routes: Map<Seq<char>, u16>,
    own_llama_port: u16,
) -> u16 {
    match parsed {
        Some(v) => match str_of(member(v, "model"@)) {
            Some(m) => if m.len() > 0 && m != model_name && routes.dom().contains(m) {
                ((routes[m] + 1) % 65536) as u16
            } else {
                own_llama_port
            },
            None => own_llama_port,
        },
        None => own_llama_port,
    }
}

/// Picks the llama.cpp port for a request whose body parsed as `parsed`
/// (`None` where the body is not JSON).
pub fn upstream_port(parsed: &Option<JsonValue>, model_name: &str, router: &ModelRouter, own_llama_port: u16) -> (r: u16)
    ensures
        r == route_port(*parsed, model_name@, router@, own_llama_port),
{
    match parsed {
        Some(v) => match as_str(get(v, "model")) {
            Some(m) => {
                let mc = chars_of(m.as_str());
                if mc.len() > 0 && !str_eq(m.as_str(), model_name) {
                    match router.get(m.as_str()) {
                        Some(p) => if p == 65535 {
                            0
                        } else {
                            p + 1
                        },
                        None => own_llama_port,
                    }
                } else {
                    own_llama_port
                }
            },
            None => own_llama_port,
        },
        None => own_llama_port,
    }
}

/// Whether the client asked for a streamed answer: the body's `stream` flag,
/// `true` where the body is empty, not JSON, or has no such flag.
pub open spec fn wants_stream(body_len: nat, parsed: Option<JsonValue>) -> bool {
    if body_len > 0 {
        match parsed {
            Some(v) => match bool_of(member(v, "stream"@)) {
                Some(b) => b,
                None => true,
            },
            None => true,
        }
    } else {
        true
    }
}

/// Reads the client's `stream` flag.
pub fn client_wants_stream(body: &[u8], parsed: &Option<JsonValue>) -> (r: bool)
    ensures
        r == wants_stream(body@.len(), *parsed),
{
    if body.len() > 0 {
        match parsed {
            Some(v) => match as_bool(get(v, "stream")) {
                Some(b) => b,
                None => true,
            },
            None => true,
        }
    } else {
        true
    }
}

/// The OpenAI chat completions endpoint.
pub open spec fn is_openai_path(path: Seq<char>) -> bool {
    contains(path, "/v1/chat/completions"@)
}

/// The proxy's own `/chat` endpoint (but not the model listing under it).
pub open spec fn is_chat_path(path: Seq<char>) -> bool {
    contains(path, "/chat"@) && !contains(path, "/v1/chat/completions"@) && !contains(path, "/chat/models"@)
}

/// The completion body a forwarded request carries in place of its own, if
/// it is converted: OpenAI requests (streaming as the client asked) and
/// `/chat` requests with a JSON object body holding `messages`.
pub open spec fn forward_completion(path: Seq<char>, body: Seq<u8>, parsed: Option<JsonValue>) -> Option<Seq<char>> {
    if body.len() == 0 {
        None
    } else if is_openai_path(path) {
        match parsed {
            Some(v) => openai_completion(v, !wants_stream(body.len(), parsed)),
            None => None,
        }
    } else if is_chat_path(path) {
        match parsed {
            Some(v) => chat_completion(v),
            None => None,
        }
    } else {
        None
    }
}

/// How the upstream reply goes back to the client.
pub enum ReplyMode {
    /// Rewritten into the OpenAI form; the flag says whether the client asked to stream.
    OpenAi(bool),
    /// Passed through as it comes.
    Raw,
}

/// A request ready to go to llama.cpp.
pub struct ForwardPlan {
    pub port: u16,
    pub request_line: String,
    pub headers: String,
    pub body: Vec<u8>,
    pub mode: ReplyMode,
}

/// Plans the forwarding of a request: where it goes, what it becomes and how
/// its reply comes back. `parsed` is the body parsed as JSON.
pub fn plan_forward(
    head: &RequestHead,
    body: &[u8],
    parsed: &Option<JsonValue>,
    model_name: &str,
    own_llama_port: u16,
    router: &ModelRouter,
) -> (r: ForwardPlan)
    ensures
        r.port == route_port(*parsed, model_name@, router@, own_llama_port),
        r.mode == (if is_openai_path(head.path@) {
            ReplyMode::OpenAi(wants_stream(body@.len(), *parsed))
        } else {
            ReplyMode::Raw
        }),
        converted(
            forward_completion(head.path@, body@, *parsed),
            body@,
            head.request_line@,
            head.path@,
            head.rest_headers@,
            (r.body@, r.headers@, r.request_line@),
        ),
{
    let port = upstream_port(parsed, model_name, router, own_llama_port);
    let path = head.path.as_str();
    let is_openai = str_contains(path, "/v1/chat/completions");
    let is_chat = str_contains(path, "/chat") && !is_openai && !str_contains(path, "/chat/models");
    let stream = client_wants_stream(body, parsed);
    let line = head.request_line.as_str();
    let rest = head.rest_headers.as_str();
    if is_openai {
        let (b, h, l) = convert_openai_to_native(body, parsed, line, path, rest, !stream);
        ForwardPlan { port, request_line: l, headers: h, body: b, mode: ReplyMode::OpenAi(stream) }
    } else if is_chat {
        let (b, h, l) = convert_chat_to_native(body, parsed, line, path, rest);
        ForwardPlan { port, request_line: l, headers: h, body: b, mode: ReplyMode::Raw }
    } else {
        ForwardPlan {
            port,
            request_line: String::from_str(line),
            headers: String::from_str(rest),
            body: slice_to_vec(body),
            mode: ReplyMode::Raw,
        }
    }
}

/// The bytes sent upstream: the request line, a line break, the header
/// lines, then the body.
pub open spec fn request_bytes(line: Seq<char>, headers: Seq<char>, body: Seq<u8>) -> Seq<u8> {
    encode_utf8(line) + seq![13u8, 10u8] + encode_utf8(headers) + body
}

/// Serialises a planned request.
pub fn upstream_request(plan: &ForwardPlan) -> (r: Vec<u8>)
    ensures
        r@ == request_bytes(plan.request_line@, plan.headers@, plan.body@),
{
    let mut out = slice_to_vec(plan.request_line.as_str().as_bytes());
    out.push(13u8);
    out.push(10u8);
    let mut h = slice_to_vec(plan.headers.as_str().as_bytes());
    out.append(&mut h);
    let mut b = slice_to_vec(plan.body.as_slice());
    out.append(&mut b);
    assert(out@ =~= request_bytes(plan.request_line@, plan.headers@, plan.body@));
    out
}

/// Once a model is registered at a proxy port, a request that names it (from
/// another model's proxy) goes to the llama.cpp port after that proxy port;
/// once it is unloaded, such a request stays with the proxy's own model.
pub proof fn law_request_routing(
    routes: Map<Seq<char>, u16>,
    name: Seq<char>,
    port: u16,
    body: JsonValue,
    own_name: Seq<char>,
    own_llama_port: u16,
)
    requires
        str_of(member(body, "model"@)) == Some(name),
        name.len() > 0,
        name != own_name,
    ensures
        route_port(Some(body), own_name, routes.insert(name, port), own_llama_port) == ((port + 1) % 65536) as u16,
        route_port(Some(body), own_name, routes.remove(name), own_llama_port) == own_llama_port,
{
}

/// A request that names no model, this proxy's own model, or a model that
/// is not running stays with this proxy's own llama.cpp port.
pub proof fn law_request_stays(
    routes: Map<Seq<char>, u16>,
    parsed: Option<JsonValue>,
    own_name: Seq<char>,
    own_llama_port: u16,
)
    requires
        match parsed {
            Some(v) => match str_of(member(v, "model"@)) {
                Some(m) => m.len() == 0 || m == own_name || !routes.dom().contains(m),
                None => true,
            },
            None => true,
        },
    ensures
        route_port(parsed, own_name, routes, own_llama_port) == own_llama_port,
{
}

/// A request whose path holds `/chat` (but is neither the OpenAI endpoint
/// nor the model listing) and whose body is a JSON object with a `messages`
/// array goes upstream as a `/completion` request: the path in its request
/// line becomes `/completion` and its body is the ChatML completion body.
pub proof fn law_chat_requests_become_completions(
    path: Seq<char>,
    body: Seq<u8>,
    v: JsonValue,
    request_line: Seq<char>,
    rest_headers: Seq<char>,
)
    requires
        contains(path, "/chat"@),
        !contains(path, "/v1/chat/completions"@),
        !contains(path, "/chat/models"@),
        body.len() > 0,
        v is Object,
        array_of(member(v, "messages"@)) is Some,
    ensures
        forward_completion(path, body, Some(v)) == Some(chat_completion_text(v, array_of(member(v, "messages"@))->0)),
        forall|r: (Seq<u8>, Seq<char>, Seq<char>)|
            #[trigger] converted(forward_completion(path, body, Some(v)), body, request_line, path, rest_headers, r) ==> {
                &&& r.0 == encode_utf8(chat_completion_text(v, array_of(member(v, "messages"@))->0))
                &&& r.2 == replace_all(request_line, path, "/completion"@)
            },
{
}

/// A request whose path does not hold `/chat` goes upstream as it came:
/// the same request line, headers and body.
pub proof fn law_other_requests_pass_through(
    path: Seq<char>,
    body: Seq<u8>,
    parsed: Option<JsonValue>,
    request_line: Seq<char>,
    rest_headers: Seq<char>,
)
    requires
        !contains(path, "/chat"@),
    ensures
        forward_completion(path, body, parsed) is None,
        forall|r: (Seq<u8>, Seq<char>, Seq<char>)|
            #[trigger] converted(forward_completion(path, body, parsed), body, request_line, path, rest_headers, r)
                ==> r == (body, rest_headers, request_line),
{
    if contains(path, "/v1/chat/completions"@) {
        reveal_strlit("/v1/chat/completions");
        reveal_strlit("/chat");
        let i = choose|i: int| crate::text::occurs_at(path, "/v1/chat/completions"@, i);
        assert(path.subrange(i + 3, i + 8) =~= "/chat"@) by {
            assert(path.subrange(i, i + 20)[3] == path[i + 3]);
            assert(path.subrange(i, i + 20)[4] == path[i + 4]);
            assert(path.subrange(i, i + 20)[5] == path[i + 5]);
            assert(path.subrange(i, i + 20)[6] == path[i + 6]);
            assert(path.subrange(i, i + 20)[7] == path[i + 7]);
        }
        assert(crate::text::occurs_at(path, "/chat"@, i + 3));
    }
}

/// A request to the OpenAI endpoint whose body is a JSON object with a
/// `messages` array goes upstream with the quoted ChatML prompt and the
/// client's own `stream` flag: `false` only where the client sets it to
/// `false` (the reply mode carries the same flag).
pub proof fn law_openai_requests_keep_stream(path: Seq<char>, body: Seq<u8>, v: JsonValue)
    requires
        contains(path, "/v1/chat/completions"@),
        body.len() > 0,
        v is Object,
        array_of(member(v, "messages"@)) is Some,
    ensures
        forward_completion(path, body, Some(v)) == Some(
            "{\"prompt\":"@ + quoted(chatml_prompt(array_of(member(v, "messages"@))->0)) + (if bool_of(
                member(v, "stream"@),
            ) == Some(false) {
                ",\"stream\":false}"@
            } else {
                ",\"stream\":true}"@
            }),
        ),
        wants_stream(body.len(), Some(v)) == (bool_of(member(v, "stream"@)) != Some(false)),
{
    law_openai_stream_follows_request(v, !wants_stream(body.len(), Some(v)));
}

} // verus!
