//! The proxy's request rewriting: an OpenAI-style `/v1/chat/completions`
//! request or a `/chat` request becomes a llama.cpp `/completion` request
//! whose prompt is the conversation in ChatML.
use vstd::prelude::*;
use vstd::slice::slice_to_vec;
use vstd::utf8::encode_utf8;
use crate::json::{
    array_of, as_array, as_bool, as_str, as_u64, bool_of, get, member, quoted, str_of, to_json_string,
    u64_of, JsonNumber, JsonValue,
};
use crate::text::{
    chars_of, ci_starts_with, ci_starts_with_exec, dec, lines, push_digits, push_str, replace_all,
    replace_str, split_lines, views,
};

verus! {

/// The role of a message: its `role` string, `user` where it has none.
pub open spec fn role_of(m: JsonValue) -> Seq<char> {
    match str_of(member(m, "role"@)) {
        Some(r) => r,
        None => "user"@,
    }
}

/// The content of a message: its `content` string, empty where it has none.
pub open spec fn content_of(m: JsonValue) -> Seq<char> {
    match str_of(member(m, "content"@)) {
        Some(c) => c,
        None => Seq::empty(),
    }
}

/// One message as a ChatML turn.
pub open spec fn turn_text(m: JsonValue) -> Seq<char> {
    "<|im_start|>"@ + role_of(m) + "\n"@ + content_of(m) + "<|im_end|>"@
}

/// The turns of the messages, each followed by a line break.
pub open spec fn turns_text(msgs: Seq<JsonValue>) -> Seq<char>
    decreases msgs.len(),
{
    if msgs.len() == 0 {
        Seq::empty()
    } else {
        turns_text(msgs.drop_last()) + turn_text(msgs.last()) + "\n"@
    }
}

/// The ChatML prompt of a conversation: every turn on its own lines, then an
/// open assistant turn.
pub open spec fn chatml_prompt(msgs: Seq<JsonValue>) -> Seq<char> {
    turns_text(msgs) + "<|im_start|>assistant\n"@
}

/// Builds the ChatML prompt of a conversation.
pub fn build_prompt(msgs: &Vec<JsonValue>) -> (r: String)
    ensures
        r@ == chatml_prompt(msgs@),
{
    let mut out = String::new();
    let mut i: usize = 0;
    while i < msgs.len()
        invariant
            i <= msgs@.len(),
            out@ == turns_text(msgs@.take(i as int)),
        decreases msgs@.len() - i,
    {
        let ghost before = out@;
        let m = &msgs[i];
        push_str(&mut out, "<|im_start|>");
        match as_str(get(m, "role")) {
            Some(r) => push_str(&mut out, r.as_str()),
            None => push_str(&mut out, "user"),
        }
        push_str(&mut out, "\n");
        match as_str(get(m, "content")) {
            Some(c) => push_str(&mut out, c.as_str()),
            None => {},
        }
        push_str(&mut out, "<|im_end|>");
        push_str(&mut out, "\n");
        assert(msgs@.take(i + 1).drop_last() =~= msgs@.take(i as int));
        assert(out@ =~= before + turn_text(msgs@[i as int]) + "\n"@);
        i += 1;
    }
    push_str(&mut out, "<|im_start|>assistant\n");
    assert(msgs@.take(msgs@.len() as int) =~= msgs@);
    out
}

/// A header line with its `Content-Length` replaced by `cl`.
pub open spec fn rewrite_line(line: Seq<char>, cl: nat) -> Seq<char> {
    if ci_starts_with(line, "content-length:"@) {
        "Content-Length: "@ + dec(cl)
    } else {
        line
    }
}

/// The non-empty header lines, each rewritten.
pub open spec fn header_parts(ls: Seq<Seq<char>>, cl: nat) -> Seq<Seq<char>>
    decreases ls.len(),
{
    if ls.len() == 0 {
        Seq::empty()
    } else if ls.last().len() == 0 {
        header_parts(ls.drop_last(), cl)
    } else {
        header_parts(ls.drop_last(), cl).push(rewrite_line(ls.last(), cl))
    }
}

/// Texts joined by `\r\n`.
pub open spec fn join_crlf(parts: Seq<Seq<char>>) -> Seq<char>
    decreases parts.len(),
{
    if parts.len() == 0 {
        Seq::empty()
    } else if parts.len() == 1 {
        parts[0]
    } else {
        join_crlf(parts.drop_last()) + "\r\n"@ + parts.last()
    }
}

/// The headers after the request line, rewritten for a body of `cl` bytes:
/// empty lines dropped, the `Content-Length` line replaced, lines joined by
/// `\r\n` and closed by an empty line.
pub open spec fn rewritten_headers(rest: Seq<char>, cl: nat) -> Seq<char> {
    join_crlf(header_parts(lines(rest), cl)) + "\r\n\r\n"@
}

/// Rewrites the headers for a new body of `cl` bytes.
pub fn rewrite_headers(rest: &str, cl: usize) -> (r: String)
    ensures
        r@ == rewritten_headers(rest@, cl as nat),
{
    let ls = split_lines(&chars_of(rest));
    let pat = chars_of("content-length:");
    let mut out = String::new();
    let mut count: usize = 0;
    let mut i: usize = 0;
    while i < ls.len()
        invariant
            i <= ls@.len(),
            pat@ == "content-length:"@,
            count == header_parts(views(ls@).take(i as int), cl as nat).len(),
            count <= i,
            out@ == join_crlf(header_parts(views(ls@).take(i as int), cl as nat)),
        decreases ls@.len() - i,
    {
        let line = &ls[i];
        let ghost prefix = views(ls@).take(i as int);
        assert(views(ls@).take(i + 1).drop_last() =~= prefix);
        assert(views(ls@).take(i + 1).last() == line@);
        if line.len() > 0 {
            let ghost before = out@;
            if count > 0 {
                push_str(&mut out, "\r\n");
            }
            if ci_starts_with_exec(line, &pat) {
                push_str(&mut out, "Content-Length: ");
                push_digits(&mut out, cl as u128, 10);
            } else {
                let mut j: usize = 0;
                let ghost mid = out@;
                while j < line.len()
                    invariant
                        j <= line@.len(),
                        out@ == mid + line@.take(j as int),
                    decreases line@.len() - j,
                {
                    crate::text::push_char(&mut out, line[j]);
                    assert(out@ =~= mid + line@.take(j + 1));
                    j += 1;
                }
                assert(line@.take(line@.len() as int) =~= line@);
            }
            let ghost parts = header_parts(prefix, cl as nat);
            assert(header_parts(views(ls@).take(i + 1), cl as nat) == parts.push(rewrite_line(line@, cl as nat)));
            assert(parts.push(rewrite_line(line@, cl as nat)).drop_last() =~= parts);
            if count > 0 {
                assert(out@ =~= before + "\r\n"@ + rewrite_line(line@, cl as nat));
            } else {
                assert(out@ =~= rewrite_line(line@, cl as nat));
            }
            count += 1;
        }
        i += 1;
    }
    push_str(&mut out, "\r\n\r\n");
    assert(views(ls@).take(ls@.len() as int) =~= views(ls@));
    out
}

/// `true` or `false`.
pub open spec fn bool_text(b: bool) -> Seq<char> {
    if b {
        "true"@
    } else {
        "false"@
    }
}

/// The body of a llama.cpp completion request: the prompt and whether to stream.
pub open spec fn completion_text(prompt: Seq<char>, stream: bool) -> Seq<char> {
    "{\"prompt\":"@ + quoted(prompt) + ",\"stream\":"@ + bool_text(stream) + "}"@
}

/// Whether an OpenAI-style request streams: never where the caller forces it
/// off, otherwise its `stream` flag, `true` where it has none.
pub open spec fn openai_stream(v: JsonValue, force_no_stream: bool) -> bool {
    if force_no_stream {
        false
    } else {
        match bool_of(member(v, "stream"@)) {
            Some(b) => b,
            None => true,
        }
    }
}

/// The completion body for an OpenAI-style request, where the request is an
/// object with a `messages` array.
pub open spec fn openai_completion(v: JsonValue, force_no_stream: bool) -> Option<Seq<char>> {
    match v {
        JsonValue::Object(_) => match array_of(member(v, "messages"@)) {
            Some(msgs) => Some(completion_text(chatml_prompt(msgs), openai_stream(v, force_no_stream))),
            None => None,
        },
        _ => None,
    }
}

/// The request after conversion: the new body bytes, the new headers and the
/// new request line, or the three as received where no conversion applies.
pub open spec fn converted(
    completion: Option<Seq<char>>,
    body: Seq<u8>,
    request_line: Seq<char>,
    path: Seq<char>,
    rest_headers: Seq<char>,
    r: (Seq<u8>, Seq<char>, Seq<char>),
) -> bool {
    match completion {
        None => r == (body, rest_headers, request_line),
        Some(text) => {
            &&& r.0 == encode_utf8(text)
            &&& r.1 == rewritten_headers(rest_headers, encode_utf8(text).len())
            &&& r.2 == replace_all(request_line, path, "/completion"@)
        },
    }
}

fn push_bool(out: &mut String, b: bool)
    ensures
        final(out)@ == old(out)@ + bool_text(b),
{
    if b {
        push_str(out, "true");
    } else {
        push_str(out, "false");
    }
}

fn finish_conversion(text: String, request_line: &str, path: &str, rest_headers: &str) -> (r: (
    Vec<u8>,
    String,
    String,
))
    ensures
        r.0@ == encode_utf8(text@),
        r.1@ == rewritten_headers(rest_headers@, encode_utf8(text@).len()),
        r.2@ == replace_all(request_line@, path@, "/completion"@),
{
    let new_body = slice_to_vec(text.as_str().as_bytes());
    let new_cl = new_body.len();
    let headers = rewrite_headers(rest_headers, new_cl);
    let line = replace_str(request_line, path, "/completion");
    (new_body, headers, line)
}

/// Rewrites an OpenAI-style chat request as a llama.cpp `/completion`
/// request. `parsed` is the body parsed as JSON (`None` where it is not JSON).
/// The prompt is the conversation in ChatML; `stream` follows the request,
/// `true` by default, `false` where `force_no_stream` is set.
pub fn convert_openai_to_native(
    body: &[u8],
    parsed: &Option<JsonValue>,
    request_line: &str,
    path: &str,
    rest_headers: &str,
    force_no_stream: bool,
) -> (r: (Vec<u8>, String, String))
    ensures
        converted(
            if body@.len() == 0 {
                None
            } else {
                match *parsed {
                    Some(v) => openai_completion(v, force_no_stream),
                    None => None,
                }
            },
            body@,
            request_line@,
            path@,
            rest_headers@,
            (r.0@, r.1@, r.2@),
        ),
{
    let unchanged = (slice_to_vec(body), String::from_str(rest_headers), String::from_str(request_line));
    if body.len() == 0 {
        return unchanged;
    }
    match parsed {
        Some(v) => {
            match v {
                JsonValue::Object(_) => {},
                _ => return unchanged,
            }
            let msgs = match as_array(get(v, "messages")) {
                Some(m) => m,
                None => return unchanged,
            };
            let stream = if force_no_stream {
                false
            } else {
                match as_bool(get(v, "stream")) {
                    Some(b) => b,
                    None => true,
                }
            };
            let prompt = build_prompt(msgs);
            let mut text = String::new();
            push_str(&mut text, "{\"prompt\":");
            crate::json::push_quoted(&mut text, prompt.as_str());
            push_str(&mut text, ",\"stream\":");
            push_bool(&mut text, stream);
            push_str(&mut text, "}");
            assert(text@ =~= completion_text(chatml_prompt(msgs@), stream));
            finish_conversion(text, request_line, path, rest_headers)
        },
        None => unchanged,
    }
}

/// The float text of a JSON number member, where the member is a number.
pub open spec fn number_float_text(v: Option<JsonValue>) -> Option<Seq<char>> {
    match v {
        Some(JsonValue::Number(n)) => Some(n.float_text@),
        _ => None,
    }
}

/// Whether a `/chat` request asks for prompt caching: it sets `thinking`, or
/// gives a non-empty `tools` array.
pub open spec fn chat_cache_prompt(v: JsonValue) -> bool {
    bool_of(member(v, "thinking"@)) is Some || (match array_of(member(v, "tools"@)) {
        Some(tools) => tools.len() > 0,
        None => false,
    })
}

/// `"cache_prompt":true,` where the request asks for prompt caching.
pub open spec fn cache_segment(v: JsonValue) -> Seq<char> {
    if chat_cache_prompt(v) {
        "\"cache_prompt\":true,"@
    } else {
        Seq::empty()
    }
}

/// `"n_predict":N,` where the request gives an unsigned `max_tokens`.
pub open spec fn n_predict_segment(v: JsonValue) -> Seq<char> {
    match u64_of(member(v, "max_tokens"@)) {
        Some(n) => "\"n_predict\":"@ + dec(n as nat) + ","@,
        None => Seq::empty(),
    }
}

/// `"penalize_nl":false,` where the request sets `thinking`.
pub open spec fn penalize_segment(v: JsonValue) -> Seq<char> {
    if bool_of(member(v, "thinking"@)) is Some {
        "\"penalize_nl\":false,"@
    } else {
        Seq::empty()
    }
}

/// `,"temperature":T` where the request gives a numeric `temperature`.
pub open spec fn temperature_segment(v: JsonValue) -> Seq<char> {
    match number_float_text(member(v, "temperature"@)) {
        Some(t) => ",\"temperature\":"@ + t,
        None => Seq::empty(),
    }
}

/// Whether a `/chat` request streams: its `stream` flag, `true` where it has none.
pub open spec fn chat_stream(v: JsonValue) -> bool {
    match bool_of(member(v, "stream"@)) {
        Some(b) => b,
        None => true,
    }
}

/// The completion body for a `/chat` request: the members below, in key
/// order, each only where the request gives what it comes from:
/// `cache_prompt: true` (thinking or tools), `n_predict` (an unsigned
/// `max_tokens`), `penalize_nl: false` (thinking), `prompt`, `stream`
/// (`true` by default) and `temperature` (a numeric `temperature`).
pub open spec fn chat_completion_text(v: JsonValue, msgs: Seq<JsonValue>) -> Seq<char> {
    "{"@ + cache_segment(v) + n_predict_segment(v) + penalize_segment(v) + "\"prompt\":"@ + quoted(
        chatml_prompt(msgs),
    ) + ",\"stream\":"@ + bool_text(chat_stream(v)) + temperature_segment(v) + "}"@
}

fn push_cache_segment(out: &mut String, v: &JsonValue)
    ensures
        final(out)@ == old(out)@ + cache_segment(*v),
{
    let thinking = as_bool(get(v, "thinking"));
    let has_tools = match as_array(get(v, "tools")) {
        Some(t) => t.len() > 0,
        None => false,
    };
    if thinking.is_some() || has_tools {
        push_str(out, "\"cache_prompt\":true,");
    } else {
        assert(final(out)@ =~= old(out)@ + Seq::<char>::empty());
    }
}

fn push_n_predict_segment(out: &mut String, v: &JsonValue)
    ensures
        final(out)@ == old(out)@ + n_predict_segment(*v),
{
    match as_u64(get(v, "max_tokens")) {
        Some(n) => {
            let ghost before = out@;
            push_str(out, "\"n_predict\":");
            push_digits(out, n as u128, 10);
            push_str(out, ",");
            assert(out@ =~= before + n_predict_segment(*v));
        },
        None => {
            assert(out@ =~= out@ + Seq::<char>::empty());
        },
    }
}

fn push_penalize_segment(out: &mut String, v: &JsonValue)
    ensures
        final(out)@ == old(out)@ + penalize_segment(*v),
{
    if as_bool(get(v, "thinking")).is_some() {
        push_str(out, "\"penalize_nl\":false,");
    } else {
        assert(out@ =~= out@ + Seq::<char>::empty());
    }
}

fn push_temperature_segment(out: &mut String, v: &JsonValue)
    ensures
        final(out)@ == old(out)@ + temperature_segment(*v),
{
    match get(v, "temperature") {
        Some(JsonValue::Number(n)) => {
            let ghost before = out@;
            push_str(out, ",\"temperature\":");
            push_str(out, n.float_text.as_str());
            assert(out@ =~= before + temperature_segment(*v));
        },
        _ => {
            assert(out@ =~= out@ + Seq::<char>::empty());
        },
    }
}

/// Builds the completion body of a `/chat` request.
pub fn chat_completion_body(v: &JsonValue, msgs: &Vec<JsonValue>) -> (r: String)
    ensures
        r@ == chat_completion_text(*v, msgs@),
{
    let stream = match as_bool(get(v, "stream")) {
        Some(b) => b,
        None => true,
    };
    let prompt = build_prompt(msgs);
    let mut text = String::new();
    push_str(&mut text, "{");
    push_cache_segment(&mut text, v);
    push_n_predict_segment(&mut text, v);
    push_penalize_segment(&mut text, v);
    push_str(&mut text, "\"prompt\":");
    crate::json::push_quoted(&mut text, prompt.as_str());
    push_str(&mut text, ",\"stream\":");
    push_bool(&mut text, stream);
    push_temperature_segment(&mut text, v);
    push_str(&mut text, "}");
    assert(text@ =~= chat_completion_text(*v, msgs@));
    text
}

/// The completion body for a `/chat` request, where the request is an object
/// with a `messages` array.
pub open spec fn chat_completion(v: JsonValue) -> Option<Seq<char>> {
    match v {
        JsonValue::Object(_) => match array_of(member(v, "messages"@)) {
            Some(msgs) => Some(chat_completion_text(v, msgs)),
            None => None,
        },
        _ => None,
    }
}

/// Rewrites a `/chat` request as a llama.cpp `/completion` request with the
/// body of [`chat_completion_text`]. `parsed` is the body parsed as JSON.
pub fn convert_chat_to_native(
    body: &[u8],
    parsed: &Option<JsonValue>,
    request_line: &str,
    path: &str,
    rest_headers: &str,
) -> (r: (Vec<u8>, String, String))
    ensures
        converted(
            if body@.len() == 0 {
                None
            } else {
                match *parsed {
                    Some(v) => chat_completion(v),
                    None => None,
                }
            },
            body@,
            request_line@,
            path@,
            rest_headers@,
            (r.0@, r.1@, r.2@),
        ),
{
    let unchanged = (slice_to_vec(body), String::from_str(rest_headers), String::from_str(request_line));
    if body.len() == 0 {
        return unchanged;
    }
    match parsed {
        Some(v) => {
            match v {
                JsonValue::Object(_) => {},
                _ => return unchanged,
            }
            let msgs = match as_array(get(v, "messages")) {
                Some(m) => m,
                None => return unchanged,
            };
            let text = chat_completion_body(v, msgs);

            finish_conversion(text, request_line, path, rest_headers)
        },
        None => unchanged,
    }
}

/// A `/chat` request's `stream` flag decides the completion body's: right
/// after the quoted prompt comes `"stream":false` where the request sets
/// `stream` to `false`, and `"stream":true` where it sets it to `true` or
/// gives no boolean `stream`.
pub proof fn law_chat_stream_follows_request(v: JsonValue, msgs: Seq<JsonValue>)
    ensures
        bool_of(member(v, "stream"@)) == Some(false) ==> exists|pre: Seq<char>, post: Seq<char>|
            chat_completion_text(v, msgs) == pre + "\"prompt\":"@ + quoted(chatml_prompt(msgs))
                + ",\"stream\":false"@ + post,
        bool_of(member(v, "stream"@)) != Some(false) ==> exists|pre: Seq<char>, post: Seq<char>|
            chat_completion_text(v, msgs) == pre + "\"prompt\":"@ + quoted(chatml_prompt(msgs))
                + ",\"stream\":true"@ + post,
{
    reveal_strlit(",\"stream\":");
    reveal_strlit("true");
    reveal_strlit("false");
    reveal_strlit(",\"stream\":true");
    reveal_strlit(",\"stream\":false");
    let pre = "{"@ + cache_segment(v) + n_predict_segment(v) + penalize_segment(v);
    let post = temperature_segment(v) + "}"@;
    let mid = "\"prompt\":"@ + quoted(chatml_prompt(msgs));
    assert(pre + mid =~= pre + "\"prompt\":"@ + quoted(chatml_prompt(msgs)));
    if bool_of(member(v, "stream"@)) == Some(false) {
        assert(",\"stream\":"@ + bool_text(chat_stream(v)) =~= ",\"stream\":false"@);
        assert(chat_completion_text(v, msgs) =~= pre + mid + ",\"stream\":false"@ + post);
        assert(chat_completion_text(v, msgs) == pre + "\"prompt\":"@ + quoted(chatml_prompt(msgs)) + ",\"stream\":false"@ + post);
    } else {
        assert(",\"stream\":"@ + bool_text(chat_stream(v)) =~= ",\"stream\":true"@);
        assert(chat_completion_text(v, msgs) =~= pre + mid + ",\"stream\":true"@ + post);
        assert(chat_completion_text(v, msgs) == pre + "\"prompt\":"@ + quoted(chatml_prompt(msgs)) + ",\"stream\":true"@ + post);
    }
}

/// The text of a `/chat` completion body between its optional leading
/// members and its optional temperature.
spec fn chat_core_text(v: JsonValue, msgs: Seq<JsonValue>) -> Seq<char> {
    "\"prompt\":"@ + quoted(chatml_prompt(msgs)) + ",\"stream\":"@ + bool_text(chat_stream(v))
}

proof fn lemma_chat_text_parts(v: JsonValue, msgs: Seq<JsonValue>)
    ensures
        chat_completion_text(v, msgs) == "{"@ + cache_segment(v) + n_predict_segment(v) + penalize_segment(v)
            + chat_core_text(v, msgs) + temperature_segment(v) + "}"@,
{
    assert(chat_completion_text(v, msgs) =~= "{"@ + cache_segment(v) + n_predict_segment(v) + penalize_segment(v)
        + chat_core_text(v, msgs) + temperature_segment(v) + "}"@);
}

proof fn lemma_chat_n_predict(v: JsonValue, msgs: Seq<JsonValue>, n: u64)
    requires
        u64_of(member(v, "max_tokens"@)) == Some(n),
    ensures
        exists|pre: Seq<char>, post: Seq<char>|
            chat_completion_text(v, msgs) == pre + "\"n_predict\":"@ + dec(n as nat) + ","@ + post,
{
    lemma_chat_text_parts(v, msgs);
    let pre = "{"@ + cache_segment(v);
    let post = penalize_segment(v) + chat_core_text(v, msgs) + temperature_segment(v) + "}"@;
    assert(chat_completion_text(v, msgs) =~= pre + "\"n_predict\":"@ + dec(n as nat) + ","@ + post);
    assert(chat_completion_text(v, msgs) == pre + "\"n_predict\":"@ + dec(n as nat) + ","@ + post);
}

proof fn lemma_chat_temperature(v: JsonValue, msgs: Seq<JsonValue>, t: Seq<char>)
    requires
        number_float_text(member(v, "temperature"@)) == Some(t),
    ensures
        exists|pre: Seq<char>| chat_completion_text(v, msgs) == pre + ",\"temperature\":"@ + t + "}"@,
{
    lemma_chat_text_parts(v, msgs);
    let pre = "{"@ + cache_segment(v) + n_predict_segment(v) + penalize_segment(v) + chat_core_text(v, msgs);
    assert(chat_completion_text(v, msgs) == pre + ",\"temperature\":"@ + t + "}"@);
}

proof fn lemma_chat_cache_prompt(v: JsonValue, msgs: Seq<JsonValue>)
    requires
        chat_cache_prompt(v),
    ensures
        exists|post: Seq<char>| chat_completion_text(v, msgs) == "{\"cache_prompt\":true,"@ + post,
{
    reveal_strlit("{");
    reveal_strlit("\"cache_prompt\":true,");
    reveal_strlit("{\"cache_prompt\":true,");
    lemma_chat_text_parts(v, msgs);
    let post = n_predict_segment(v) + penalize_segment(v) + chat_core_text(v, msgs) + temperature_segment(v) + "}"@;
    assert(chat_completion_text(v, msgs) =~= "{\"cache_prompt\":true,"@ + post);
}

proof fn lemma_chat_penalize(v: JsonValue, msgs: Seq<JsonValue>)
    requires
        bool_of(member(v, "thinking"@)) is Some,
    ensures
        exists|pre: Seq<char>, post: Seq<char>| chat_completion_text(v, msgs) == pre + "\"penalize_nl\":false,"@ + post,
{
    lemma_chat_text_parts(v, msgs);
    let pre = "{"@ + cache_segment(v) + n_predict_segment(v);
    let post = chat_core_text(v, msgs) + temperature_segment(v) + "}"@;
    assert(chat_completion_text(v, msgs) =~= pre + "\"penalize_nl\":false,"@ + post);
    assert(chat_completion_text(v, msgs) == pre + "\"penalize_nl\":false,"@ + post);
}

/// The optional members of a `/chat` completion body follow the request: an
/// unsigned `max_tokens` N gives `"n_predict":N,`; a numeric `temperature`
/// closes the body as `,"temperature":T}`; a boolean `thinking`, or a
/// non-empty `tools` array, opens it with `{"cache_prompt":true,`; and a
/// boolean `thinking` gives `"penalize_nl":false,`.
pub proof fn law_chat_body_members(v: JsonValue, msgs: Seq<JsonValue>)
    ensures
        u64_of(member(v, "max_tokens"@)) matches Some(n) ==> exists|pre: Seq<char>, post: Seq<char>|
            chat_completion_text(v, msgs) == pre + "\"n_predict\":"@ + dec(n as nat) + ","@ + post,
        number_float_text(member(v, "temperature"@)) matches Some(t) ==> exists|pre: Seq<char>|
            chat_completion_text(v, msgs) == pre + ",\"temperature\":"@ + t + "}"@,
        bool_of(member(v, "thinking"@)) is Some || (array_of(member(v, "tools"@)) matches Some(tools) && tools.len()
            > 0) ==> exists|post: Seq<char>| chat_completion_text(v, msgs) == "{\"cache_prompt\":true,"@ + post,
        bool_of(member(v, "thinking"@)) is Some ==> exists|pre: Seq<char>, post: Seq<char>|
            chat_completion_text(v, msgs) == pre + "\"penalize_nl\":false,"@ + post,
{
    if let Some(n) = u64_of(member(v, "max_tokens"@)) {
        lemma_chat_n_predict(v, msgs, n);
    }
    if let Some(t) = number_float_text(member(v, "temperature"@)) {
        lemma_chat_temperature(v, msgs, t);
    }
    if chat_cache_prompt(v) {
        lemma_chat_cache_prompt(v, msgs);
    }
    if bool_of(member(v, "thinking"@)) is Some {
        lemma_chat_penalize(v, msgs);
    }
}

/// An OpenAI-style request with a `messages` array becomes exactly the
/// quoted ChatML prompt and a `stream` flag: `true` unless the caller forces
/// streaming off or the request sets `stream` to `false`.
pub proof fn law_openai_stream_follows_request(v: JsonValue, force_no_stream: bool)
    requires
        v is Object,
        array_of(member(v, "messages"@)) is Some,
    ensures
        openai_completion(v, force_no_stream) == Some(
            "{\"prompt\":"@ + quoted(chatml_prompt(array_of(member(v, "messages"@))->0)) + (if !force_no_stream
                && bool_of(member(v, "stream"@)) != Some(false) {
                ",\"stream\":true}"@
            } else {
                ",\"stream\":false}"@
            }),
        ),
{
    reveal_strlit(",\"stream\":");
    reveal_strlit("true");
    reveal_strlit("false");
    reveal_strlit("}");
    reveal_strlit(",\"stream\":true}");
    reveal_strlit(",\"stream\":false}");
    let head = "{\"prompt\":"@ + quoted(chatml_prompt(array_of(member(v, "messages"@))->0));
    let s = openai_stream(v, force_no_stream);
    if s {
        assert(completion_text(chatml_prompt(array_of(member(v, "messages"@))->0), s) =~= head + ",\"stream\":true}"@);
    } else {
        assert(completion_text(chatml_prompt(array_of(member(v, "messages"@))->0), s) =~= head + ",\"stream\":false}"@);
    }
}

} // verus!
