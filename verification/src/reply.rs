//! The proxy's handling of llama.cpp replies to OpenAI-style requests: where
//! the reply's head ends, what status it carries, and the OpenAI-form answer
//! the client gets in its place.
use vstd::prelude::*;
use vstd::slice::slice_to_vec;
use vstd::utf8::encode_utf8;
use crate::json::{as_bool, as_str, as_u64, bool_of, get, member, push_quoted, quoted, str_of, u64_of, JsonValue};
use crate::proxy::{find_line_starting, first_line_starting, json_ok_response, json_ok_text};
use crate::text::{
    ascii_lower, ascii_lower_exec, chars_of, ci_starts_with_exec, contains, contains_exec, dec, lines, lossy_text,
    parse_unsigned, parse_unsigned_exec, push_digits, push_str, split, split_chars, split_lines,
    starts_with, str_eq, string_of_range, trim, trim_bounds, utf8_lossy, views,
};

verus! {

broadcast use vstd::string::group_string_axioms;

/// `s` holds the bytes `p` at position `i`.
pub open spec fn bytes_at(s: Seq<u8>, p: Seq<u8>, i: int) -> bool {
    0 <= i && i + p.len() <= s.len() && s.subrange(i, i + p.len()) == p
}

/// The first position at or after `i` where `s` holds `p`.
pub open spec fn find_first(s: Seq<u8>, p: Seq<u8>, i: int) -> Option<int>
    decreases s.len() - i,
{
    if i < 0 || i >= s.len() || i + p.len() > s.len() {
        None
    } else if bytes_at(s, p, i) {
        Some(i)
    } else {
        find_first(s, p, i + 1)
    }
}

/// The last position before `k` where `s` holds `p`.
pub open spec fn find_last(s: Seq<u8>, p: Seq<u8>, k: int) -> Option<int>
    decreases k,
{
    if k <= 0 {
        None
    } else if bytes_at(s, p, k - 1) {
        Some(k - 1)
    } else {
        find_last(s, p, k - 1)
    }
}

fn bytes_at_exec(s: &[u8], p: &[u8], i: usize) -> (r: bool)
    ensures
        r == bytes_at(s@, p@, i as int),
{
    if i > s.len() || p.len() > s.len() - i {
        return false;
    }
    let mut j: usize = 0;
    while j < p.len()
        invariant
            j <= p@.len(),
            i + p@.len() <= s@.len(),
            s@.len() == s.len(),
            forall|k: int| 0 <= k < j ==> s@[i + k] == p@[k],
        decreases p@.len() - j,
    {
        if s[i + j] != p[j] {
            assert(s@.subrange(i as int, i + p@.len())[j as int] != p@[j as int]);
            return false;
        }
        j += 1;
    }
    assert(s@.subrange(i as int, i + p@.len()) =~= p@);
    true
}

/// The first position at or after `from` where `s` holds `p`.
fn first_at_or_after(s: &[u8], p: &[u8], from: usize) -> (r: Option<usize>)
    ensures
        match find_first(s@, p@, from as int) {
            Some(i) => r == Some(i as usize) && bytes_at(s@, p@, i) && i + p@.len() <= s.len(),
            None => r is None,
        },
{
    proof {
        lemma_find_first_holds(s@, p@, from as int);
    }
    let mut i = from;
    while i < s.len()
        invariant
            from <= i,
            find_first(s@, p@, from as int) == find_first(s@, p@, i as int),
        decreases s@.len() - i,
    {
        if p.len() > s.len() - i {
            return None;
        }
        if bytes_at_exec(s, p, i) {
            return Some(i);
        }
        i += 1;
    }
    None
}

/// The last position where `s` holds `p`.
fn last_position(s: &[u8], p: &[u8]) -> (r: Option<usize>)
    ensures
        match find_last(s@, p@, s@.len() as int) {
            Some(i) => r == Some(i as usize) && bytes_at(s@, p@, i) && i + p@.len() <= s.len(),
            None => r is None,
        },
{
    proof {
        lemma_find_last_holds(s@, p@, s@.len() as int);
    }
    let mut k = s.len();
    while k > 0
        invariant
            k <= s@.len(),
            find_last(s@, p@, s@.len() as int) == find_last(s@, p@, k as int),
        decreases k,
    {
        if bytes_at_exec(s, p, k - 1) {
            return Some(k - 1);
        }
        k -= 1;
    }
    None
}

/// The bytes `s[from..to]`.
pub fn byte_range(s: &[u8], from: usize, to: usize) -> (r: Vec<u8>)
    requires
        from <= to <= s@.len(),
    ensures
        r@ == s@.subrange(from as int, to as int),
{
    let mut out: Vec<u8> = Vec::new();
    let mut i = from;
    while i < to
        invariant
            from <= i <= to <= s@.len(),
            out@ == s@.subrange(from as int, i as int),
        decreases to - i,
    {
        out.push(s[i]);
        i += 1;
    }
    out
}

/// Nothing is found where `find_first` finds nothing.
pub proof fn lemma_find_first_none(s: Seq<u8>, p: Seq<u8>, i: int)
    requires
        i >= 0,
        p.len() > 0,
    ensures
        find_first(s, p, i) is None ==> forall|j: int| i <= j ==> !#[trigger] bytes_at(s, p, j),
    decreases s.len() - i,
{
    if !(i >= s.len() || i + p.len() > s.len()) && !bytes_at(s, p, i) {
        lemma_find_first_none(s, p, i + 1);
    }
}

/// `[DONE]`, the marker that ends a stream of events.
pub open spec fn done_marker() -> Seq<u8> {
    seq![91u8, 68u8, 79u8, 78u8, 69u8, 93u8]
}

/// Whether the bytes read so far hold the `[DONE]` marker, after which a
/// streamed reply is read no further.
pub fn has_done_marker(all: &[u8]) -> (r: bool)
    ensures
        r == exists|i: int| bytes_at(all@, done_marker(), i),
{
    let marker: [u8; 6] = [91u8, 68u8, 79u8, 78u8, 69u8, 93u8];
    assert(marker@ =~= done_marker());
    proof {
        lemma_find_first_none(all@, done_marker(), 0);
    }
    match first_at_or_after(all, marker.as_slice(), 0) {
        Some(_) => true,
        None => {
            assert forall|i: int| !bytes_at(all@, done_marker(), i) by {
                if i >= 0 {
                }
            }
            false
        },
    }
}

/// `\r\n\r\n`.
pub open spec fn blank_crlf() -> Seq<u8> {
    seq![13u8, 10u8, 13u8, 10u8]
}

/// `\n\n`.
pub open spec fn blank_lf() -> Seq<u8> {
    seq![10u8, 10u8]
}

/// Where a reply's head ends: after the first (or, `from_end`, the last)
/// `\r\n\r\n`; failing that after the first `\n\n`; failing that at zero.
pub open spec fn head_end_at(data: Seq<u8>, from_end: bool) -> nat {
    let found = if from_end {
        find_last(data, blank_crlf(), data.len() as int)
    } else {
        find_first(data, blank_crlf(), 0)
    };
    match found {
        Some(p) => (p + 4) as nat,
        None => match find_first(data, blank_lf(), 0) {
            Some(p) => (p + 2) as nat,
            None => 0,
        },
    }
}

fn head_end(data: &[u8], from_end: bool) -> (r: usize)
    ensures
        r == head_end_at(data@, from_end),
        r <= data@.len(),
{
    let crlf: [u8; 4] = [13u8, 10u8, 13u8, 10u8];
    let lf: [u8; 2] = [10u8, 10u8];
    assert(crlf@ =~= blank_crlf());
    assert(lf@ =~= blank_lf());
    let found = if from_end {
        last_position(data, crlf.as_slice())
    } else {
        first_at_or_after(data, crlf.as_slice(), 0)
    };
    match found {
        Some(p) => p + 4,
        None => match first_at_or_after(data, lf.as_slice(), 0) {
            Some(p) => p + 2,
            None => 0,
        },
    }
}

/// What `find_first` finds is there.
pub proof fn lemma_find_first_holds(s: Seq<u8>, p: Seq<u8>, i: int)
    ensures
        find_first(s, p, i) matches Some(j) ==> i <= j && bytes_at(s, p, j),
    decreases s.len() - i,
{
    if !(i < 0 || i >= s.len() || i + p.len() > s.len()) && !bytes_at(s, p, i) {
        lemma_find_first_holds(s, p, i + 1);
    }
}

/// What `find_last` finds is there.
pub proof fn lemma_find_last_holds(s: Seq<u8>, p: Seq<u8>, k: int)
    ensures
        find_last(s, p, k) matches Some(j) ==> j < k && bytes_at(s, p, j),
    decreases k,
{
    if k > 0 && !bytes_at(s, p, k - 1) {
        lemma_find_last_holds(s, p, k - 1);
    }
}

/// Where the head of a llama.cpp reply ends. For a streamed reply, after the
/// first blank line, unless the text up to there (at most its first hundred
/// bytes) mentions `100`, as a `100 Continue` head does: then two bytes past
/// the next `\r\n\r\n` (or `\n\n`) after it, or at the first end where there
/// is none. Otherwise after the last blank line.
pub open spec fn reply_head_end(all: Seq<u8>, stream: bool) -> nat {
    if stream {
        let first = head_end_at(all, false);
        if first > 0 {
            let seen = if first < 100 {
                first
            } else {
                100
            };
            if contains(utf8_lossy(all.take(seen as int)), "100"@) {
                match find_first(all, blank_crlf(), first as int) {
                    Some(q) => (q + 2) as nat,
                    None => match find_first(all, blank_lf(), first as int) {
                        Some(q) => (q + 2) as nat,
                        None => first,
                    },
                }
            } else {
                first
            }
        } else {
            0
        }
    } else {
        head_end_at(all, true)
    }
}

/// Finds where the head of a llama.cpp reply ends.
pub fn reply_head_length(all: &[u8], stream: bool) -> (r: usize)
    ensures
        r == reply_head_end(all@, stream),
        r <= all@.len(),
{
    if !stream {
        return head_end(all, true);
    }
    let first = head_end(all, false);
    if first == 0 {
        return 0;
    }
    let seen = if first < 100 {
        first
    } else {
        100
    };
    let head = byte_range(all, 0, seen);
    let status_text = lossy_text(head.as_slice());
    let sc = chars_of(status_text.as_str());
    let hundred = chars_of("100");
    if !contains_exec(&sc, &hundred) {
        return first;
    }
    let crlf: [u8; 4] = [13u8, 10u8, 13u8, 10u8];
    let lf: [u8; 2] = [10u8, 10u8];
    assert(crlf@ =~= blank_crlf());
    assert(lf@ =~= blank_lf());
    match first_at_or_after(all, crlf.as_slice(), first) {
        Some(q) => q + 2,
        None => match first_at_or_after(all, lf.as_slice(), first) {
            Some(q) => q + 2,
            None => first,
        },
    }
}

/// The status code on the first line of a reply head: its second
/// space-separated word read as a `u16`, zero where that fails.
pub open spec fn status_of(header: Seq<char>) -> nat {
    let ls = lines(header);
    let line = if ls.len() > 0 {
        ls[0]
    } else {
        Seq::<char>::empty()
    };
    let parts = split(line, ' ');
    let tok = if parts.len() > 1 {
        parts[1]
    } else {
        "0"@
    };
    match parse_unsigned(tok, 65535) {
        Some(v) => v,
        None => 0,
    }
}

/// Reads the status code of a reply head.
pub fn upstream_status(header: &str) -> (r: u16)
    ensures
        r == status_of(header@),
{
    let cs = chars_of(header);
    let ls = split_lines(&cs);
    let empty: Vec<char> = Vec::new();
    let line: &Vec<char> = if ls.len() > 0 {
        assert(views(ls@)[0] == ls@[0]@);
        &ls[0]
    } else {
        &empty
    };
    let parts = split_chars(line, ' ');
    let parsed = if parts.len() > 1 {
        assert(views(parts@)[1] == parts@[1]@);
        assert(parts@[1]@.subrange(0, parts@[1]@.len() as int) =~= parts@[1]@);
        parse_unsigned_exec(&parts[1], 0, parts[1].len(), 65535)
    } else {
        let zero = chars_of("0");
        assert(zero@.subrange(0, zero@.len() as int) =~= zero@);
        parse_unsigned_exec(&zero, 0, zero.len(), 65535)
    };
    match parsed {
        Some(v) => v as u16,
        None => 0,
    }
}

/// ASCII letters of `s` in lower case.
pub open spec fn lower_text(s: Seq<char>) -> Seq<char> {
    s.map_values(|c: char| ascii_lower(c))
}

/// The reply is an HTML page: its first `Content-Type:` line, in lower case,
/// mentions `text/html`. (Lower-casing only ASCII letters gives the same
/// answer as full Unicode lower-casing for these two patterns.)
pub open spec fn html_reply(header: Seq<char>) -> bool {
    match first_line_starting(lines(header), "content-type:"@) {
        Some(l) => contains(lower_text(l), "text/html"@),
        None => false,
    }
}

/// Whether a reply head declares an HTML body.
pub fn is_html_reply(header: &str) -> (r: bool)
    ensures
        r == html_reply(header@),
{
    let cs = chars_of(header);
    let ls = split_lines(&cs);
    let pat = chars_of("content-type:");
    match find_line_starting(&ls, &pat) {
        Some(k) => {
            let line = &ls[k];
            let mut low: Vec<char> = Vec::new();
            let mut i: usize = 0;
            while i < line.len()
                invariant
                    i <= line@.len(),
                    low@ == lower_text(line@.take(i as int)),
                decreases line@.len() - i,
            {
                low.push(ascii_lower_exec(line[i]));
                i += 1;
                assert(low@ =~= lower_text(line@.take(i as int)));
            }
            assert(line@.take(line@.len() as int) =~= line@);
            contains_exec(&low, &chars_of("text/html"))
        },
        None => false,
    }
}

/// The JSON text of one server-sent event line, if it carries one: the line
/// trimmed, without a leading `data: ` or `data:` (and trimmed again); blank
/// lines and the `[DONE]` marker carry none.
pub open spec fn event_payload(line: Seq<char>) -> Option<Seq<char>> {
    let t = trim(line);
    if t.len() == 0 {
        None
    } else {
        let j = if starts_with(t, "data: "@) {
            trim(t.skip("data: "@.len() as int))
        } else if starts_with(t, "data:"@) {
            trim(t.skip("data:"@.len() as int))
        } else {
            t
        };
        if j == "[DONE]"@ {
            None
        } else {
            Some(j)
        }
    }
}

/// The payloads of the event lines, in order.
pub open spec fn event_payloads(ls: Seq<Seq<char>>) -> Seq<Seq<char>>
    decreases ls.len(),
{
    if ls.len() == 0 {
        Seq::empty()
    } else {
        let rest = event_payloads(ls.drop_last());
        match event_payload(ls.last()) {
            Some(p) => rest.push(p),
            None => rest,
        }
    }
}

/// The views of a vector of strings.
pub open spec fn string_views(v: Seq<String>) -> Seq<Seq<char>> {
    v.map_values(|s: String| s@)
}

fn has_prefix_in(cs: &Vec<char>, from: usize, to: usize, p: &Vec<char>) -> (r: bool)
    requires
        from <= to <= cs@.len(),
    ensures
        r == starts_with(cs@.subrange(from as int, to as int), p@),
{
    if p.len() > to - from {
        return false;
    }
    let mut j: usize = 0;
    while j < p.len()
        invariant
            j <= p@.len(),
            from + p@.len() <= to <= cs@.len(),
            forall|k: int| 0 <= k < j ==> cs@[from + k] == p@[k],
        decreases p@.len() - j,
    {
        if cs[from + j] != p[j] {
            assert(cs@.subrange(from as int, to as int).take(p@.len() as int)[j as int] != p@[j as int]);
            return false;
        }
        j += 1;
    }
    assert(cs@.subrange(from as int, to as int).take(p@.len() as int) =~= p@);
    true
}

fn line_payload(line: &Vec<char>) -> (r: Option<String>)
    ensures
        match r {
            Some(s) => event_payload(line@) == Some(s@),
            None => event_payload(line@) is None,
        },
{
    let (a, b) = trim_bounds(line, 0, line.len());
    assert(line@.subrange(0, line@.len() as int) =~= line@);
    if a == b {
        return None;
    }
    let ghost t = line@.subrange(a as int, b as int);
    let long = chars_of("data: ");
    let short = chars_of("data:");
    let (s, e) = if has_prefix_in(line, a, b, &long) {
        assert(t.skip(long@.len() as int) =~= line@.subrange(a + long@.len(), b as int));
        trim_bounds(line, a + long.len(), b)
    } else if has_prefix_in(line, a, b, &short) {
        assert(t.skip(short@.len() as int) =~= line@.subrange(a + short@.len(), b as int));
        trim_bounds(line, a + short.len(), b)
    } else {
        assert(t.subrange(0, t.len() as int) =~= t);
        (a, b)
    };
    let payload = string_of_range(line, s, e);
    if str_eq(payload.as_str(), "[DONE]") {
        None
    } else {
        Some(payload)
    }
}

/// The JSON payloads of a streamed reply body, decoded as UTF-8 (invalid
/// sequences replaced) and split into lines.
pub fn event_payloads_of(body: &[u8]) -> (r: Vec<String>)
    ensures
        string_views(r@) == event_payloads(lines(utf8_lossy(body@))),
{
    let text = lossy_text(body);
    let cs = chars_of(text.as_str());
    let ls = split_lines(&cs);
    let ghost all = views(ls@);
    let mut out: Vec<String> = Vec::new();
    let mut i: usize = 0;
    assert(all.take(0) =~= Seq::<Seq<char>>::empty());
    while i < ls.len()
        invariant
            i <= ls@.len(),
            all == views(ls@),
            all == lines(utf8_lossy(body@)),
            string_views(out@) == event_payloads(all.take(i as int)),
        decreases ls@.len() - i,
    {
        let ghost before = out@;
        assert(all.take(i + 1).drop_last() =~= all.take(i as int));
        assert(all.take(i + 1).last() == ls@[i as int]@);
        match line_payload(&ls[i]) {
            Some(p) => {
                out.push(p);
                assert(string_views(out@) =~= string_views(before).push(out@.last()@));
            },
            None => {},
        }
        i += 1;
    }
    assert(all.take(ls@.len() as int) =~= all);
    out
}

/// A `502 Bad Gateway` JSON answer.
pub open spec fn bad_gateway_text(body: Seq<char>) -> Seq<char> {
    "HTTP/1.1 502 Bad Gateway\r\nAccess-Control-Allow-Origin: *\r\nContent-Type: application/json\r\nContent-Length: "@
        + dec(encode_utf8(body).len()) + "\r\nConnection: close\r\n\r\n"@ + body
}

fn bad_gateway_response(body: &str) -> (r: Vec<u8>)
    ensures
        r@ == encode_utf8(bad_gateway_text(body@)),
{
    let mut out = String::new();
    push_str(
        &mut out,
        "HTTP/1.1 502 Bad Gateway\r\nAccess-Control-Allow-Origin: *\r\nContent-Type: application/json\r\nContent-Length: ",
    );
    let n = body.as_bytes().len();
    push_digits(&mut out, n as u128, 10);
    push_str(&mut out, "\r\nConnection: close\r\n\r\n");
    push_str(&mut out, body);
    assert(out@ =~= bad_gateway_text(body@));
    slice_to_vec(out.as_str().as_bytes())
}

/// The error body sent when llama.cpp sent nothing at all.
pub open spec fn empty_reply_json() -> Seq<char> {
    "{\"error\":\"empty upstream response\",\"message\":\"上游返回空响应\"}"@
}

/// The error body sent when a streamed reply has no body to speak of.
pub open spec fn not_loaded_json() -> Seq<char> {
    "{\"error\":\"empty upstream response\",\"message\":\"模型未加载或已休眠，请检查服务状态\"}"@
}

/// The error body sent when a streamed reply is an HTML page.
pub open spec fn wrong_type_json() -> Seq<char> {
    "{\"error\":\"wrong content type\",\"message\":\"上游返回了 text/html，请求可能未正确路由到 /completion\"}"@
}

/// The answer sent when a whole reply has no body to speak of.
pub open spec fn tiny_body_text() -> Seq<char> {
    "HTTP/1.1 502 Bad Gateway\r\nAccess-Control-Allow-Origin: *\r\nContent-Type: application/json\r\nContent-Length: 0\r\n\r\n"@
}

/// What the proxy makes of a llama.cpp reply to an OpenAI-style request.
pub enum UpstreamReply {
    /// Send these bytes to the client as they are.
    Send(Vec<u8>),
    /// A streamed completion: the JSON payloads of its events, to be parsed
    /// and summed up by [`stream_answer`].
    Events(Vec<String>),
    /// A whole completion: its body, to be parsed and rewritten by [`completion_answer`].
    Body(Vec<u8>),
}

/// `r` is what [`examine_reply`] makes of the reply bytes `all`: nothing read
/// gives a `502`; a status other than 200 passes the reply through; a body of
/// two bytes or less gives a `502`, as does an HTML body of a streamed reply;
/// otherwise the event payloads of a streamed reply, or the whole body.
pub open spec fn examined(all: Seq<u8>, stream: bool, r: UpstreamReply) -> bool {
    if all.len() == 0 {
        r is Send && r->Send_0@ == encode_utf8(bad_gateway_text(empty_reply_json()))
    } else {
        let h = reply_head_end(all, stream);
        let head = utf8_lossy(all.take(h as int));
        let body = all.skip(h as int);
        if status_of(head) != 200 {
            r is Send && r->Send_0@ == all
        } else if stream {
            if body.len() <= 2 {
                r is Send && r->Send_0@ == encode_utf8(bad_gateway_text(not_loaded_json()))
            } else if html_reply(head) {
                r is Send && r->Send_0@ == encode_utf8(bad_gateway_text(wrong_type_json()))
            } else {
                r is Events && string_views(r->Events_0@) == event_payloads(lines(utf8_lossy(body)))
            }
        } else {
            if body.len() <= 2 {
                r is Send && r->Send_0@ == encode_utf8(tiny_body_text())
            } else {
                r is Body && r->Body_0@ == body
            }
        }
    }
}

/// Examines the whole reply that llama.cpp sent to a forwarded OpenAI-style
/// request; `stream` is whether the client asked for a streamed answer.
pub fn examine_reply(all: &[u8], stream: bool) -> (r: UpstreamReply)
    ensures
        examined(all@, stream, r),
{
    if all.len() == 0 {
        return UpstreamReply::Send(
            bad_gateway_response("{\"error\":\"empty upstream response\",\"message\":\"上游返回空响应\"}"),
        );
    }
    let h = reply_head_length(all, stream);
    let head_bytes = byte_range(all, 0, h);
    let body = byte_range(all, h, all.len());
    assert(all@.subrange(0, h as int) =~= all@.take(h as int));
    assert(all@.subrange(h as int, all@.len() as int) =~= all@.skip(h as int));
    let head = lossy_text(head_bytes.as_slice());
    if upstream_status(head.as_str()) != 200 {
        return UpstreamReply::Send(slice_to_vec(all));
    }
    if stream {
        if body.len() <= 2 {
            return UpstreamReply::Send(
                bad_gateway_response(
                    "{\"error\":\"empty upstream response\",\"message\":\"模型未加载或已休眠，请检查服务状态\"}",
                ),
            );
        }
        if is_html_reply(head.as_str()) {
            return UpstreamReply::Send(
                bad_gateway_response(
                    "{\"error\":\"wrong content type\",\"message\":\"上游返回了 text/html，请求可能未正确路由到 /completion\"}",
                ),
            );
        }
        UpstreamReply::Events(event_payloads_of(body.as_slice()))
    } else {
        if body.len() <= 2 {
            let text = "HTTP/1.1 502 Bad Gateway\r\nAccess-Control-Allow-Origin: *\r\nContent-Type: application/json\r\nContent-Length: 0\r\n\r\n";
            return UpstreamReply::Send(slice_to_vec(text.as_bytes()));
        }
        UpstreamReply::Body(body)
    }
}

/// The text an event adds to the answer: its `content` string, if any.
pub open spec fn event_piece(v: JsonValue) -> Seq<char> {
    match str_of(member(v, "content"@)) {
        Some(s) => s,
        None => Seq::empty(),
    }
}

/// The event says generation stopped.
pub open spec fn event_stops(v: JsonValue) -> bool {
    match bool_of(member(v, "stop"@)) {
        Some(b) => b,
        None => false,
    }
}

/// A token count of an event, zero where it has none.
pub open spec fn count_of(v: JsonValue, key: Seq<char>) -> u64 {
    match u64_of(member(v, key)) {
        Some(n) => n,
        None => 0,
    }
}

/// What a streamed reply adds up to, over its events in order (`None` for a
/// payload that is not JSON, which adds nothing): the content pieces joined,
/// whether some event said stop, and the prompt and completion token counts
/// of the last event that did.
pub open spec fn stream_totals(events: Seq<Option<JsonValue>>) -> (Seq<char>, bool, u64, u64)
    decreases events.len(),
{
    if events.len() == 0 {
        (Seq::empty(), false, 0, 0)
    } else {
        let (c, f, p, q) = stream_totals(events.drop_last());
        match events.last() {
            Some(v) => if event_stops(v) {
                (c + event_piece(v), true, count_of(v, "tokens_evaluated"@), count_of(v, "tokens_predicted"@))
            } else {
                (c + event_piece(v), f, p, q)
            },
            None => (c, f, p, q),
        }
    }
}

/// The sum of a streamed reply's events.
pub struct StreamTotals {
    pub content: String,
    pub finished: bool,
    pub prompt_tokens: u64,
    pub completion_tokens: u64,
}

fn piece_of(v: &JsonValue) -> (r: Option<&String>)
    ensures
        match r {
            Some(s) => event_piece(*v) == s@,
            None => event_piece(*v) == Seq::<char>::empty(),
        },
{
    as_str(get(v, "content"))
}

fn stops(v: &JsonValue) -> (r: bool)
    ensures
        r == event_stops(*v),
{
    match as_bool(get(v, "stop")) {
        Some(b) => b,
        None => false,
    }
}

fn count(v: &JsonValue, key: &str) -> (r: u64)
    ensures
        r == count_of(*v, key@),
{
    match as_u64(get(v, key)) {
        Some(n) => n,
        None => 0,
    }
}

/// Sums up the parsed events of a streamed reply.
pub fn sum_events(events: &Vec<Option<JsonValue>>) -> (r: StreamTotals)
    ensures
        (r.content@, r.finished, r.prompt_tokens, r.completion_tokens) == stream_totals(events@),
{
    let mut content = String::new();
    let mut finished = false;
    let mut prompt_tokens: u64 = 0;
    let mut completion_tokens: u64 = 0;
    let mut i: usize = 0;
    assert(events@.take(0) =~= Seq::<Option<JsonValue>>::empty());
    while i < events.len()
        invariant
            i <= events@.len(),
            (content@, finished, prompt_tokens, completion_tokens) == stream_totals(events@.take(i as int)),
        decreases events@.len() - i,
    {
        assert(events@.take(i + 1).drop_last() =~= events@.take(i as int));
        assert(events@.take(i + 1).last() == events@[i as int]);
        match &events[i] {
            Some(v) => {
                match piece_of(v) {
                    Some(s) => push_str(&mut content, s.as_str()),
                    None => {
                        assert(content@ + event_piece(*v) =~= content@);
                    },
                }
                if stops(v) {
                    finished = true;
                    prompt_tokens = count(v, "tokens_evaluated");
                    completion_tokens = count(v, "tokens_predicted");
                }
            },
            None => {},
        }
        i += 1;
    }
    assert(events@.take(events@.len() as int) =~= events@);
    StreamTotals { content, finished, prompt_tokens, completion_tokens }
}

/// `a + b` as a `u64` addition that wraps.
pub open spec fn wrapping_sum(a: u64, b: u64) -> nat {
    ((a + b) % 0x1_0000_0000_0000_0000) as nat
}

fn add_wrapping(a: u64, b: u64) -> (r: u64)
    ensures
        r == wrapping_sum(a, b),
{
    if a > u64::MAX - b {
        a - (u64::MAX - b) - 1
    } else {
        a + b
    }
}

/// `"created":..,"id":"chatcmpl-soul-..","object":"chat.completion.chunk"`.
pub open spec fn chunk_tail(id_millis: nat, created: nat) -> Seq<char> {
    "\"created\":"@ + dec(created) + ",\"id\":\"chatcmpl-soul-"@ + dec(id_millis)
        + "\",\"object\":\"chat.completion.chunk\""@
}

/// `stop` where generation stopped, `length` where it ran out.
pub open spec fn finish_reason(stopped: bool) -> Seq<char> {
    if stopped {
        "stop"@
    } else {
        "length"@
    }
}

/// The server-sent events of a streamed answer: the role, all the content
/// at once, the finish reason with the token usage, then `[DONE]`.
pub open spec fn sse_text(t: (Seq<char>, bool, u64, u64), id_millis: nat, created: nat) -> Seq<char> {
    let tail = chunk_tail(id_millis, created);
    "data: {\"choices\":[{\"delta\":{\"role\":\"assistant\"},\"finish_reason\":null,\"index\":0}],"@ + tail
        + "}\n\n"@ + "data: {\"choices\":[{\"delta\":{\"content\":"@ + quoted(t.0)
        + "},\"finish_reason\":null,\"index\":0}],"@ + tail + "}\n\n"@
        + "data: {\"choices\":[{\"delta\":{},\"finish_reason\":\""@ + finish_reason(t.1) + "\",\"index\":0}],"@
        + tail + ",\"usage\":{\"completion_tokens\":"@ + dec(t.3 as nat) + ",\"prompt_tokens\":"@ + dec(
        t.2 as nat,
    ) + ",\"total_tokens\":"@ + dec(wrapping_sum(t.2, t.3)) + "}}\n\n"@ + "data: [DONE]\n\n"@
}

/// The streamed answer for a reply's events, with its id's millisecond part
/// and creation time in seconds.
pub open spec fn stream_answer_text(events: Seq<Option<JsonValue>>, id_millis: nat, created: nat) -> Seq<char> {
    let sse = sse_text(stream_totals(events), id_millis, created);
    "HTTP/1.1 200 OK\r\nAccess-Control-Allow-Origin: *\r\nContent-Type: text/event-stream\r\nCache-Control: no-cache\r\nConnection: close\r\nContent-Length: "@
        + dec(encode_utf8(sse).len()) + "\r\n\r\n"@ + sse
}

fn push_chunk_tail(out: &mut String, id_millis: u128, created: u64)
    ensures
        final(out)@ == old(out)@ + chunk_tail(id_millis as nat, created as nat),
{
    push_str(out, "\"created\":");
    push_digits(out, created as u128, 10);
    push_str(out, ",\"id\":\"chatcmpl-soul-");
    push_digits(out, id_millis, 10);
    push_str(out, "\",\"object\":\"chat.completion.chunk\"");
    assert(final(out)@ =~= old(out)@ + chunk_tail(id_millis as nat, created as nat));
}

fn push_finish(out: &mut String, stopped: bool)
    ensures
        final(out)@ == old(out)@ + finish_reason(stopped),
{
    if stopped {
        push_str(out, "stop");
    } else {
        push_str(out, "length");
    }
}

/// Builds the streamed answer from the parsed event payloads.
pub fn stream_answer(events: &Vec<Option<JsonValue>>, id_millis: u128, created: u64) -> (r: String)
    ensures
        r@ == stream_answer_text(events@, id_millis as nat, created as nat),
{
    let t = sum_events(events);
    let mut sse = String::new();
    push_str(&mut sse, "data: {\"choices\":[{\"delta\":{\"role\":\"assistant\"},\"finish_reason\":null,\"index\":0}],");
    push_chunk_tail(&mut sse, id_millis, created);
    push_str(&mut sse, "}\n\n");
    push_str(&mut sse, "data: {\"choices\":[{\"delta\":{\"content\":");
    push_quoted(&mut sse, t.content.as_str());
    push_str(&mut sse, "},\"finish_reason\":null,\"index\":0}],");
    push_chunk_tail(&mut sse, id_millis, created);
    push_str(&mut sse, "}\n\n");
    push_str(&mut sse, "data: {\"choices\":[{\"delta\":{},\"finish_reason\":\"");
    push_finish(&mut sse, t.finished);
    push_str(&mut sse, "\",\"index\":0}],");
    push_chunk_tail(&mut sse, id_millis, created);
    push_str(&mut sse, ",\"usage\":{\"completion_tokens\":");
    push_digits(&mut sse, t.completion_tokens as u128, 10);
    push_str(&mut sse, ",\"prompt_tokens\":");
    push_digits(&mut sse, t.prompt_tokens as u128, 10);
    push_str(&mut sse, ",\"total_tokens\":");
    push_digits(&mut sse, add_wrapping(t.prompt_tokens, t.completion_tokens) as u128, 10);
    push_str(&mut sse, "}}\n\n");
    push_str(&mut sse, "data: [DONE]\n\n");
    let ghost totals = stream_totals(events@);
    assert(sse@ =~= sse_text(totals, id_millis as nat, created as nat));
    let mut out = String::new();
    push_str(
        &mut out,
        "HTTP/1.1 200 OK\r\nAccess-Control-Allow-Origin: *\r\nContent-Type: text/event-stream\r\nCache-Control: no-cache\r\nConnection: close\r\nContent-Length: ",
    );
    let n = sse.as_str().as_bytes().len();
    push_digits(&mut out, n as u128, 10);
    push_str(&mut out, "\r\n\r\n");
    push_str(&mut out, sse.as_str());
    assert(out@ =~= stream_answer_text(events@, id_millis as nat, created as nat));
    out
}

/// The OpenAI `chat.completion` object for a whole llama.cpp completion.
pub open spec fn completion_json(v: JsonValue, id_millis: nat, created: nat) -> Seq<char> {
    let model = match str_of(member(v, "model"@)) {
        Some(m) => m,
        None => "model"@,
    };
    let p = count_of(v, "tokens_evaluated"@);
    let q = count_of(v, "tokens_predicted"@);
    "{\"choices\":[{\"finish_reason\":\""@ + finish_reason(event_stops(v)) + "\",\"index\":0,\"message\":{\"content\":"@
        + quoted(event_piece(v)) + ",\"role\":\"assistant\"}}],\"created\":"@ + dec(created)
        + ",\"id\":\"chatcmpl-soul-"@ + dec(id_millis) + "\",\"model\":"@ + quoted(model)
        + ",\"object\":\"chat.completion\",\"usage\":{\"completion_tokens\":"@ + dec(q as nat)
        + ",\"prompt_tokens\":"@ + dec(p as nat) + ",\"total_tokens\":"@ + dec(wrapping_sum(p, q)) + "}}"@
}

/// The answer to a whole reply: the OpenAI form where the body parsed as
/// JSON, otherwise a `502` carrying the body as text.
pub open spec fn completion_answer_text(parsed: Option<JsonValue>, body: Seq<u8>, id_millis: nat, created: nat) -> Seq<
    char,
> {
    match parsed {
        Some(v) => json_ok_text(completion_json(v, id_millis, created)),
        None => "HTTP/1.1 502 Bad Gateway\r\nAccess-Control-Allow-Origin: *\r\nContent-Type: text/plain; charset=utf-8\r\nContent-Length: "@
            + dec(body.len()) + "\r\nConnection: close\r\n\r\n"@ + utf8_lossy(body),
    }
}

/// Builds the answer to a whole reply from its body and the body parsed as
/// JSON (`None` where it is not JSON).
pub fn completion_answer(parsed: &Option<JsonValue>, body: &[u8], id_millis: u128, created: u64) -> (r: String)
    ensures
        r@ == completion_answer_text(*parsed, body@, id_millis as nat, created as nat),
{
    match parsed {
        Some(v) => {
            let mut j = String::new();
            push_str(&mut j, "{\"choices\":[{\"finish_reason\":\"");
            push_finish(&mut j, stops(v));
            push_str(&mut j, "\",\"index\":0,\"message\":{\"content\":");
            match piece_of(v) {
                Some(s) => push_quoted(&mut j, s.as_str()),
                None => {
                    proof {
                        reveal_strlit("");
                    }
                    push_quoted(&mut j, "");
                },
            }
            push_str(&mut j, ",\"role\":\"assistant\"}}],\"created\":");
            push_digits(&mut j, created as u128, 10);
            push_str(&mut j, ",\"id\":\"chatcmpl-soul-");
            push_digits(&mut j, id_millis, 10);
            push_str(&mut j, "\",\"model\":");
            match as_str(get(v, "model")) {
                Some(m) => push_quoted(&mut j, m.as_str()),
                None => push_quoted(&mut j, "model"),
            }
            push_str(&mut j, ",\"object\":\"chat.completion\",\"usage\":{\"completion_tokens\":");
            let p = count(v, "tokens_evaluated");
            let q = count(v, "tokens_predicted");
            push_digits(&mut j, q as u128, 10);
            push_str(&mut j, ",\"prompt_tokens\":");
            push_digits(&mut j, p as u128, 10);
            push_str(&mut j, ",\"total_tokens\":");
            push_digits(&mut j, add_wrapping(p, q) as u128, 10);
            push_str(&mut j, "}}");
            assert(j@ =~= completion_json(*v, id_millis as nat, created as nat));
            json_ok_response(j.as_str())
        },
        None => {
            let mut out = String::new();
            push_str(
                &mut out,
                "HTTP/1.1 502 Bad Gateway\r\nAccess-Control-Allow-Origin: *\r\nContent-Type: text/plain; charset=utf-8\r\nContent-Length: ",
            );
            push_digits(&mut out, body.len() as u128, 10);
            push_str(&mut out, "\r\nConnection: close\r\n\r\n");
            let text = lossy_text(body);
            push_str(&mut out, text.as_str());
            assert(out@ =~= completion_answer_text(*parsed, body@, id_millis as nat, created as nat));
            out
        },
    }
}

} // verus!
