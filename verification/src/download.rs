//! Model downloads through the ModelScope CLI: the command line, the progress
//! read from its output, the checks once it has finished (SHA-256 of GGUF
//! files, sizes of other files) and the events the user sees.
use vstd::prelude::*;
use crate::registry::{trim_end_matches, trim_end_matches_bound};
use crate::text::{
    chars_of, dec, digit_char, digit_to_char, is_ws, is_ws_exec, lossy_text, parse_unsigned, parse_unsigned_exec,
    contains, push_char, push_digits, push_str, split, str_eq, split_chars, string_of_range, trim, trim_bounds, trim_end, utf8_lossy,
    views,
};
use sha2::Digest;

verus! {

broadcast use vstd::string::group_string_axioms;

fn text(s: &str) -> (r: String)
    ensures
        r@ == s@,
{
    String::from_str(s)
}

/// The repository id without its trailing `:*` revision wildcards.
pub open spec fn clean_model_id(id: Seq<char>) -> Seq<char> {
    trim_end_matches(id, ":*"@)
}

/// Strips the revision wildcards from a model id.
pub fn clean_id(model_id: &str) -> (r: String)
    ensures
        r@ == clean_model_id(model_id@),
{
    let cs = chars_of(model_id);
    let pat = chars_of(":*");
    let e = trim_end_matches_bound(&cs, 0, cs.len(), &pat);
    assert(cs@.subrange(0, cs@.len() as int) =~= cs@);
    string_of_range(&cs, 0, e)
}

/// The token kept in a token file: its content trimmed, where that is not empty.
pub open spec fn saved_token(content: Seq<char>) -> Option<Seq<char>> {
    if trim(content).len() > 0 {
        Some(trim(content))
    } else {
        None
    }
}

/// Reads a token file's content.
pub fn token_of(content: &str) -> (r: Option<String>)
    ensures
        match r {
            Some(t) => saved_token(content@) == Some(t@),
            None => saved_token(content@) is None,
        },
{
    let cs = chars_of(content);
    let (a, b) = trim_bounds(&cs, 0, cs.len());
    assert(cs@.subrange(0, cs@.len() as int) =~= cs@);
    if a < b {
        Some(string_of_range(&cs, a, b))
    } else {
        None
    }
}

/// The views of a list of strings.
pub open spec fn texts(v: Seq<String>) -> Seq<Seq<char>> {
    v.map_values(|s: String| s@)
}

/// The arguments of `modelscope`: download the model into the directory,
/// with the token where there is one, and only the files matching the
/// pattern where one is given.
pub open spec fn download_args(
    model: Seq<char>,
    local_dir: Seq<char>,
    token: Option<Seq<char>>,
    pattern: Option<Seq<char>>,
) -> Seq<Seq<char>> {
    seq!["download"@, "--model"@, model, "--local_dir"@, local_dir] + match token {
        Some(t) => seq!["--token"@, t],
        None => Seq::empty(),
    } + match pattern {
        Some(p) => seq!["--include"@, p],
        None => Seq::empty(),
    }
}

/// The text of an optional string slice.
pub open spec fn str_text(s: Option<&str>) -> Option<Seq<char>> {
    match s {
        Some(t) => Some(t@),
        None => None,
    }
}

/// Builds the arguments of `modelscope`.
pub fn download_arguments(model: &str, local_dir: &str, token: Option<&str>, pattern: Option<&str>) -> (r: Vec<
    String,
>)
    ensures
        texts(r@) == download_args(model@, local_dir@, str_text(token), str_text(pattern)),
{
    let mut v: Vec<String> = vec![text("download"), text("--model"), text(model), text("--local_dir"), text(local_dir)];
    let ghost base = texts(v@);
    assert(base =~= seq!["download"@, "--model"@, model@, "--local_dir"@, local_dir@]);
    match token {
        Some(t) => {
            v.push(text("--token"));
            v.push(text(t));
        },
        None => {},
    }
    let ghost with_token = texts(v@);
    assert(with_token =~= base + match str_text(token) {
        Some(t) => seq!["--token"@, t],
        None => Seq::<Seq<char>>::empty(),
    });
    match pattern {
        Some(p) => {
            v.push(text("--include"));
            v.push(text(p));
        },
        None => {},
    }
    assert(texts(v@) =~= download_args(model@, local_dir@, str_text(token), str_text(pattern)));
    v
}

/// A progress event as the user sees it.
pub struct DownloadEvent {
    pub progress: u32,
    pub message: String,
    /// `downloading`, `verifying`, `retrying`, `completed` or `error`.
    pub status: String,
    /// Offered a retry.
    pub retryable: bool,
    /// The SHA-256 lines of the files checked, on completion.
    pub sha256: Option<Vec<String>>,
}

/// An event's progress, message, status and retry offer.
pub open spec fn event_is(e: DownloadEvent, progress: u32, message: Seq<char>, status: Seq<char>, retryable: bool) -> bool {
    &&& e.progress == progress
    &&& e.message@ == message
    &&& e.status@ == status
    &&& e.retryable == retryable
    &&& e.sha256 is None
}

fn event(progress: u32, message: String, status: &str, retryable: bool) -> (r: DownloadEvent)
    ensures
        event_is(r, progress, message@, status@, retryable),
{
    DownloadEvent { progress, message, status: text(status), retryable, sha256: None }
}

/// The last word of a text: what follows its last white space once trailing
/// white space is gone (`split_whitespace().last()`); none in a blank text.
pub open spec fn last_word(s: Seq<char>) -> Option<Seq<char>>
    decreases s.len(),
{
    let t = trim_end(s);
    if t.len() == 0 {
        None
    } else {
        Some(word_tail(t, t.len() as int))
    }
}

/// The part of `t[..k]` after its last white space.
pub open spec fn word_tail(t: Seq<char>, k: int) -> Seq<char>
    decreases k,
{
    if k <= 0 {
        t
    } else if is_ws(t[k - 1]) {
        t.skip(k)
    } else {
        word_tail(t, k - 1)
    }
}

/// The percentage a `tqdm` progress line shows: the last word before the
/// first `%`, read as a number.
pub open spec fn tqdm_percent(line: Seq<char>) -> Option<u32> {
    match last_word(split(line, '%')[0]) {
        Some(w) => match parse_unsigned(w, u32::MAX as nat) {
            Some(v) => Some(v as u32),
            None => None,
        },
        None => None,
    }
}

/// The event for one piece of `modelscope`'s error output (pieces end at a
/// carriage return): the text trimmed, with the percentage it shows (zero
/// where none); no event for a blank piece.
pub open spec fn progress_event_of(text: Seq<char>) -> Option<(u32, Seq<char>)> {
    let t = trim(text);
    if t.len() == 0 {
        None
    } else {
        Some(
            (
                match tqdm_percent(t) {
                    Some(p) => p,
                    None => 0,
                },
                t,
            ),
        )
    }
}

/// Reads the event of one piece of `modelscope`'s error output.
pub fn progress_event(piece: &[u8]) -> (r: Option<DownloadEvent>)
    ensures
        match r {
            Some(e) => progress_event_of(utf8_lossy(piece@)) matches Some((p, m)) && event_is(
                e,
                p,
                m,
                "downloading"@,
                false,
            ),
            None => progress_event_of(utf8_lossy(piece@)) is None,
        },
{
    let t = lossy_text(piece);
    let cs = chars_of(t.as_str());
    let (a, b) = trim_bounds(&cs, 0, cs.len());
    assert(cs@.subrange(0, cs@.len() as int) =~= cs@);
    if a == b {
        return None;
    }
    let msg = string_of_range(&cs, a, b);
    let mc = chars_of(msg.as_str());
    let parts = split_chars(&mc, '%');
    proof {
        crate::text::lemma_split_from_nonempty(mc@, '%', Seq::empty());
    }
    assert(views(parts@)[0] == parts@[0]@);
    let first = &parts[0];
    let mut e = first.len();
    assert(first@.take(e as int) =~= first@);
    while e > 0 && is_ws_exec(first[e - 1])
        invariant
            e <= first@.len(),
            trim_end(first@) == trim_end(first@.take(e as int)),
        decreases e,
    {
        assert(first@.take(e as int).drop_last() =~= first@.take(e - 1));
        e -= 1;
    }
    assert(first@.take(first@.len() as int) =~= first@);
    proof {
        lemma_trim_end_stop(first@.take(e as int));
    }
    let pct = if e == 0 {
        0
    } else {
        let mut s = e;
        let ghost tt = first@.take(e as int);
        while s > 0 && !is_ws_exec(first[s - 1])
            invariant
                s <= e <= first@.len(),
                tt == first@.take(e as int),
                word_tail(tt, e as int) == word_tail(tt, s as int),
            decreases s,
        {
            s -= 1;
        }
        assert(s > 0 ==> tt.skip(s as int) =~= first@.subrange(s as int, e as int));
        assert(s == 0 ==> tt =~= first@.subrange(0, e as int));
        match parse_unsigned_exec(first, s, e, u32::MAX as u64) {
            Some(v) => v as u32,
            None => 0,
        }
    };
    Some(event(pct, msg, "downloading", false))
}

proof fn lemma_trim_end_stop(t: Seq<char>)
    requires
        t.len() == 0 || !is_ws(t.last()),
    ensures
        trim_end(t) == t,
{
}

/// The event for a line of `modelscope`'s standard output: the line trimmed;
/// none for a blank line.
pub fn output_event(line: &str) -> (r: Option<DownloadEvent>)
    ensures
        match r {
            Some(e) => trim(line@).len() > 0 && event_is(e, 0, trim(line@), "downloading"@, false),
            None => trim(line@).len() == 0,
        },
{
    let cs = chars_of(line);
    let (a, b) = trim_bounds(&cs, 0, cs.len());
    assert(cs@.subrange(0, cs@.len() as int) =~= cs@);
    if a == b {
        return None;
    }
    Some(event(0, string_of_range(&cs, a, b), "downloading", false))
}

/// The event that opens a download.
pub fn started_event(model: &str) -> (r: DownloadEvent)
    ensures
        event_is(r, 0, "正在下载 "@ + model@ + " ..."@, "downloading"@, false),
{
    let mut m = text("正在下载 ");
    push_str(&mut m, model);
    push_str(&mut m, " ...");
    event(0, m, "downloading", false)
}

/// The event when `modelscope` failed, with its exit code.
pub fn failed_event(model: &str, code: i32) -> (r: DownloadEvent)
    ensures
        event_is(r, 0, model@ + " 下载失败（退出码: "@ + crate::text::signed_pad(code as int, 0) + "）"@, "error"@, true),
{
    let mut m = text(model);
    push_str(&mut m, " 下载失败（退出码: ");
    crate::text::push_signed_padded(&mut m, code as i64, 0);
    push_str(&mut m, "）");
    event(0, m, "error", true)
}

/// The event when the check of the downloaded files begins.
pub fn verifying_event() -> (r: DownloadEvent)
    ensures
        event_is(r, 99, "正在校验文件完整性..."@, "verifying"@, false),
{
    event(99, text("正在校验文件完整性..."), "verifying", false)
}

/// The most automatic retries.
pub const MAX_RETRIES: u32 = 3;

/// The events when no GGUF file came down: with no file at all, a retry is
/// counted (`retries` before it) and offered until the limit is passed; with
/// files under 1 KiB in all, an error; otherwise the download is complete.
pub open spec fn other_files_events(model: Seq<char>, sizes: Seq<u64>, retries: u32) -> Seq<(u32, Seq<char>, Seq<char>, bool)> {
    let rc = (retries + 1) as nat;
    if sizes.len() == 0 {
        if rc <= MAX_RETRIES {
            seq![
                (0u32, "未下载到文件，第 "@ + dec(rc) + " 次重试..."@, "retrying"@, false),
                (0u32, "下载结果异常，请点击重试按钮重新下载（"@ + dec(rc) + "/"@ + dec(MAX_RETRIES as nat) + "）"@, "error"@, true),
            ]
        } else {
            seq![(0u32, model + " 下载失败：已重试 "@ + dec(MAX_RETRIES as nat) + " 次均未下载到文件，请检查网络或模型 ID"@, "error"@, true)]
        }
    } else if total_size(sizes) < 1024 {
        seq![(0u32, "下载文件异常（过小），请重试"@, "error"@, true)]
    } else {
        seq![(100u32, model + " 下载完成！共 "@ + dec(sizes.len()) + " 个文件"@, "completed"@, false)]
    }
}

/// The sizes added up as the `u64` total that wraps.
pub open spec fn total_size(sizes: Seq<u64>) -> nat
    decreases sizes.len(),
{
    if sizes.len() == 0 {
        0
    } else {
        ((total_size(sizes.drop_last()) + sizes.last()) % 0x1_0000_0000_0000_0000) as nat
    }
}

/// The fields of a list of events.
pub open spec fn event_fields(v: Seq<DownloadEvent>) -> Seq<(u32, Seq<char>, Seq<char>, bool)> {
    v.map_values(|e: DownloadEvent| (e.progress, e.message@, e.status@, e.retryable))
}

/// No event of the list carries SHA-256 lines.
pub open spec fn no_hashes(v: Seq<DownloadEvent>) -> bool {
    forall|i: int| 0 <= i < v.len() ==> (#[trigger] v[i]).sha256 is None
}

fn add_wrapping(a: u64, b: u64) -> (r: u64)
    ensures
        r == (a + b) % 0x1_0000_0000_0000_0000,
{
    if a > u64::MAX - b {
        a - (u64::MAX - b) - 1
    } else {
        a + b
    }
}

/// The events once the download finished without a GGUF file, given the
/// sizes of the files it left.
pub fn other_files_outcome(model: &str, sizes: &Vec<u64>, retries: u32) -> (r: Vec<DownloadEvent>)
    requires
        retries < u32::MAX,
    ensures
        event_fields(r@) == other_files_events(model@, sizes@, retries),
        no_hashes(r@),
{
    let rc = retries + 1;
    let mut out: Vec<DownloadEvent> = Vec::new();
    if sizes.len() == 0 {
        if rc <= MAX_RETRIES {
            let mut a = text("未下载到文件，第 ");
            push_digits(&mut a, rc as u128, 10);
            push_str(&mut a, " 次重试...");
            out.push(event(0, a, "retrying", false));
            let mut b = text("下载结果异常，请点击重试按钮重新下载（");
            push_digits(&mut b, rc as u128, 10);
            push_str(&mut b, "/");
            push_digits(&mut b, MAX_RETRIES as u128, 10);
            push_str(&mut b, "）");
            out.push(event(0, b, "error", true));
        } else {
            let mut a = text(model);
            push_str(&mut a, " 下载失败：已重试 ");
            push_digits(&mut a, MAX_RETRIES as u128, 10);
            push_str(&mut a, " 次均未下载到文件，请检查网络或模型 ID");
            out.push(event(0, a, "error", true));
        }
        assert(event_fields(out@) =~= other_files_events(model@, sizes@, retries));
        return out;
    }
    let mut total: u64 = 0;
    let mut i: usize = 0;
    assert(sizes@.take(0) =~= Seq::<u64>::empty());
    while i < sizes.len()
        invariant
            i <= sizes@.len(),
            total == total_size(sizes@.take(i as int)),
        decreases sizes@.len() - i,
    {
        assert(sizes@.take(i + 1).drop_last() =~= sizes@.take(i as int));
        total = add_wrapping(total, sizes[i]);
        i += 1;
    }
    assert(sizes@.take(i as int) =~= sizes@);
    if total < 1024 {
        out.push(event(0, text("下载文件异常（过小），请重试"), "error", true));
    } else {
        let mut a = text(model);
        push_str(&mut a, " 下载完成！共 ");
        push_digits(&mut a, sizes.len() as u128, 10);
        push_str(&mut a, " 个文件");
        out.push(event(100, a, "completed", false));
    }
    assert(event_fields(out@) =~= other_files_events(model@, sizes@, retries));
    out
}

/// The event as a GGUF file's check begins.
pub fn checking_event(file_name: &str) -> (r: DownloadEvent)
    ensures
        event_is(r, 99, "SHA256 校验中: "@ + file_name@, "verifying"@, false),
{
    let mut m = text("SHA256 校验中: ");
    push_str(&mut m, file_name);
    event(99, m, "verifying", false)
}

/// A GGUF file under 1 KiB fails the check before it is hashed.
pub open spec fn too_small(size: u64) -> bool {
    size < 1024
}

/// Whether a file is too small to pass.
pub fn is_too_small(size: u64) -> (r: bool)
    ensures
        r == too_small(size),
{
    size < 1024
}

/// A name for the SHA-256 digest of some bytes.
pub uninterp spec fn sha256_digest(data: Seq<u8>) -> Seq<u8>;

/// `Sha256::digest` of the `sha2` crate: the SHA-256 digest of the bytes,
/// 32 bytes long. Which bytes it gives is left to the name [`sha256_digest`].
#[verifier::external_body]
fn sha256(data: &[u8]) -> (r: Vec<u8>)
    ensures
        r@ == sha256_digest(data@),
        r@.len() == 32,
{
    sha2::Sha256::digest(data).to_vec()
}

/// Lower-case hexadecimal, two digits for each byte.
pub open spec fn hex_text(bytes: Seq<u8>) -> Seq<char>
    decreases bytes.len(),
{
    if bytes.len() == 0 {
        Seq::empty()
    } else {
        hex_text(bytes.drop_last()) + seq![
            digit_char((bytes.last() / 16) as nat),
            digit_char((bytes.last() % 16) as nat),
        ]
    }
}

/// `hex::encode` of the `hex` crate: the bytes as lower-case hexadecimal,
/// two digits each, as its documentation and source show.
#[verifier::external_body]
fn hex_encode(bytes: &[u8]) -> (r: String)
    ensures
        r@ == hex_text(bytes@),
{
    hex::encode(bytes)
}

/// The line recorded for a checked file: `name: SHA256=<digest in hex>`.
pub open spec fn hash_line_text(file_name: Seq<char>, data: Seq<u8>) -> Seq<char> {
    file_name + ": SHA256="@ + hex_text(sha256_digest(data))
}

/// Hashes a GGUF file's content and writes its line.
pub fn hash_line(file_name: &str, data: &[u8]) -> (r: String)
    ensures
        r@ == hash_line_text(file_name@, data@),
{
    let digest = sha256(data);
    let h = hex_encode(digest.as_slice());
    let mut s = text(file_name);
    push_str(&mut s, ": SHA256=");
    push_str(&mut s, h.as_str());
    s
}

/// What follows the check of the GGUF files.
pub enum VerifyVerdict {
    /// Report these events; the download is over.
    Report(Vec<DownloadEvent>),
    /// Report this event, remove the GGUF files and download again (the
    /// retry's number), then report with [`retry_outcome`].
    Retry(DownloadEvent, u32),
}

/// The events once the GGUF files were checked: all passed (and were
/// hashed) is completion, with their lines; a failure counts a retry
/// (`retries` before it) and starts it within the limit, an error beyond.
pub fn verify_verdict(model: &str, file_count: usize, all_passed: bool, hashes: Vec<String>, retries: u32) -> (r:
    VerifyVerdict)
    requires
        retries < u32::MAX,
    ensures
        all_passed && hashes@.len() > 0 ==> (r matches VerifyVerdict::Report(v) && v@.len() == 1 && v@[0].progress
            == 100 && v@[0].message@ == model@ + " 下载并校验完成！("@ + dec(file_count as nat) + " 个文件)"@
            && v@[0].status@ == "completed"@ && !v@[0].retryable && v@[0].sha256 == Some(hashes)),
        all_passed && hashes@.len() == 0 ==> (r matches VerifyVerdict::Report(v) && v@.len() == 0),
        !all_passed && retries + 1 <= MAX_RETRIES ==> (r matches VerifyVerdict::Retry(e, rc) && rc == retries + 1
            && event_is(
            e,
            0,
            "校验失败，第 "@ + dec(rc as nat) + " / "@ + dec(MAX_RETRIES as nat) + " 次自动重试..."@,
            "retrying"@,
            false,
        )),
        !all_passed && retries + 1 > MAX_RETRIES ==> (r matches VerifyVerdict::Report(v) && v@.len() == 1 && event_is(
            v@[0],
            0,
            model@ + " 下载：已自动重试 "@ + dec(MAX_RETRIES as nat) + " 次均失败，请检查网络或模型 ID"@,
            "error"@,
            true,
        )),
{
    if all_passed {
        if hashes.len() > 0 {
            let mut m = text(model);
            push_str(&mut m, " 下载并校验完成！(");
            push_digits(&mut m, file_count as u128, 10);
            push_str(&mut m, " 个文件)");
            let e = DownloadEvent {
                progress: 100,
                message: m,
                status: text("completed"),
                retryable: false,
                sha256: Some(hashes),
            };
            return VerifyVerdict::Report(vec![e]);
        }
        return VerifyVerdict::Report(Vec::new());
    }
    let rc = retries + 1;
    if rc <= MAX_RETRIES {
        let mut m = text("校验失败，第 ");
        push_digits(&mut m, rc as u128, 10);
        push_str(&mut m, " / ");
        push_digits(&mut m, MAX_RETRIES as u128, 10);
        push_str(&mut m, " 次自动重试...");
        VerifyVerdict::Retry(event(0, m, "retrying", false), rc)
    } else {
        let mut m = text(model);
        push_str(&mut m, " 下载：已自动重试 ");
        push_digits(&mut m, MAX_RETRIES as u128, 10);
        push_str(&mut m, " 次均失败，请检查网络或模型 ID");
        VerifyVerdict::Report(vec![event(0, m, "error", true)])
    }
}

/// The event as the automatic retry starts.
pub fn retry_started_event(model: &str, rc: u32) -> (r: DownloadEvent)
    ensures
        event_is(r, 0, "第 "@ + dec(rc as nat) + " 次下载: "@ + model@ + " ..."@, "downloading"@, false),
{
    let mut m = text("第 ");
    push_digits(&mut m, rc as u128, 10);
    push_str(&mut m, " 次下载: ");
    push_str(&mut m, model);
    push_str(&mut m, " ...");
    event(0, m, "downloading", false)
}

/// How an automatic retry ended: `Ok(succeeded, exit code)` once it ran,
/// `Err` where it did not start.
pub open spec fn retry_outcome_event(model: Seq<char>, rc: u32, outcome: Result<(bool, i32), ()>) -> (u32, Seq<char>, Seq<char>, bool) {
    match outcome {
        Ok((true, _)) => (100u32, model + " 重试第 "@ + dec(rc as nat) + " 次下载完成！"@, "completed"@, false),
        Ok((false, code)) => (
            0u32,
            if rc >= MAX_RETRIES {
                model + " 下载失败：已自动重试 "@ + dec(MAX_RETRIES as nat) + " 次均失败，请检查网络后点击重试"@
            } else {
                model + " 重试下载失败（退出码: "@ + crate::text::signed_pad(code as int, 0) + "），请点击重试按钮"@
            },
            "error"@,
            true,
        ),
        Err(_) => (0u32, "自动重试失败，请手动重试"@, "error"@, true),
    }
}

/// The event that ends an automatic retry.
pub fn retry_outcome(model: &str, rc: u32, outcome: Result<(bool, i32), ()>) -> (r: DownloadEvent)
    ensures
        r.sha256 is None,
        (r.progress, r.message@, r.status@, r.retryable) == retry_outcome_event(model@, rc, outcome),
{
    match outcome {
        Ok((true, _)) => {
            let mut m = text(model);
            push_str(&mut m, " 重试第 ");
            push_digits(&mut m, rc as u128, 10);
            push_str(&mut m, " 次下载完成！");
            event(100, m, "completed", false)
        },
        Ok((false, code)) => {
            let mut m = text(model);
            if rc >= MAX_RETRIES {
                push_str(&mut m, " 下载失败：已自动重试 ");
                push_digits(&mut m, MAX_RETRIES as u128, 10);
                push_str(&mut m, " 次均失败，请检查网络后点击重试");
            } else {
                push_str(&mut m, " 重试下载失败（退出码: ");
                crate::text::push_signed_padded(&mut m, code as i64, 0);
                push_str(&mut m, "），请点击重试按钮");
            }
            event(0, m, "error", true)
        },
        Err(()) => event(0, text("自动重试失败，请手动重试"), "error", true),
    }
}

/// What starting a download answers: started, with the process id; or the
/// error of a `modelscope` that did not start.
pub fn start_model_download(spawned: Result<u32, String>) -> (r: Result<String, String>)
    ensures
        match spawned {
            Ok(pid) => r matches Ok(m) && m@ == "下载已开始 (PID: "@ + dec(pid as nat) + ")"@,
            Err(e) => r matches Err(m) && m@ == "启动下载失败: "@ + e@
                + "\n\n请确保已安装 modelscope CLI:\n  pip install modelscope"@,
        },
{
    match spawned {
        Ok(pid) => {
            let mut m = text("下载已开始 (PID: ");
            push_digits(&mut m, pid as u128, 10);
            push_str(&mut m, ")");
            Ok(m)
        },
        Err(e) => {
            let mut m = text("启动下载失败: ");
            push_str(&mut m, e.as_str());
            push_str(&mut m, "\n\n请确保已安装 modelscope CLI:\n  pip install modelscope");
            Err(m)
        },
    }
}

/// A download started earlier is still running: its process id is listed
/// in the process listing taken (such as `tasklist` prints).
pub open spec fn still_running(pid: Option<u32>, listing: Option<Seq<u8>>) -> bool {
    match (pid, listing) {
        (Some(p), Some(l)) => contains(utf8_lossy(l), dec(p as nat)),
        _ => false,
    }
}

/// Whether a new download may start: refused while the one started before
/// (`pid`) is still listed as running in `listing`, the process listing
/// where one was taken.
pub fn check_no_download_running(pid: Option<u32>, listing: Option<&[u8]>) -> (r: Result<(), String>)
    ensures
        still_running(
            pid,
            match listing {
                Some(l) => Some(l@),
                None => None,
            },
        ) ==> (r matches Err(m) && m@ == "已有下载任务进行中"@),
        !still_running(
            pid,
            match listing {
                Some(l) => Some(l@),
                None => None,
            },
        ) ==> r is Ok,
{
    match (pid, listing) {
        (Some(p), Some(l)) => {
            let mut id = String::new();
            push_digits(&mut id, p as u128, 10);
            if crate::registry::process_listed(l, id.as_str()) {
                Err(text("已有下载任务进行中"))
            } else {
                Ok(())
            }
        },
        _ => Ok(()),
    }
}

/// A file the download left is checked as a GGUF model where its extension
/// is exactly `gguf`.
pub open spec fn is_gguf_name(file_name: Seq<char>) -> bool {
    crate::models::name_parts(file_name).1 == Some("gguf"@)
}

/// Decides whether a downloaded file, by its name, is a GGUF model to check.
pub fn is_gguf_file(file_name: &str) -> (r: bool)
    ensures
        r == is_gguf_name(file_name@),
{
    let (_, ext) = crate::models::split_file_name(file_name);
    match ext {
        Some(e) => str_eq(e.as_str(), "gguf"),
        None => false,
    }
}

/// What cancelling answers: the process to kill, or that there is none.
pub fn cancel_download(pid: Option<u32>) -> (r: Result<String, String>)
    ensures
        match pid {
            Some(p) => r matches Ok(m) && m@ == "下载已取消 (PID: "@ + dec(p as nat) + ")"@,
            None => r matches Err(m) && m@ == "没有正在进行的下载任务"@,
        },
{
    match pid {
        Some(p) => {
            let mut m = text("下载已取消 (PID: ");
            push_digits(&mut m, p as u128, 10);
            push_str(&mut m, ")");
            Ok(m)
        },
        None => Err(text("没有正在进行的下载任务")),
    }
}

/// Whether a retry can start: only where a model and a directory were kept.
pub fn check_retry(model_id: &str, local_dir: &str) -> (r: Result<(), String>)
    ensures
        model_id@.len() > 0 && local_dir@.len() > 0 ==> r is Ok,
        model_id@.len() == 0 || local_dir@.len() == 0 ==> (r matches Err(m) && m@ == "没有可重试的下载任务"@),
{
    if chars_of(model_id).len() == 0 || chars_of(local_dir).len() == 0 {
        Err(text("没有可重试的下载任务"))
    } else {
        Ok(())
    }
}

} // verus!
