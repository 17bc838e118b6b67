//! The launcher's log: the entries it writes, their text and JSON lines,
//! the daily log files, and what the resource monitor reads of the GPU.
use vstd::prelude::*;
use crate::clock::{log_stamp, log_stamp_text, read_clock};
use crate::json::{push_quoted, quoted};
use crate::registry::{trim_end_matches, trim_end_matches_bound};
use crate::text::{
    chars_of, lines, lossy_text, parse_unsigned, parse_unsigned_exec, push_str, split, split_chars, split_lines,
    string_of_range, trim, trim_bounds, utf8_lossy, views,
};

verus! {

broadcast use vstd::string::group_string_axioms;

/// One log entry.
pub struct LogEntry {
    /// `HH:MM:SS.mmm` (UTC).
    pub timestamp: String,
    /// `INFO`, `WARN`, `ERROR`, `DEBUG` or `RESOURCE`.
    pub level: String,
    pub category: String,
    pub message: String,
    pub detail: Option<String>,
}

/// The entry's line in the text log: `[time][level][category] message`, and
/// the detail on a line of its own after an arrow.
pub open spec fn log_text_line(e: LogEntry) -> Seq<char> {
    "["@ + e.timestamp@ + "]["@ + e.level@ + "]["@ + e.category@ + "] "@ + e.message@ + match e.detail {
        Some(d) => "\n  → "@ + d@,
        None => Seq::empty(),
    }
}

/// The entry's line in the JSON log: its fields in order, the detail only
/// where there is one.
pub open spec fn log_json_line(e: LogEntry) -> Seq<char> {
    "{\"timestamp\":"@ + quoted(e.timestamp@) + ",\"level\":"@ + quoted(e.level@) + ",\"category\":"@ + quoted(
        e.category@,
    ) + ",\"message\":"@ + quoted(e.message@) + match e.detail {
        Some(d) => ",\"detail\":"@ + quoted(d@),
        None => Seq::empty(),
    } + "}"@
}

/// The text of an optional string slice.
pub open spec fn str_text(s: Option<&str>) -> Option<Seq<char>> {
    match s {
        Some(t) => Some(t@),
        None => None,
    }
}

/// The text of an optional string.
pub open spec fn string_text(s: Option<String>) -> Option<Seq<char>> {
    match s {
        Some(t) => Some(t@),
        None => None,
    }
}

fn text(s: &str) -> (r: String)
    ensures
        r@ == s@,
{
    String::from_str(s)
}

/// An entry stamped at `secs` seconds and `millis` milliseconds after the epoch.
pub fn log_entry(secs: u64, millis: u32, level: &str, category: &str, message: &str, detail: Option<&str>) -> (r:
    LogEntry)
    ensures
        r.timestamp@ == log_stamp_text(secs as nat, millis as nat),
        r.level@ == level@,
        r.category@ == category@,
        r.message@ == message@,
        string_text(r.detail) == str_text(detail),
{
    LogEntry {
        timestamp: log_stamp(secs, millis),
        level: text(level),
        category: text(category),
        message: text(message),
        detail: match detail {
            Some(d) => Some(text(d)),
            None => None,
        },
    }
}

/// Writes an entry's text-log line.
pub fn text_line(e: &LogEntry) -> (r: String)
    ensures
        r@ == log_text_line(*e),
{
    let mut s = text("[");
    push_str(&mut s, e.timestamp.as_str());
    push_str(&mut s, "][");
    push_str(&mut s, e.level.as_str());
    push_str(&mut s, "][");
    push_str(&mut s, e.category.as_str());
    push_str(&mut s, "] ");
    push_str(&mut s, e.message.as_str());
    match &e.detail {
        Some(d) => {
            push_str(&mut s, "\n  → ");
            push_str(&mut s, d.as_str());
        },
        None => {},
    }
    assert(s@ =~= log_text_line(*e));
    s
}

/// Writes an entry's JSON-log line.
pub fn json_line(e: &LogEntry) -> (r: String)
    ensures
        r@ == log_json_line(*e),
{
    let mut s = text("{\"timestamp\":");
    push_quoted(&mut s, e.timestamp.as_str());
    push_str(&mut s, ",\"level\":");
    push_quoted(&mut s, e.level.as_str());
    push_str(&mut s, ",\"category\":");
    push_quoted(&mut s, e.category.as_str());
    push_str(&mut s, ",\"message\":");
    push_quoted(&mut s, e.message.as_str());
    match &e.detail {
        Some(d) => {
            push_str(&mut s, ",\"detail\":");
            push_quoted(&mut s, d.as_str());
        },
        None => {},
    }
    push_str(&mut s, "}");
    assert(s@ =~= log_json_line(*e));
    s
}

/// An entry stamped with the current time.
pub fn soul_log(level: &str, category: &str, message: &str) -> (r: LogEntry)
    ensures
        exists|secs: u64, millis: u32| millis < 1000 && r.timestamp@ == log_stamp_text(secs as nat, millis as nat),
        r.level@ == level@,
        r.category@ == category@,
        r.message@ == message@,
        r.detail is None,
{
    let c = read_clock();
    log_entry(c.secs, c.subsec_millis, level, category, message, None)
}

/// An entry with a detail, stamped with the current time.
pub fn soul_log_detail(level: &str, category: &str, message: &str, detail: &str) -> (r: LogEntry)
    ensures
        exists|secs: u64, millis: u32| millis < 1000 && r.timestamp@ == log_stamp_text(secs as nat, millis as nat),
        r.level@ == level@,
        r.category@ == category@,
        r.message@ == message@,
        r.detail matches Some(d) && d@ == detail@,
{
    let c = read_clock();
    log_entry(c.secs, c.subsec_millis, level, category, message, Some(detail))
}

/// A raw text-log line: the time in brackets, then the text.
pub open spec fn raw_line_text(stamp: Seq<char>, text: Seq<char>) -> Seq<char> {
    "["@ + stamp + "] "@ + text
}

/// Writes a raw text-log line stamped with the current time.
pub fn raw_line(line: &str) -> (r: String)
    ensures
        exists|secs: u64, millis: u32| r@ == raw_line_text(log_stamp_text(secs as nat, millis as nat), line@),
{
    let c = read_clock();
    let stamp = log_stamp(c.secs, c.subsec_millis);
    let mut s = text("[");
    push_str(&mut s, stamp.as_str());
    push_str(&mut s, "] ");
    push_str(&mut s, line);
    assert(s@ =~= raw_line_text(stamp@, line@));
    s
}

/// The text and JSON log files of a day.
pub open spec fn log_file_names_of(day: Seq<char>) -> (Seq<char>, Seq<char>) {
    ("soul_"@ + day + ".log"@, "soul_"@ + day + ".json"@)
}

/// Names the text and JSON log files of a day (`YYYY-MM-DD`).
pub fn log_file_names(day: &str) -> (r: (String, String))
    ensures
        (r.0@, r.1@) == log_file_names_of(day@),
{
    let mut a = text("soul_");
    push_str(&mut a, day);
    push_str(&mut a, ".log");
    let mut b = text("soul_");
    push_str(&mut b, day);
    push_str(&mut b, ".json");
    (a, b)
}

/// What the log starts with: the banner line, where this start created the
/// logger, and the first entry.
pub struct LoggerStart {
    pub banner: Option<String>,
    pub first: LogEntry,
}

/// The banner that opens each run's log.
pub open spec fn banner_text() -> Seq<char> {
    "════════ Soul Agent Launcher 日志启动 ════════"@
}

/// The line written as a logger comes into being: the banner, stamped now,
/// once per logger; nothing where the logger already existed (`created` is
/// whether this very call created it).
pub fn opening_banner(created: bool) -> (r: Option<String>)
    ensures
        created ==> (r matches Some(b) && exists|secs: u64, millis: u32|
            b@ == raw_line_text(log_stamp_text(secs as nat, millis as nat), banner_text())),
        !created ==> r is None,
{
    if created {
        Some(raw_line("════════ Soul Agent Launcher 日志启动 ════════"))
    } else {
        None
    }
}

/// Starts the log: the banner (as a raw line) where this start created the
/// logger, and the entry that says the log is ready.
pub fn init_soul_logger(created: bool) -> (r: LoggerStart)
    ensures
        created ==> (r.banner matches Some(b) && exists|secs: u64, millis: u32|
            b@ == raw_line_text(log_stamp_text(secs as nat, millis as nat), banner_text())),
        !created ==> r.banner is None,
        exists|secs: u64, millis: u32|
            millis < 1000 && r.first.timestamp@ == log_stamp_text(secs as nat, millis as nat),
        r.first.level@ == "INFO"@,
        r.first.category@ == "init"@,
        r.first.message@ == "Soul Agent Launcher 日志系统已初始化"@,
        r.first.detail is None,
{
    let banner = opening_banner(created);
    let first = soul_log("INFO", "init", "Soul Agent Launcher 日志系统已初始化");
    LoggerStart { banner, first }
}

/// The GPU's name and VRAM in use (MiB) from the first line that `nvidia-smi
/// --query-gpu=name,memory.used --format=csv,noheader` prints: the fields
/// trimmed, the second without its ` MiB` and read as a number (zero where
/// it does not read). Nothing where there is no line or fewer than two fields.
pub open spec fn gpu_usage_of(text: Seq<char>) -> Option<(Seq<char>, u64)> {
    let ls = lines(text);
    if ls.len() == 0 {
        None
    } else {
        let parts = split(ls[0], ',');
        if parts.len() < 2 {
            None
        } else {
            Some(
                (
                    trim(parts[0]),
                    match parse_unsigned(trim_end_matches(trim(parts[1]), " MiB"@), u64::MAX as nat) {
                        Some(v) => v as u64,
                        None => 0,
                    },
                ),
            )
        }
    }
}

/// Reads the GPU's name and VRAM in use from `nvidia-smi`'s output.
pub fn gpu_usage(stdout: &[u8]) -> (r: Option<(String, u64)>)
    ensures
        match r {
            Some((name, mib)) => gpu_usage_of(utf8_lossy(stdout@)) == Some((name@, mib)),
            None => gpu_usage_of(utf8_lossy(stdout@)) is None,
        },
{
    let t = lossy_text(stdout);
    let cs = chars_of(t.as_str());
    let ls = split_lines(&cs);
    if ls.len() == 0 {
        return None;
    }
    assert(views(ls@)[0] == ls@[0]@);
    let parts = split_chars(&ls[0], ',');
    if parts.len() < 2 {
        return None;
    }
    assert(views(parts@)[0] == parts@[0]@);
    assert(views(parts@)[1] == parts@[1]@);
    let p0 = &parts[0];
    let (a0, b0) = trim_bounds(p0, 0, p0.len());
    assert(p0@.subrange(0, p0@.len() as int) =~= p0@);
    let name = string_of_range(p0, a0, b0);
    let p1 = &parts[1];
    let (a1, b1) = trim_bounds(p1, 0, p1.len());
    assert(p1@.subrange(0, p1@.len() as int) =~= p1@);
    let suffix = chars_of(" MiB");
    let e1 = trim_end_matches_bound(p1, a1, b1, &suffix);
    let mib = match parse_unsigned_exec(p1, a1, e1, u64::MAX) {
        Some(v) => v,
        None => 0,
    };
    Some((name, mib))
}

} // verus!
