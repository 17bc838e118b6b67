use soul_agent_launcher::calendar::{now_iso, today_str};
use soul_agent_launcher::clock::{generate_id, now_str, rand_4hex};
use soul_agent_launcher::config::{install_config, load_auto_unload_setting, LauncherConfig, DEFAULT_CTX, DEFAULT_PORT};
use soul_agent_launcher::json::{to_json_string, unsigned_number, with_member, JsonValue};
use soul_agent_launcher::logger::{
    gpu_usage, init_soul_logger, json_line, log_entry, opening_banner, log_file_names, raw_line, soul_log, soul_log_detail, text_line,
};
use soul_agent_launcher::router::get_model_router;
use soul_agent_launcher::{default_true, return_true};

#[test]
fn entries_are_stamped_and_written_as_text() {
    let e = log_entry(3661, 5, "WARN", "proxy", "slow", Some("took 3s"));
    assert_eq!(e.timestamp, "01:01:01.005");
    assert_eq!(text_line(&e), "[01:01:01.005][WARN][proxy] slow\n  → took 3s");
    let plain = log_entry(0, 0, "INFO", "init", "ok", None);
    assert_eq!(text_line(&plain), "[00:00:00.000][INFO][init] ok");
}

#[test]
fn entries_are_written_as_json_lines() {
    let e = log_entry(3661, 5, "ERROR", "model", "said \"no\"", Some("a\nb"));
    assert_eq!(
        json_line(&e),
        "{\"timestamp\":\"01:01:01.005\",\"level\":\"ERROR\",\"category\":\"model\",\"message\":\"said \\\"no\\\"\",\"detail\":\"a\\nb\"}"
    );
    let plain = log_entry(0, 0, "INFO", "init", "ok", None);
    assert_eq!(
        json_line(&plain),
        "{\"timestamp\":\"00:00:00.000\",\"level\":\"INFO\",\"category\":\"init\",\"message\":\"ok\"}"
    );
}

fn is_stamp(s: &str) -> bool {
    let b = s.as_bytes();
    b.len() == 12 && b[2] == b':' && b[5] == b':' && b[8] == b'.'
        && [0, 1, 3, 4, 6, 7, 9, 10, 11].iter().all(|&i| b[i].is_ascii_digit())
}

#[test]
fn current_entries_carry_a_stamp() {
    let e = soul_log("INFO", "app", "started");
    assert!(is_stamp(&e.timestamp));
    assert_eq!((e.level.as_str(), e.category.as_str(), e.message.as_str()), ("INFO", "app", "started"));
    assert!(e.detail.is_none());
    let d = soul_log_detail("ERROR", "app", "failed", "why");
    assert_eq!(d.detail.as_deref(), Some("why"));
    let raw = raw_line("hello");
    assert!(raw.starts_with('[') && raw.ends_with("] hello"));
    assert!(is_stamp(&raw[1..13]));
}

#[test]
fn the_log_opens_with_a_banner_once_per_logger() {
    let start = init_soul_logger(true);
    assert!(start.banner.unwrap().ends_with("] ════════ Soul Agent Launcher 日志启动 ════════"));
    assert_eq!(start.first.level, "INFO");
    assert_eq!(start.first.category, "init");
    assert_eq!(start.first.message, "Soul Agent Launcher 日志系统已初始化");
    let again = init_soul_logger(false);
    assert!(again.banner.is_none());
    assert_eq!(again.first.message, "Soul Agent Launcher 日志系统已初始化");
    assert!(opening_banner(true).is_some());
    assert!(opening_banner(false).is_none());
}

#[test]
fn daily_log_files() {
    assert_eq!(log_file_names("2025-03-01"), ("soul_2025-03-01.log".to_string(), "soul_2025-03-01.json".to_string()));
}

#[test]
fn gpu_usage_is_read_from_nvidia_smi() {
    assert_eq!(gpu_usage(b"NVIDIA GeForce RTX 4090, 10240 MiB\r\n"), Some(("NVIDIA GeForce RTX 4090".to_string(), 10240)));
    assert_eq!(gpu_usage(b"GPU, [N/A]\n"), Some(("GPU".to_string(), 0)));
    assert_eq!(gpu_usage(b"no comma here\n"), None);
    assert_eq!(gpu_usage(b""), None);
}

#[test]
fn auto_unload_defaults_to_yes() {
    assert!(load_auto_unload_setting(None));
    let c = LauncherConfig { llama_path: "l".into(), models_dir: "m".into(), port: 1, ctx: 2, auto_unload: false };
    assert!(!load_auto_unload_setting(Some(&c)));
}

#[test]
fn installation_writes_the_default_configuration() {
    assert_eq!(DEFAULT_PORT, 20000);
    assert_eq!(DEFAULT_CTX, 4096);
    assert_eq!(
        install_config("C:\\llama\\llama-server.exe", "C:\\models", "cuda"),
        "{\n  \"backend\": \"cuda\",\n  \"ctx\": 4096,\n  \"llama_path\": \"C:\\\\llama\\\\llama-server.exe\",\n  \"models_dir\": \"C:\\\\models\",\n  \"port\": 20000\n}"
    );
}

#[test]
fn members_are_set_in_place_or_appended() {
    let v = JsonValue::Object(vec![
        ("a".to_string(), JsonValue::Bool(true)),
        ("b".to_string(), JsonValue::Null),
    ]);
    let v = with_member(v, "a", JsonValue::Str("x".to_string()));
    let v = with_member(v, "c", JsonValue::Number(unsigned_number(7)));
    assert_eq!(to_json_string(&v), "{\"a\":\"x\",\"b\":null,\"c\":7}");
    let fresh = with_member(JsonValue::Null, "k", JsonValue::Array(vec![]));
    assert_eq!(to_json_string(&fresh), "{\"k\":[]}");
}

#[test]
fn unsigned_numbers_read_both_ways() {
    let n = unsigned_number(42);
    assert_eq!((n.as_u64, n.as_i64, n.float_text.as_str()), (Some(42), Some(42), "42.0"));
}

#[test]
fn clock_texts_have_their_shape() {
    let t = now_str();
    assert_eq!(t.len(), 8);
    assert_eq!(&t[2..3], ":");
    let d = today_str();
    assert_eq!(d.len(), 10);
    assert_eq!(&d[4..5], "-");
    let iso = now_iso();
    assert_eq!(iso.len(), 19);
    let id = generate_id();
    assert!(id.starts_with('s'));
    assert!(id[1..].chars().all(|c| c.is_ascii_hexdigit()));
    let _ = rand_4hex();
}

#[test]
fn defaults_are_true_and_the_router_starts_empty() {
    assert!(default_true());
    assert!(return_true());
    assert_eq!(get_model_router().get("any"), None);
}
