use soul_agent_launcher::json::JsonValue;
use soul_agent_launcher::server::{
    active_sessions, begin_sleep, begin_start, begin_wake, check_server, check_server_port, finish_sleep,
    finish_start, finish_wake, idle_report, llama_port_for, log_sleep_event, model_arguments, server_arguments,
    sleep_check, stop_outcome, ChildState, ServerControl, SleepLog, StartStep, SwitchStep,
};

fn s(x: &str) -> JsonValue {
    JsonValue::Str(x.to_string())
}

#[test]
fn llama_port_is_the_next_one_or_20001() {
    assert_eq!(llama_port_for(20000), 20001);
    assert_eq!(llama_port_for(65535), 20001);
}

#[test]
fn server_arguments_load_the_model_unless_in_standby() {
    assert_eq!(
        server_arguments("m.gguf", 20001, 4096, true),
        vec!["-m", "m.gguf", "--host", "127.0.0.1", "--port", "20001", "-c", "4096"]
    );
    assert_eq!(server_arguments("m.gguf", 20001, 4096, false), vec!["--host", "127.0.0.1", "--port", "20001", "-c", "4096"]);
    assert_eq!(model_arguments("m.gguf", 8, 512).last().unwrap(), "99");
}

#[test]
fn a_start_runs_in_two_halves() {
    let mut c = ServerControl::new();
    match begin_start(&mut c, ChildState::Absent, "llama".into(), "/m/q.gguf".into(), 20000, 4096, true) {
        StartStep::Spawn(args) => assert_eq!(args, vec!["--host", "127.0.0.1", "--port", "20001", "-c", "4096"]),
        StartStep::Reply(_) => panic!("expected a spawn"),
    }
    assert!(c.starting && c.standby);
    assert_eq!(c.model_name, "q");
    match begin_start(&mut c, ChildState::Absent, "l".into(), "m".into(), 1, 1, false) {
        StartStep::Reply(Err(e)) => assert_eq!(e, "服务器正在启动中"),
        _ => panic!("expected a refusal"),
    }
    let (r, proxy) = finish_start(&mut c, Ok(77), 20000);
    assert_eq!(r.unwrap(), "服务器已启动 (PID: 77, 端口: 20000, 模式: 待机)");
    assert!(proxy && !c.starting && c.proxy_running);
    match begin_start(&mut c, ChildState::Running, "l".into(), "m".into(), 1, 1, false) {
        StartStep::Reply(Ok(m)) => assert_eq!(m, "服务器已在运行中"),
        _ => panic!("expected an answer"),
    }
    match begin_start(&mut c, ChildState::Unknown("boom".into()), "l".into(), "m".into(), 1, 1, false) {
        StartStep::Reply(Err(e)) => assert_eq!(e, "检查服务器状态失败: boom"),
        _ => panic!("expected an error"),
    }
    match begin_start(&mut c, ChildState::Exited, "l".into(), "".into(), 1, 1, false) {
        StartStep::Spawn(_) => {}
        _ => panic!("expected a spawn"),
    }
    assert_eq!(c.model_name, "model");
    let (r, proxy) = finish_start(&mut c, Err("denied".into()), 1);
    assert_eq!(r.err().unwrap(), "启动服务器失败: denied");
    assert!(!proxy && !c.starting);
}

#[test]
fn wake_and_sleep_switch_the_mode_and_log_it() {
    let mut c = ServerControl::new();
    let mut log = SleepLog::new();
    match begin_wake(&mut c) {
        SwitchStep::Reply(Err(e)) => assert_eq!(e, "未找到启动参数，请先启动服务器"),
        _ => panic!(),
    }
    begin_start(&mut c, ChildState::Absent, "l".into(), "m.gguf".into(), 20000, 2048, true);
    finish_start(&mut c, Ok(1), 20000);
    match begin_wake(&mut c) {
        SwitchStep::Respawn(a) => assert_eq!(a[0..2].to_vec(), vec!["-m", "m.gguf"]),
        _ => panic!(),
    }
    assert!(!c.standby);
    assert_eq!(finish_wake(&mut log, Ok(5), 120).unwrap(), "模型已加载 (PID: 5, 耗时: 120ms)");
    assert_eq!(log.entries()[0].action, "wake");
    assert_eq!(log.entries()[0].detail.as_deref(), Some("PID 5"));
    match begin_wake(&mut c) {
        SwitchStep::Reply(Ok(m)) => assert_eq!(m, "服务器已处于唤醒状态"),
        _ => panic!(),
    }
    assert_eq!(sleep_check(&c), Ok(20001));
    match begin_sleep(&mut c, &mut log, 2) {
        SwitchStep::Reply(Err(e)) => assert_eq!(e, "有 2 个活跃会话，拒绝休眠"),
        _ => panic!(),
    }
    assert_eq!(log.entries()[1].action, "reject_sleep");
    match begin_sleep(&mut c, &mut log, 0) {
        SwitchStep::Respawn(a) => assert_eq!(a, vec!["--host", "127.0.0.1", "--port", "20001", "-c", "2048"]),
        _ => panic!(),
    }
    assert!(c.standby);
    assert_eq!(finish_sleep(&mut log, Ok(9), 30).unwrap(), "已回到待机模式 (耗时: 30ms)");
    assert_eq!(sleep_check(&c), Err(Ok("服务器已处于待机模式".to_string())));
    assert_eq!(finish_sleep(&mut log, Err("x".into()), 1).err().unwrap(), "休眠失败: x");
    assert_eq!(finish_wake(&mut log, Err("y".into()), 1).err().unwrap(), "唤醒失败: y");
}

#[test]
fn sleep_log_keeps_the_latest_hundred() {
    let mut log = SleepLog::new();
    for i in 0..105u64 {
        log_sleep_event(&mut log, "sleep", Some(i), None);
    }
    assert_eq!(log.entries().len(), 100);
    assert_eq!(log.entries()[0].duration_ms, Some(5));
    assert_eq!(log.entries()[99].duration_ms, Some(104));
    assert_eq!(log.entries()[0].timestamp.len(), 19);
}

#[test]
fn stopping_needs_a_process() {
    let mut c = ServerControl::new();
    c.standby = true;
    assert_eq!(stop_outcome(&mut c, false, Ok(())).err().unwrap(), "服务器未在运行");
    assert_eq!(stop_outcome(&mut c, true, Err("gone".into())).err().unwrap(), "停止服务器失败: gone");
    assert!(c.standby);
    assert_eq!(stop_outcome(&mut c, true, Ok(())).unwrap(), "服务器已停止");
    assert!(!c.standby);
}

#[test]
fn active_sessions_are_the_slots_not_idle() {
    let slots = vec![
        JsonValue::Object(vec![("state".into(), s("idle"))]),
        JsonValue::Object(vec![("state".into(), s("processing"))]),
        JsonValue::Null,
    ];
    assert_eq!(active_sessions(&slots), 2);
    assert_eq!(idle_report(2), "{\"active_sessions\":2,\"idle\":false}");
    assert_eq!(idle_report(0), "{\"active_sessions\":0,\"idle\":true}");
}

#[test]
fn health_checks() {
    assert!(check_server(true, Some(200)));
    assert!(check_server(true, Some(503)));
    assert!(!check_server(true, Some(404)));
    assert!(!check_server(false, Some(200)));
    assert!(!check_server(true, None));
    assert!(check_server_port(Some(204)));
    assert!(!check_server_port(Some(503)));
}
