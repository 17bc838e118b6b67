use soul_agent_launcher::registry::{
    get_gpu_process_vram, model_display_name, parse_pid, process_listed, refresh_models, register_model,
    running_model_to_json, stop_all_models, unload_model, vram_of, RunningModel,
};
use soul_agent_launcher::router::{get_model_router, ModelRouter};

fn model(name: &str, port: u16, pid: &str) -> RunningModel {
    RunningModel {
        name: name.to_string(),
        model_path: format!("C:\\m\\{}.gguf", name),
        proxy_port: port,
        llama_port: port.wrapping_add(1),
        pid: pid.to_string(),
        started_at: "01:02:03".to_string(),
        ctx: 4096,
        vram_mb: 0,
        status: "running".to_string(),
        persistent: true,
    }
}

#[test]
fn registering_routes_the_name_and_reports_proxy_need() {
    let mut models = Vec::new();
    let mut router = get_model_router();
    let r = register_model(&mut models, &mut router, "/m/qwen.gguf".into(), "qwen".into(), 20000, 4096, 1234, "10:00:00".into());
    assert!(r.needs_proxy);
    assert_eq!(
        r.json,
        "{\"ctx\":4096,\"llama_port\":20001,\"model_path\":\"/m/qwen.gguf\",\"name\":\"qwen\",\"persistent\":true,\"pid\":\"1234\",\"proxy_port\":20000,\"started_at\":\"10:00:00\",\"status\":\"running\",\"vram_mb\":0}"
    );
    assert_eq!(router.get("qwen"), Some(20000));
    let again = register_model(&mut models, &mut router, "/m/glm.gguf".into(), "glm".into(), 20000, 2048, 99, "10:00:01".into());
    assert!(!again.needs_proxy);
    assert_eq!(models.len(), 2);
}

#[test]
fn unnamed_models_take_the_file_stem() {
    assert_eq!(model_display_name("".into(), Some("qwen3-8b".into())), "qwen3-8b");
    assert_eq!(model_display_name("".into(), None), "unknown");
    assert_eq!(model_display_name("given".into(), Some("x".into())), "given");
    let mut models = Vec::new();
    let mut router = ModelRouter::new();
    register_model(&mut models, &mut router, "models/llama-3.gguf".into(), "".into(), 1, 1, 1, "t".into());
    assert_eq!(models[0].name, "llama-3");
}

#[test]
fn unloading_removes_model_and_route() {
    let mut models = vec![model("a", 1, "11"), model("b", 3, "x")];
    let mut router = ModelRouter::new();
    router.insert("a".into(), 1);
    router.insert("b".into(), 3);
    let u = unload_model(&mut models, &mut router, "b").unwrap();
    assert_eq!(u.message, "已卸载模型: b");
    assert_eq!(u.pid, None);
    assert_eq!(router.get("b"), None);
    assert_eq!(models.len(), 1);
    let e = unload_model(&mut models, &mut router, "zzz").err().unwrap();
    assert_eq!(e, "未找到模型: zzz");
    let u = unload_model(&mut models, &mut router, "a").unwrap();
    assert_eq!(u.pid, Some(11));
}

#[test]
fn vram_listing_is_parsed_and_last_entry_wins() {
    let out = b"1234, 2048 MiB\r\n 55 , 10 MiB\nbad line\n1234, 4096 MiB\n";
    let v = get_gpu_process_vram(true, out);
    assert_eq!(v.len(), 2);
    assert_eq!(v.get(&55), Some(&10));
    assert_eq!(vram_of(&v, 1234), 4096);
    assert_eq!(vram_of(&v, 7), 0);
    assert!(get_gpu_process_vram(false, out).is_empty());
}

#[test]
fn refresh_keeps_live_models_with_their_vram() {
    let mut models = vec![model("a", 1, "10"), model("b", 3, "20"), model("c", 5, "nope")];
    models[2].vram_mb = 77;
    models[2].status = "stopped".into();
    let vram: std::collections::HashMap<u32, u64> = [(10u32, 100u64), (20, 200)].into_iter().collect();
    refresh_models(&mut models, &vram, &vec![true, false, true]);
    assert_eq!(models.len(), 2);
    assert_eq!((models[0].name.as_str(), models[0].vram_mb), ("a", 100));
    assert_eq!((models[1].name.as_str(), models[1].vram_mb, models[1].status.as_str()), ("c", 77, "running"));
}

#[test]
fn stopping_all_clears_everything() {
    let mut models = vec![model("a", 1, "10"), model("b", 3, "x"), model("c", 5, "30")];
    let mut router = ModelRouter::new();
    router.insert("a".into(), 1);
    let s = stop_all_models(&mut models, &mut router);
    assert_eq!(s.message, "已停止 3 个模型");
    assert_eq!(s.pids, vec![10, 30]);
    assert!(models.is_empty());
    assert_eq!(router.get("a"), None);
}

#[test]
fn process_ids_are_read_and_found_in_listings() {
    assert_eq!(parse_pid("4321"), Some(4321));
    assert_eq!(parse_pid("-1"), None);
    assert_eq!(parse_pid("4294967296"), None);
    assert!(process_listed(b"llama-server.exe   4321 Console", "4321"));
    assert!(!process_listed(b"INFO: No tasks", "4321"));
}

#[test]
fn running_model_json_escapes_paths() {
    let m = model("q", 1, "2");
    assert!(running_model_to_json(&m).contains("\"model_path\":\"C:\\\\m\\\\q.gguf\""));
}

#[test]
fn unloading_a_fresh_model_undoes_its_registration() {
    let mut models = vec![model("glm", 20000, "11")];
    let mut router = ModelRouter::new();
    router.insert("glm".to_string(), 20000);
    register_model(&mut models, &mut router, "/m/qwen.gguf".into(), "qwen".into(), 20002, 4096, 7, "t".into());
    assert_eq!(router.get("qwen"), Some(20002));
    let r = unload_model(&mut models, &mut router, "qwen").unwrap();
    assert_eq!(r.pid, Some(7));
    assert_eq!(models.len(), 1);
    assert_eq!(models[0].name, "glm");
    assert_eq!(router.get("qwen"), None);
    assert_eq!(router.get("glm"), Some(20000));
}
