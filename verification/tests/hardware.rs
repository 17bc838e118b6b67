use soul_agent_launcher::hardware::{
    all_packages, available_packages, cpu_cores, cpu_model, detect_gpu_internal, llama_package_files,
    modelscope_failure, modelscope_install_arguments, need_sync, package_fallbacks, parse_count, pick_bundled,
    pip_install_result, python_installer_arguments, run_python_installer, update_needed,
};
use soul_agent_launcher::json::JsonValue;

#[test]
fn a_recent_nvidia_driver_gets_cuda_13() {
    let g = detect_gpu_internal(Some(b"NVIDIA GeForce RTX 4090, 572.16\r\n"), true, false);
    assert_eq!(g.backend, "cuda");
    assert_eq!(g.gpu_name, "NVIDIA GeForce RTX 4090, 572.16");
    assert_eq!(g.cuda_version.as_deref(), Some("13.0"));
    assert_eq!(g.package_key, "cuda-13.3");
}

#[test]
fn a_middle_driver_gets_cuda_12_5() {
    let g = detect_gpu_internal(Some(b"RTX 3060, 531.79\n"), false, false);
    assert_eq!(g.cuda_version.as_deref(), Some("12.5"));
    assert_eq!(g.package_key, "cuda-12.4");
}

#[test]
fn an_old_or_unreadable_driver_gets_cuda_12_0() {
    let g = detect_gpu_internal(Some(b"GTX 1060, 472.12"), false, false);
    assert_eq!(g.cuda_version.as_deref(), Some("12.0"));
    assert_eq!(g.package_key, "cuda-12.4");
    let h = detect_gpu_internal(Some(b"GTX 1060"), false, false);
    assert_eq!(h.cuda_version.as_deref(), Some("12.0"));
    assert_eq!(h.gpu_name, "GTX 1060");
}

#[test]
fn without_nvidia_vulkan_wins_then_the_cpu() {
    let v = detect_gpu_internal(None, true, true);
    assert_eq!(v.backend, "vulkan");
    assert_eq!(v.gpu_name, "Vulkan GPU");
    assert_eq!(v.cuda_version, None);
    assert_eq!(v.package_key, "vulkan-x64");
    let c = detect_gpu_internal(None, false, false);
    assert_eq!(c.backend, "cpu");
    assert_eq!(c.gpu_name, "CPU (x64)");
    assert_eq!(c.package_key, "cpu-x64");
    let a = detect_gpu_internal(None, false, true);
    assert_eq!(a.gpu_name, "CPU (arm64)");
    assert_eq!(a.package_key, "cpu-arm64");
}

#[test]
fn package_archives_are_named() {
    let (main, rt) = llama_package_files("cuda-12.4");
    assert_eq!(main, "llama-b9568-bin-win-cuda-12.4-x64.zip");
    assert_eq!(rt.as_deref(), Some("cudart-llama-bin-win-cuda-12.4-x64.zip"));
    let (main, rt) = llama_package_files("vulkan-x64");
    assert_eq!(main, "llama-b9568-bin-win-vulkan-x64.zip");
    assert_eq!(rt, None);
    let (main, _) = llama_package_files("something-else");
    assert_eq!(main, "llama-b9568-bin-win-cpu-x64.zip");
}

#[test]
fn fallbacks_end_with_the_cpu_builds() {
    assert_eq!(package_fallbacks("cuda-13.3"), vec!["cuda-13.3", "cpu-x64", "cpu-arm64"]);
}

#[test]
fn known_packages_and_their_availability() {
    let all = all_packages();
    assert_eq!(all, vec!["cpu-x64", "cpu-arm64", "cuda-12.4", "cuda-13.3", "vulkan-x64", "hip-radeon-x64"]);
    let some = available_packages(&vec![true, false, false, true, true, false]);
    assert_eq!(some, vec!["cpu-x64", "cuda-13.3", "vulkan-x64"]);
}

fn device(key: Option<&str>) -> JsonValue {
    let mut members = vec![("backend".to_string(), JsonValue::Str("cuda".to_string()))];
    if let Some(k) = key {
        members.push(("package_key".to_string(), JsonValue::Str(k.to_string())));
    }
    JsonValue::Object(members)
}

#[test]
fn an_update_is_needed_when_the_recorded_package_differs() {
    assert!(update_needed(true, &Some(device(Some("cpu-x64"))), "cuda-12.4"));
    assert!(!update_needed(true, &Some(device(Some("cuda-12.4"))), "cuda-12.4"));
    assert!(!update_needed(false, &Some(device(Some("cpu-x64"))), "cuda-12.4"));
    assert!(!update_needed(true, &None, "cuda-12.4"));
    assert!(update_needed(true, &Some(device(None)), "cuda-12.4"));
}

#[test]
fn sync_is_needed_unless_the_right_package_is_in_place() {
    assert!(need_sync(None, "cpu-x64", true));
    assert!(need_sync(Some("cpu-x64"), "cuda-12.4", true));
    assert!(need_sync(Some("cpu-x64"), "cpu-x64", false));
    assert!(!need_sync(Some("cpu-x64"), "cpu-x64", true));
}

#[test]
fn the_first_matching_archive_by_name_is_bundled() {
    let names = vec![
        "llama-b9568-bin-win-vulkan-x64.zip".to_string(),
        "llama-b9000-bin-win-cpu-x64.zip".to_string(),
        "llama-b8000-bin-win-cpu-x64.zip".to_string(),
    ];
    assert_eq!(pick_bundled(&names, "cpu-x64"), Some(2));
    assert_eq!(pick_bundled(&names, "cuda-12.4"), None);
}

#[test]
fn python_installation_outcomes() {
    assert_eq!(python_installer_arguments(), vec!["/quiet", "InstallAllUsers=1", "PrependPath=1", "Include_test=0"]);
    assert_eq!(run_python_installer(Ok((true, vec![]))), Ok("Python 3.11 安装成功".to_string()));
    assert_eq!(run_python_installer(Ok((false, b"disk full".to_vec()))), Err("Python 安装失败: disk full".to_string()));
    assert_eq!(run_python_installer(Err("not found".to_string())), Err("启动安装程序失败: not found".to_string()));
    assert_eq!(run_python_installer(Ok((false, vec![0xff]))), Err("Python 安装失败: \u{fffd}".to_string()));
}

#[test]
fn pip_installation_outcomes() {
    assert_eq!(pip_install_result(Ok((true, vec![]))), Ok("pip 安装成功".to_string()));
    assert_eq!(pip_install_result(Ok((false, b"no net".to_vec()))), Err("pip 安装失败: no net".to_string()));
    assert_eq!(pip_install_result(Err("denied".to_string())), Err("启动 pip 安装失败: denied".to_string()));
}

#[test]
fn cpu_details_are_read_from_wmic() {
    assert_eq!(
        cpu_model(b"Name  \r\r\nIntel(R) Core(TM) i7-12700K  \r\r\n\r\r\n").as_deref(),
        Some("Intel(R) Core(TM) i7-12700K")
    );
    assert_eq!(cpu_model(b"Name\r\n\r\n"), None);
    assert_eq!(cpu_cores(b"NumberOfCores  \r\r\n12  \r\r\n"), Some(12));
    assert_eq!(cpu_cores(b"NumberOfCores\r\nnone\r\n"), None);
    assert_eq!(parse_count("16"), Some(16));
    assert_eq!(parse_count("x"), None);
}

#[test]
fn modelscope_installation() {
    assert_eq!(
        modelscope_install_arguments(),
        vec!["install", "modelscope", "-i", "https://mirrors.aliyun.com/pypi/simple/"]
    );
    assert_eq!(modelscope_failure(b"boom"), "安装 modelscope 失败: boom");
    let long = vec![b'a'; 400];
    assert_eq!(modelscope_failure(&long), format!("安装 modelscope 失败: {}", "a".repeat(300)));
}
