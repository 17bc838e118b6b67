use soul_agent_launcher::download::{
    cancel_download, check_no_download_running, check_retry, checking_event, clean_id, download_arguments, failed_event, hash_line, is_gguf_file,
    is_too_small, other_files_outcome, output_event, progress_event, retry_outcome, retry_started_event,
    start_model_download, started_event, token_of, verify_verdict, verifying_event, DownloadEvent, VerifyVerdict,
    MAX_RETRIES,
};

fn fields(e: &DownloadEvent) -> (u32, &str, &str, bool) {
    (e.progress, e.message.as_str(), e.status.as_str(), e.retryable)
}

#[test]
fn model_ids_lose_their_revision_wildcards() {
    assert_eq!(clean_id("Qwen/Qwen3-8B-GGUF:*:*"), "Qwen/Qwen3-8B-GGUF");
    assert_eq!(clean_id("Qwen/Qwen3-8B-GGUF"), "Qwen/Qwen3-8B-GGUF");
    assert_eq!(clean_id(":*"), "");
}

#[test]
fn tokens_are_trimmed_and_blank_ones_ignored() {
    assert_eq!(token_of("  abc123\n").as_deref(), Some("abc123"));
    assert_eq!(token_of(" \n\t"), None);
}

#[test]
fn download_arguments_carry_token_and_pattern() {
    assert_eq!(
        download_arguments("Qwen/X", "D:\\models", Some("tok"), Some("*Q4_K_M.gguf")),
        vec!["download", "--model", "Qwen/X", "--local_dir", "D:\\models", "--token", "tok", "--include", "*Q4_K_M.gguf"]
    );
    assert_eq!(download_arguments("Qwen/X", "d", None, None), vec!["download", "--model", "Qwen/X", "--local_dir", "d"]);
}

#[test]
fn tqdm_pieces_give_their_percentage() {
    let e = progress_event(b"  Downloading [model.gguf]:  45%|####5     | 2.1G/4.6G [00:10<00:12]  ").unwrap();
    assert_eq!(fields(&e), (45, "Downloading [model.gguf]:  45%|####5     | 2.1G/4.6G [00:10<00:12]", "downloading", false));
    assert!(e.sha256.is_none());
    let plain = progress_event(b"Fetching files").unwrap();
    assert_eq!(plain.progress, 0);
    assert!(progress_event(b"  \n ").is_none());
    let odd = progress_event(b"ratio:x%").unwrap();
    assert_eq!(odd.progress, 0);
}

#[test]
fn output_lines_are_trimmed() {
    let e = output_event("  saved to D:\\m  ").unwrap();
    assert_eq!(fields(&e), (0, "saved to D:\\m", "downloading", false));
    assert!(output_event("   ").is_none());
}

#[test]
fn fixed_events() {
    assert_eq!(fields(&started_event("Qwen/X")), (0, "正在下载 Qwen/X ...", "downloading", false));
    assert_eq!(fields(&failed_event("Qwen/X", -1)), (0, "Qwen/X 下载失败（退出码: -1）", "error", true));
    assert_eq!(fields(&verifying_event()), (99, "正在校验文件完整性...", "verifying", false));
    assert_eq!(fields(&checking_event("a.gguf")), (99, "SHA256 校验中: a.gguf", "verifying", false));
    assert_eq!(fields(&retry_started_event("Qwen/X", 2)), (0, "第 2 次下载: Qwen/X ...", "downloading", false));
}

#[test]
fn the_retry_limit_is_three() {
    assert_eq!(MAX_RETRIES, 3);
}

#[test]
fn no_file_counts_a_retry_until_the_limit() {
    let first = other_files_outcome("Qwen/X", &vec![], 0);
    assert_eq!(first.len(), 2);
    assert_eq!(fields(&first[0]), (0, "未下载到文件，第 1 次重试...", "retrying", false));
    assert_eq!(fields(&first[1]), (0, "下载结果异常，请点击重试按钮重新下载（1/3）", "error", true));
    let last = other_files_outcome("Qwen/X", &vec![], 3);
    assert_eq!(last.len(), 1);
    assert_eq!(
        fields(&last[0]),
        (0, "Qwen/X 下载失败：已重试 3 次均未下载到文件，请检查网络或模型 ID", "error", true)
    );
}

#[test]
fn other_files_are_judged_by_their_total_size() {
    let small = other_files_outcome("Qwen/X", &vec![100, 200], 0);
    assert_eq!(fields(&small[0]), (0, "下载文件异常（过小），请重试", "error", true));
    let done = other_files_outcome("Qwen/X", &vec![1000, 24], 0);
    assert_eq!(fields(&done[0]), (100, "Qwen/X 下载完成！共 2 个文件", "completed", false));
}

#[test]
fn small_gguf_files_fail() {
    assert!(is_too_small(1023));
    assert!(!is_too_small(1024));
}

#[test]
fn hash_lines_hold_the_sha256_in_hex() {
    assert_eq!(
        hash_line("a.gguf", b"abc"),
        "a.gguf: SHA256=ba7816bf8f01cfea414140de5dae2223b00361a396177a9cb410ff61f20015ad"
    );
    assert_eq!(
        hash_line("e", b""),
        "e: SHA256=e3b0c44298fc1c149afbf4c8996fb92427ae41e4649b934ca495991b7852b855"
    );
}

#[test]
fn passing_files_complete_the_download() {
    match verify_verdict("Qwen/X", 2, true, vec!["a: SHA256=1".to_string()], 0) {
        VerifyVerdict::Report(v) => {
            assert_eq!(v.len(), 1);
            assert_eq!(fields(&v[0]), (100, "Qwen/X 下载并校验完成！(2 个文件)", "completed", false));
            assert_eq!(v[0].sha256.clone(), Some(vec!["a: SHA256=1".to_string()]));
        },
        VerifyVerdict::Retry(..) => panic!("no retry expected"),
    }
    match verify_verdict("Qwen/X", 0, true, vec![], 0) {
        VerifyVerdict::Report(v) => assert!(v.is_empty()),
        VerifyVerdict::Retry(..) => panic!("no retry expected"),
    }
}

#[test]
fn failing_files_retry_then_give_up() {
    match verify_verdict("Qwen/X", 1, false, vec![], 1) {
        VerifyVerdict::Retry(e, rc) => {
            assert_eq!(rc, 2);
            assert_eq!(fields(&e), (0, "校验失败，第 2 / 3 次自动重试...", "retrying", false));
        },
        VerifyVerdict::Report(_) => panic!("a retry expected"),
    }
    match verify_verdict("Qwen/X", 1, false, vec![], 3) {
        VerifyVerdict::Report(v) => {
            assert_eq!(fields(&v[0]), (0, "Qwen/X 下载：已自动重试 3 次均失败，请检查网络或模型 ID", "error", true));
        },
        VerifyVerdict::Retry(..) => panic!("no retry expected"),
    }
}

#[test]
fn retry_outcomes() {
    assert_eq!(fields(&retry_outcome("Qwen/X", 1, Ok((true, 0)))), (100, "Qwen/X 重试第 1 次下载完成！", "completed", false));
    assert_eq!(
        fields(&retry_outcome("Qwen/X", 1, Ok((false, 2)))),
        (0, "Qwen/X 重试下载失败（退出码: 2），请点击重试按钮", "error", true)
    );
    assert_eq!(
        fields(&retry_outcome("Qwen/X", 3, Ok((false, 2)))),
        (0, "Qwen/X 下载失败：已自动重试 3 次均失败，请检查网络后点击重试", "error", true)
    );
    assert_eq!(fields(&retry_outcome("Qwen/X", 1, Err(()))), (0, "自动重试失败，请手动重试", "error", true));
}

#[test]
fn starting_and_cancelling() {
    assert_eq!(start_model_download(Ok(4242)), Ok("下载已开始 (PID: 4242)".to_string()));
    assert_eq!(
        start_model_download(Err("not found".to_string())),
        Err("启动下载失败: not found\n\n请确保已安装 modelscope CLI:\n  pip install modelscope".to_string())
    );
    assert_eq!(cancel_download(Some(7)), Ok("下载已取消 (PID: 7)".to_string()));
    assert_eq!(cancel_download(None), Err("没有正在进行的下载任务".to_string()));
    assert_eq!(check_retry("Qwen/X", "d"), Ok(()));
    assert_eq!(check_retry("", "d"), Err("没有可重试的下载任务".to_string()));
}

#[test]
fn a_second_download_is_refused_while_the_first_runs() {
    assert_eq!(
        check_no_download_running(Some(4242), Some(b"python.exe   4242 Console   1   12,000 K\r\n")),
        Err("已有下载任务进行中".to_string())
    );
    assert_eq!(check_no_download_running(Some(4242), Some(b"INFO: No tasks are running.\r\n")), Ok(()));
    assert_eq!(check_no_download_running(Some(4242), None), Ok(()));
    assert_eq!(check_no_download_running(None, Some(b"4242")), Ok(()));
}

#[test]
fn only_files_ending_in_gguf_are_checked() {
    assert!(is_gguf_file("qwen3-8b-Q4_K_M.gguf"));
    assert!(!is_gguf_file("model.GGUF"));
    assert!(!is_gguf_file("config.json"));
    assert!(!is_gguf_file(".gguf"));
    assert!(!is_gguf_file("gguf"));
}
