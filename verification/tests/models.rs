use soul_agent_launcher::json::JsonValue;
use soul_agent_launcher::models::{
    auto_find_model, check_delete_ext, check_import_name, delete_model_file, delete_outcome, import_conflict,
    import_done, import_model_file, list_model_files, list_models, read_token, search_results, split_file_name,
    CatalogHit, FoundFile,
};

fn file(name: &str, size: u64) -> FoundFile {
    FoundFile { file_name: name.to_string(), path: format!("D:\\models\\{}", name), size }
}

#[test]
fn file_names_split_at_the_last_dot() {
    assert_eq!(split_file_name("qwen3-8b.Q4_K_M.gguf"), ("qwen3-8b.Q4_K_M".to_string(), Some("gguf".to_string())));
    assert_eq!(split_file_name("README"), ("README".to_string(), None));
    assert_eq!(split_file_name(".hidden"), (".hidden".to_string(), None));
    assert_eq!(split_file_name("a."), ("a".to_string(), Some("".to_string())));
}

#[test]
fn only_gguf_files_are_listed_by_name() {
    let files = vec![file("zeta.gguf", 1536), file("notes.txt", 10), file("Alpha.GGUF", 1048576), file("beta.gguf", 0)];
    let listed = list_models(&files);
    let names: Vec<&str> = listed.iter().map(|m| m.name.as_str()).collect();
    assert_eq!(names, vec!["Alpha", "beta", "zeta"]);
    assert_eq!(listed[0].size, "1.00 MB");
    assert_eq!(listed[0].path, "D:\\models\\Alpha.GGUF");
    assert_eq!(listed[2].size, "1.50 KB");
}

#[test]
fn the_first_model_file_found_is_picked() {
    let files = vec![file("notes.txt", 10), file("b.gguf", 2048), file("a.gguf", 1)];
    let m = auto_find_model(&files).unwrap();
    assert_eq!(m.name, "b");
    assert_eq!(m.size, "2.00 KB");
    assert!(auto_find_model(&vec![file("x.bin", 1)]).is_none());
}

#[test]
fn imported_names_are_checked() {
    let plan = check_import_name("GGUF", "  My Model ").unwrap();
    assert_eq!(plan.safe_name, "My Model");
    assert_eq!(plan.file_name, "My Model.gguf");
    assert_eq!(check_import_name("bin", "x").err(), Some("只能导入 .gguf 文件".to_string()));
    assert_eq!(check_import_name("gguf", "   ").err(), Some("模型名称不能为空".to_string()));
    assert_eq!(check_import_name("gguf", "a/b").err(), Some("模型名称包含非法字符".to_string()));
    assert_eq!(check_import_name("gguf", "a|b").err(), Some("模型名称包含非法字符".to_string()));
}

#[test]
fn importing_needs_an_existing_gguf_file() {
    assert_eq!(import_model_file("C:/x.gguf", false, "x").err(), Some("源文件不存在: C:/x.gguf".to_string()));
    let plan = import_model_file("/tmp/dl/model.gguf", true, "mine").unwrap();
    assert_eq!(plan.file_name, "mine.gguf");
    assert_eq!(import_model_file("/tmp/dl/model", true, "mine").err(), Some("只能导入 .gguf 文件".to_string()));
    assert_eq!(import_conflict("mine.gguf"), "模型文件已存在: mine.gguf");
    assert_eq!(import_done("mine", 5 * 1024 * 1024 + 17), "mine 导入成功 (5MB)");
}

#[test]
fn deleting_needs_an_existing_gguf_file() {
    assert_eq!(check_delete_ext("GgUf", true), Ok(()));
    assert_eq!(check_delete_ext("txt", true), Err("只能删除 .gguf 文件".to_string()));
    assert_eq!(check_delete_ext("gguf", false), Err("文件不存在".to_string()));
    assert_eq!(delete_model_file("/m/a.gguf", true), Ok(()));
    assert_eq!(delete_model_file("/m/a.txt", true), Err("只能删除 .gguf 文件".to_string()));
    assert_eq!(delete_outcome("/m/a.gguf", Ok(())), Ok("已删除: /m/a.gguf".to_string()));
    assert_eq!(delete_outcome("/m/a.gguf", Err("busy".to_string())), Err("删除失败: busy".to_string()));
}

fn hit(name: Option<&str>, downloads: Option<i64>) -> CatalogHit {
    CatalogHit {
        name: name.map(|s| s.to_string()),
        path: Some(format!("org/{}", name.unwrap_or("none"))),
        downloads,
        updated_at: Some("2025-01-01".to_string()),
        chinese_name: None,
        description: Some("desc".to_string()),
        created_by: Some("someone".to_string()),
        org_full_name: None,
        first_task_name: Some("文本生成".to_string()),
    }
}

#[test]
fn search_keeps_matching_names_most_downloaded_first() {
    let hits = vec![
        hit(Some("Qwen3-8B-GGUF"), Some(10)),
        hit(Some("glm-4"), Some(1000)),
        hit(Some("qwen2.5-7b"), Some(50)),
        hit(None, Some(99999)),
        hit(Some("QWEN-tiny"), None),
        hit(Some("qwen-same"), Some(50)),
    ];
    let found = search_results("QWEN", &hits);
    let names: Vec<&str> = found.iter().map(|b| b.name.as_str()).collect();
    assert_eq!(names, vec!["qwen2.5-7b", "qwen-same", "Qwen3-8B-GGUF", "QWEN-tiny"]);
    assert_eq!(found[0].id, "org/qwen2.5-7b");
    assert_eq!(found[0].owner, "someone");
    assert_eq!(found[0].description, "desc");
    assert_eq!(found[0].task, "文本生成");
    assert_eq!(found[3].downloads, 0);
}

#[test]
fn repository_files_are_read_from_the_answer() {
    let entry = |k: &str, v: &str| JsonValue::Object(vec![(k.to_string(), JsonValue::Str(v.to_string()))]);
    let answer = JsonValue::Object(vec![(
        "Data".to_string(),
        JsonValue::Array(vec![entry("Path", "a.gguf"), entry("name", "b.gguf"), entry("Size", "1"), JsonValue::Null]),
    )]);
    assert_eq!(list_model_files(&answer), Ok(vec!["a.gguf".to_string(), "b.gguf".to_string()]));
    let bad = JsonValue::Object(vec![("Data".to_string(), JsonValue::Null)]);
    assert_eq!(list_model_files(&bad), Err("文件列表格式异常".to_string()));
}

#[test]
fn saved_tokens_are_trimmed() {
    assert_eq!(read_token("  tok \n"), "tok");
}

#[test]
fn windows_paths_have_their_extension_checked() {
    let plan = import_model_file("C:\\Users\\me\\Downloads\\qwen3-8b.GGUF", true, "qwen3").unwrap();
    assert_eq!(plan.file_name, "qwen3.gguf");
    assert_eq!(
        import_model_file("C:\\Users\\me\\Downloads\\notes.txt", true, "x").err(),
        Some("只能导入 .gguf 文件".to_string())
    );
    assert_eq!(delete_model_file("D:\\models\\a.gguf", true), Ok(()));
    assert_eq!(delete_model_file("D:\\models\\a.txt", true), Err("只能删除 .gguf 文件".to_string()));
}
