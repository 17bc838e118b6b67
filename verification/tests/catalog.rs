use soul_agent_launcher::catalog::get_default_official_models;
use soul_agent_launcher::models::official_rank;

#[test]
fn catalogue_has_seventy_six_models() {
    assert_eq!(get_default_official_models().len(), 76);
}

#[test]
fn catalogue_holds_the_models_the_readme_lists() {
    let all = get_default_official_models();
    let has = |name: &str| all.iter().any(|m| m.name == name);
    for name in [
        "QwQ-32B",
        "Qwen3-235B-A22B-Instruct",
        "Gemma-2-2B-Instruct",
        "Gemma-2-9B-Instruct",
        "Gemma-2-27B-Instruct",
        "Meta-Llama-3-70B-Instruct",
        "Llama-3.1-8B-Instruct",
        "Llama-3.1-70B-Instruct",
        "DeepSeek-Coder-V2-Lite-Instruct (GGUF)",
        "Meta-Llama-3-8B-Instruct",
        "Qwen2.5-72B-Instruct",
        "GLM-Z1-Rumination-32B-0414",
        "Yi-VL-34B",
    ] {
        assert!(has(name), "missing {}", name);
    }
    let g2 = all.iter().find(|m| m.name == "Gemma-2-9B-Instruct").unwrap();
    assert_eq!(g2.family, "Gemma 2");
    assert_eq!(g2.group.as_deref(), Some("Google"));
    assert_eq!(g2.model_id, "bartowski/gemma-2-9b-it-GGUF:*");
}

#[test]
fn first_entry_is_a_deepseek_distill_in_gguf() {
    let all = get_default_official_models();
    let m = &all[0];
    assert_eq!(m.model_id, "unsloth/DeepSeek-R1-Distill-Qwen-1.5B-GGUF:*");
    assert_eq!(m.name, "DeepSeek-R1-Distill-Qwen-1.5B");
    assert_eq!(m.group.as_deref(), Some("DeepSeek"));
    assert_eq!(m.family, "DeepSeek R1 Distill");
    assert_eq!(m.prefix.as_deref(), Some("unsloth/DeepSeek-R1-Distill-Qwen-1.5B-GGUF:"));
    assert_eq!(m.file_glob.as_deref(), Some("*q4_k_m*.gguf"));
    assert_eq!(
        m.quant.clone().unwrap(),
        vec!["q2_K", "q3_K_M", "q4_K_M", "q5_K_M", "q6_K", "q8_0"].into_iter().map(String::from).collect::<Vec<_>>()
    );
    assert_eq!(m.default_quant.as_deref(), Some("q4_K_M"));
    assert_eq!(m.size.as_deref(), Some("1.5B"));
    assert_eq!(m.desc.as_deref(), Some("轻量代码补全与基础问答"));
}

#[test]
fn fp16_coder_has_no_gguf_fields() {
    let all = get_default_official_models();
    let m = all.iter().find(|m| m.model_id == "deepseek-ai/deepseek-coder-1.3b-instruct").unwrap();
    assert!(m.prefix.is_none() && m.file_glob.is_none() && m.quant.is_none() && m.default_quant.is_none());
    let g = all.iter().find(|m| m.model_id == "TheBloke/deepseek-coder-1.3b-instruct-GGUF:*").unwrap();
    assert_eq!(g.prefix.as_deref(), Some("deepseek-coder-1.3b-instruct."));
    assert_eq!(g.file_glob.as_deref(), Some("*Q4_K_M*.gguf"));
}

#[test]
fn glm_0414_releases_get_a_note() {
    let all = get_default_official_models();
    let z1 = all.iter().find(|m| m.name == "GLM-Z1-9B-0414").unwrap();
    assert_eq!(z1.desc.as_deref(), Some("轻量推理，数学/代码能力强。2025年4月14日统一训练版本，性能和稳定性更好"));
    let old = all.iter().find(|m| m.name == "ChatGLM3-6B").unwrap();
    assert_eq!(old.desc.as_deref(), Some("消费级显卡可运行，生态成熟"));
}

#[test]
fn llama2_gguf_and_fp16_differ() {
    let all = get_default_official_models();
    let fp16 = all.iter().find(|m| m.name == "Llama-2-7b-chat-ms (FP16)").unwrap();
    assert_eq!(fp16.model_id, "modelscope/Llama-2-7b-chat-ms");
    assert!(fp16.quant.is_none());
    let gguf = all.iter().find(|m| m.name == "Llama-2-7b-chat (GGUF)").unwrap();
    assert_eq!(gguf.model_id, "Xorbits/Llama-2-7b-Chat-GGUF:*");
    assert_eq!(gguf.default_quant.as_deref(), Some("q4_K_M"));
}

#[test]
fn small_qwen3_models_have_only_q8() {
    let all = get_default_official_models();
    let small = all.iter().find(|m| m.name == "Qwen3-0.6B-Instruct").unwrap();
    assert_eq!(small.file_glob.as_deref(), Some("*.gguf"));
    assert!(small.quant.is_none() && small.default_quant.is_none());
    let big = all.iter().find(|m| m.name == "Qwen3-8B-Instruct").unwrap();
    assert_eq!(big.file_glob.as_deref(), Some("*Q4_K_M*.gguf"));
    assert_eq!(big.quant.clone().unwrap().len(), 5);
    assert_eq!(big.default_quant.as_deref(), Some("Q4_K_M"));
}

#[test]
fn every_entry_is_grouped_and_defaults_within_its_quantisations() {
    let groups = ["Qwen系列", "DeepSeek", "GLM", "Yi系列", "Google", "Llama"];
    for m in get_default_official_models() {
        assert!(groups.contains(&m.group.as_deref().unwrap()));
        if let Some(q) = &m.quant {
            assert!(q.contains(m.default_quant.as_ref().unwrap()));
        }
    }
}

#[test]
fn official_rank_orders_groups_families_and_formats() {
    let all = get_default_official_models();
    let qwen3 = all.iter().find(|m| m.name == "Qwen3-8B-Instruct").unwrap();
    assert_eq!(official_rank(qwen3), (0, 0, 0));
    let coder = all.iter().find(|m| m.name == "DeepSeek-Coder-1.3B-Base").unwrap();
    assert_eq!(official_rank(coder), (1, 3, 1));
    let llama3 = all.iter().find(|m| m.name == "Meta-Llama-3-8B-Instruct").unwrap();
    assert_eq!(official_rank(llama3), (5, usize::MAX, 0));
}
