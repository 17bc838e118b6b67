//! The built-in catalogue of recommended models: each family's rows and the
//! rule by which a row becomes a catalogue entry.
use vstd::prelude::*;
use crate::text::{contains, push_str, str_contains};

verus! {

/// DeepSeek-R1 distills (GGUF by unsloth): repository, name, size, description.
pub const DEEPSEEK_R1_ROWS: [(&'static str, &'static str, &'static str, &'static str); 5] = [
    ("unsloth/DeepSeek-R1-Distill-Qwen-1.5B-GGUF", "DeepSeek-R1-Distill-Qwen-1.5B", "1.5B", "轻量代码补全与基础问答"),
    ("unsloth/DeepSeek-R1-Distill-Qwen-7B-GGUF", "DeepSeek-R1-Distill-Qwen-7B", "7B", "日常对话与工具调用助手"),
    ("unsloth/DeepSeek-R1-Distill-Llama-8B-GGUF", "DeepSeek-R1-Distill-Llama-8B", "8B", "复杂逻辑推理与代码分析"),
    ("unsloth/DeepSeek-R1-Distill-Qwen-14B-GGUF", "DeepSeek-R1-Distill-Qwen-14B", "14B", "长文本理解与多步规划"),
    ("unsloth/DeepSeek-R1-Distill-Qwen-32B-GGUF", "DeepSeek-R1-Distill-Qwen-32B", "32B", "专业级数学证明与深度思考"),
];

/// DeepSeek Coder in FP16: repository, name, size, family, description.
pub const DEEPSEEK_CODER_ROWS: [(&'static str, &'static str, &'static str, &'static str, &'static str); 8] = [
    ("deepseek-ai/deepseek-coder-1.3b-instruct", "DeepSeek-Coder-1.3B-Instruct", "1.3B", "DeepSeek Coder", "代码 Instruct 版，FP16 原始格式"),
    ("deepseek-ai/deepseek-coder-1.3b-base", "DeepSeek-Coder-1.3B-Base", "1.3B", "DeepSeek Coder", "代码 Base 版，FP16 原始格式"),
    ("deepseek-ai/deepseek-coder-5.7bmqa-instruct", "DeepSeek-Coder-5.7BMQA-Instruct", "5.7B", "DeepSeek Coder", "代码 Instruct 版，FP16 原始格式"),
    ("deepseek-ai/deepseek-coder-5.7bmqa-base", "DeepSeek-Coder-5.7BMQA-Base", "5.7B", "DeepSeek Coder", "代码 Base 版，FP16 原始格式"),
    ("deepseek-ai/deepseek-coder-6.7b-instruct", "DeepSeek-Coder-6.7B-Instruct", "6.7B", "DeepSeek Coder", "代码 Instruct 版，FP16 原始格式"),
    ("deepseek-ai/deepseek-coder-6.7b-base", "DeepSeek-Coder-6.7B-Base", "6.7B", "DeepSeek Coder", "代码 Base 版，FP16 原始格式"),
    ("deepseek-ai/deepseek-coder-33b-instruct", "DeepSeek-Coder-33B-Instruct", "33B", "DeepSeek Coder", "代码 Instruct 版，FP16 原始格式"),
    ("deepseek-ai/deepseek-coder-33b-base", "DeepSeek-Coder-33B-Base", "33B", "DeepSeek Coder", "代码 Base 版，FP16 原始格式"),
];

/// DeepSeek Coder in GGUF (by TheBloke): repository, name, size, family, file prefix, description.
pub const DEEPSEEK_CODER_GGUF_ROWS: [(&'static str, &'static str, &'static str, &'static str, &'static str, &'static str); 5] = [
    ("TheBloke/deepseek-coder-1.3b-instruct-GGUF", "DeepSeek-Coder-1.3B-Instruct (GGUF)", "1.3B", "DeepSeek Coder", "deepseek-coder-1.3b-instruct.", "GGUF 量化版，推荐 Q4_K_M"),
    ("TheBloke/deepseek-coder-1.3b-base-GGUF", "DeepSeek-Coder-1.3B-Base (GGUF)", "1.3B", "DeepSeek Coder", "deepseek-coder-1.3b-base.", "GGUF 量化版，推荐 Q4_K_M"),
    ("TheBloke/deepseek-coder-6.7b-instruct-GGUF", "DeepSeek-Coder-6.7B-Instruct (GGUF)", "6.7B", "DeepSeek Coder", "deepseek-coder-6.7b-instruct.", "GGUF 量化版，推荐 Q4_K_M"),
    ("TheBloke/deepseek-coder-6.7b-base-GGUF", "DeepSeek-Coder-6.7B-Base (GGUF)", "6.7B", "DeepSeek Coder", "deepseek-coder-6.7b-base.", "GGUF 量化版，推荐 Q4_K_M"),
    ("bartowski/DeepSeek-Coder-V2-Lite-Instruct-GGUF", "DeepSeek-Coder-V2-Lite-Instruct (GGUF)", "16B", "DeepSeek Coder", "DeepSeek-Coder-V2-Lite-Instruct-", "MoE 代码模型，激活 2.4B，推荐 Q4_K_M"),
];

/// Gemma 3 and Gemma 2 (GGUF): repository, name, size, family, description.
pub const GEMMA_ROWS: [(&'static str, &'static str, &'static str, &'static str, &'static str); 8] = [
    ("unsloth/gemma-3-270m-it-GGUF", "Gemma 3 270M", "0.27B", "Gemma 3", "超轻量纯文本，543MB"),
    ("unsloth/gemma-3-1b-it-GGUF", "Gemma 3 1B", "1B", "Gemma 3", "轻量纯文本，2.04GB"),
    ("unsloth/gemma-3-4b-it-GGUF", "Gemma 3 4B", "4B", "Gemma 3", "轻量纯文本，8.64GB"),
    ("unsloth/gemma-3-12b-it-GGUF", "Gemma 3 12B", "12B", "Gemma 3", "多模态（文本+视觉），24.41GB"),
    ("unsloth/gemma-3-27b-it-GGUF", "Gemma 3 27B", "27B", "Gemma 3", "多模态（文本+视觉），54.90GB"),
    ("bartowski/gemma-2-2b-it-GGUF", "Gemma-2-2B-Instruct", "2B", "Gemma 2", "轻量对话，端侧友好"),
    ("bartowski/gemma-2-9b-it-GGUF", "Gemma-2-9B-Instruct", "9B", "Gemma 2", "通用对话，性能均衡"),
    ("bartowski/gemma-2-27b-it-GGUF", "Gemma-2-27B-Instruct", "27B", "Gemma 2", "大规模对话，质量更高"),
];

/// Llama 3, 3.1 and 3.2 (GGUF): repository, name, size, family, description.
pub const LLAMA_ROWS: [(&'static str, &'static str, &'static str, &'static str, &'static str); 6] = [
    ("unsloth/Llama-3.2-1B-Instruct-GGUF", "Llama-3.2-1B-Instruct", "1B", "Llama 3.2", "轻量，适合端侧部署"),
    ("unsloth/Llama-3.2-3B-Instruct-GGUF", "Llama-3.2-3B-Instruct", "3B", "Llama 3.2", "轻量高性价比"),
    ("LLM-Research/Meta-Llama-3-8B-Instruct-GGUF", "Meta-Llama-3-8B-Instruct", "8B", "Llama 3", "通用推理，性能强劲"),
    ("LLM-Research/Meta-Llama-3-70B-Instruct-GGUF", "Meta-Llama-3-70B-Instruct", "70B", "Llama 3", "超大规模，追求最高质量"),
    ("bartowski/Meta-Llama-3.1-8B-Instruct-GGUF", "Llama-3.1-8B-Instruct", "8B", "Llama 3.1", "128K 长上下文，通用推理"),
    ("bartowski/Meta-Llama-3.1-70B-Instruct-GGUF", "Llama-3.1-70B-Instruct", "70B", "Llama 3.1", "128K 长上下文，超大规模"),
];

/// Llama 2, in FP16 or GGUF: repository, name, size, family, whether it is GGUF, description.
pub const LLAMA2_ROWS: [(&'static str, &'static str, &'static str, &'static str, bool, &'static str); 7] = [
    ("modelscope/Llama-2-7b-chat-ms", "Llama-2-7b-chat-ms (FP16)", "7B", "Llama 2", false, "原始 FP16 格式，需自行转 GGUF"),
    ("modelscope/Llama-2-13b-ms", "Llama-2-13b-ms (FP16)", "13B", "Llama 2", false, "原始 FP16 格式，需自行转 GGUF"),
    ("AI-ModelScope/chinese-alpaca-2-7b", "Chinese-Alpaca-2-7B (FP16)", "7B", "Llama 2", false, "中文优化版，原始 FP16 格式"),
    ("AI-ModelScope/chinese-alpaca-2-13b", "Chinese-Alpaca-2-13B (FP16)", "13B", "Llama 2", false, "中文优化版，原始 FP16 格式"),
    ("Xorbits/Llama-2-7b-Chat-GGUF", "Llama-2-7b-chat (GGUF)", "7B", "Llama 2", true, "GGUF 量化版，支持多量化选择"),
    ("Xorbits/Llama-2-13b-Chat-GGUF", "Llama-2-13b-chat (GGUF)", "13B", "Llama 2", true, "GGUF 量化版，支持多量化选择"),
    ("shaowenchen/chinese-alpaca-2-7b-gguf", "Chinese-Alpaca-2-7B (GGUF)", "7B", "Llama 2", true, "中文优化 GGUF 版，支持多量化选择"),
];

/// Qwen3 (GGUF): repository, name, size, description, whether only a Q8_0 file exists.
pub const QWEN3_ROWS: [(&'static str, &'static str, &'static str, &'static str, bool); 8] = [
    ("qwen/Qwen3-0.6B-GGUF", "Qwen3-0.6B-Instruct", "0.6B", "超轻量，简单推理无压力", true),
    ("qwen/Qwen3-1.7B-GGUF", "Qwen3-1.7B-Instruct", "1.7B", "低配设备友好，够用省资源", true),
    ("qwen/Qwen3-4B-GGUF", "Qwen3-4B-Instruct", "4B", "轻量高性价比，平衡之选", false),
    ("qwen/Qwen3-8B-GGUF", "Qwen3-8B-Instruct", "8B", "通用推理首选，推荐 Q4_K_M", false),
    ("qwen/Qwen3-14B-GGUF", "Qwen3-14B-Instruct", "14B", "中大规模，复杂推理需合并分卷", false),
    ("qwen/Qwen3-32B-GGUF", "Qwen3-32B-Instruct", "32B", "大规模深度推理，约需 20GB 显存", false),
    ("qwen/Qwen3-30B-A3B-GGUF", "Qwen3-30B-A3B-Instruct", "30B-A3B", "MoE 架构，激活 3B，边缘设备神器", false),
    ("qwen/Qwen3-235B-A22B-GGUF", "Qwen3-235B-A22B-Instruct", "235B-A22B", "MoE 旗舰，激活 22B，需合并分卷", false),
];

/// Qwen2.5 (GGUF): repository, name, size, description.
pub const QWEN25_ROWS: [(&'static str, &'static str, &'static str, &'static str); 8] = [
    ("Qwen/Qwen2.5-0.5B-Instruct-GGUF", "Qwen2.5-0.5B-Instruct", "0.5B", "超轻量入门，极致小巧"),
    ("Qwen/Qwen2.5-1.5B-Instruct-GGUF", "Qwen2.5-1.5B-Instruct", "1.5B", "轻量简单推理，起步友好"),
    ("Qwen/Qwen2.5-3B-Instruct-GGUF", "Qwen2.5-3B-Instruct", "3B", "轻量高性价比，够用不贵"),
    ("Qwen/Qwen2.5-7B-Instruct-GGUF", "Qwen2.5-7B-Instruct", "7B", "通用推理主流，稳定可靠"),
    ("Qwen/Qwen2.5-14B-Instruct-GGUF", "Qwen2.5-14B-Instruct", "14B", "中大规模，复杂任务合适"),
    ("Qwen/Qwen2.5-32B-Instruct-GGUF", "Qwen2.5-32B-Instruct", "32B", "大规模深度推理，性能强劲"),
    ("Qwen/Qwen2.5-72B-Instruct-GGUF", "Qwen2.5-72B-Instruct", "72B", "超大规模，追求最高质量"),
    ("Qwen/QwQ-32B-GGUF", "QwQ-32B", "32B", "基于 Qwen2.5 的深度推理模型，数学与代码能力突出"),
];

/// GLM (Zhipu): repository, name, size, family, description.
pub const GLM_ROWS: [(&'static str, &'static str, &'static str, &'static str, &'static str); 11] = [
    ("ZhipuAI/ChatGLM2-6B", "ChatGLM2-6B", "6B", "ChatGLM2", "早期版本，兼容旧项目"),
    ("ZhipuAI/ChatGLM3-6B", "ChatGLM3-6B", "6B", "ChatGLM3", "消费级显卡可运行，生态成熟"),
    ("ZhipuAI/GLM-4-9B", "GLM-4-9B", "9B", "GLM-4", "基座模型，适合微调"),
    ("ZhipuAI/GLM-4-9B-Chat", "GLM-4-9B-Chat", "9B", "GLM-4", "通用对话、工具调用、代码生成"),
    ("ZhipuAI/GLM-4-9B-Chat-1M", "GLM-4-9B-Chat-1M", "9B", "GLM-4", "超长上下文 (1M tokens)"),
    ("ZhipuAI/GLM-4V-9B", "GLM-4V-9B-Chat", "9B", "GLM-4", "支持图像理解、OCR、图表分析"),
    ("ZhipuAI/GLM-Z1-9B-0414", "GLM-Z1-9B-0414", "9B", "GLM-Z1", "轻量推理，数学/代码能力强"),
    ("ZhipuAI/GLM-4-32B-0414", "GLM-4-32B-0414", "32B", "GLM-4", "性能强劲，可比肩更大参数模型"),
    ("ZhipuAI/GLM-4-32B-Base-0414", "GLM-4-32B-Base-0414", "32B", "GLM-4", "基座模型，适合微调"),
    ("ZhipuAI/GLM-Z1-32B-0414", "GLM-Z1-32B-0414", "32B", "GLM-Z1", "深度思考，数学/代码/逻辑能力突出"),
    ("ZhipuAI/GLM-Z1-Rumination-32B-0414", "GLM-Z1-Rumination-32B-0414", "32B", "GLM-Z1", "支持深度反思、多步研究任务"),
];

/// Yi (01.AI): repository, name, size, family, description.
pub const YI_ROWS: [(&'static str, &'static str, &'static str, &'static str, &'static str); 10] = [
    ("01ai/Yi-Coder-1.5B", "Yi-Coder-1.5B", "1.5B", "Yi-Coder", "轻量编程，支持52种编程语言，适合代码理解任务"),
    ("01ai/Yi-1.5-6B", "Yi-1.5-6B-Base", "6B", "Yi-1.5", "轻量基座模型，可在其上进行微调以适应特定任务"),
    ("01ai/Yi-1.5-6B-Chat", "Yi-1.5-6B-Chat", "6B", "Yi-1.5", "轻量对话模型，适合研究或个人用途，支持4K/16K/32K上下文"),
    ("01ai/Yi-VL-6B", "Yi-VL-6B", "6B", "Yi-VL", "多模态模型，支持图文对话和OCR"),
    ("01ai/Yi-1.5-9B", "Yi-1.5-9B-Base", "9B", "Yi-1.5", "中等规模基座模型，提供更优的微调起点"),
    ("01ai/Yi-1.5-9B-Chat", "Yi-1.5-9B-Chat", "9B", "Yi-1.5", "理科状元，代码与数学能力最强，性价比高"),
    ("01ai/Yi-Coder-9B", "Yi-Coder-9B", "9B", "Yi-Coder", "专业编程，支持项目级代码，128K超长上下文"),
    ("01ai/Yi-1.5-34B", "Yi-1.5-34B-Base", "34B", "Yi-1.5", "旗舰基座模型，能力涌现，适合复杂场景部署"),
    ("01ai/Yi-1.5-34B-Chat", "Yi-1.5-34B-Chat", "34B", "Yi-1.5", "性能旗舰，支持200K超长上下文"),
    ("01ai/Yi-VL-34B", "Yi-VL-34B", "34B", "Yi-VL", "多模态旗舰，图像理解能力更强"),
];

/// A catalogue entry as plain text values.
#[verifier::ext_equal]
pub struct OfficialModelView {
    pub model_id: Seq<char>,
    pub name: Seq<char>,
    pub group: Option<Seq<char>>,
    pub family: Seq<char>,
    pub prefix: Option<Seq<char>>,
    pub file_glob: Option<Seq<char>>,
    pub quant: Option<Seq<Seq<char>>>,
    pub default_quant: Option<Seq<char>>,
    pub size: Option<Seq<char>>,
    pub desc: Option<Seq<char>>,
}

/// A recommended model.
pub struct OfficialModel {
    pub model_id: String,
    pub name: String,
    pub group: Option<String>,
    pub family: String,
    pub prefix: Option<String>,
    pub file_glob: Option<String>,
    pub quant: Option<Vec<String>>,
    pub default_quant: Option<String>,
    pub size: Option<String>,
    pub desc: Option<String>,
}

/// The text of an optional string.
pub open spec fn opt_text(s: Option<String>) -> Option<Seq<char>> {
    match s {
        Some(t) => Some(t@),
        None => None,
    }
}

/// The texts of a list of strings.
pub open spec fn texts(v: Seq<String>) -> Seq<Seq<char>> {
    v.map_values(|s: String| s@)
}

/// The views of a list of entries.
pub open spec fn entry_views(v: Seq<OfficialModel>) -> Seq<OfficialModelView> {
    v.map_values(|m: OfficialModel| m@)
}

impl View for OfficialModel {
    type V = OfficialModelView;

    open spec fn view(&self) -> OfficialModelView {
        OfficialModelView {
            model_id: self.model_id@,
            name: self.name@,
            group: opt_text(self.group),
            family: self.family@,
            prefix: opt_text(self.prefix),
            file_glob: opt_text(self.file_glob),
            quant: match self.quant {
                Some(q) => Some(texts(q@)),
                None => None,
            },
            default_quant: opt_text(self.default_quant),
            size: opt_text(self.size),
            desc: opt_text(self.desc),
        }
    }
}

/// The quantisations offered for most GGUF repositories.
pub open spec fn lower_quants() -> Seq<Seq<char>> {
    seq!["q2_K"@, "q3_K_M"@, "q4_K_M"@, "q5_K_M"@, "q6_K"@, "q8_0"@]
}

/// The quantisations offered for Qwen3 repositories, whose files are named in upper case.
pub open spec fn upper_quants() -> Seq<Seq<char>> {
    seq!["Q4_K_M"@, "Q5_0"@, "Q5_K_M"@, "Q6_K"@, "Q8_0"@]
}

fn lower_quant_list() -> (r: Vec<String>)
    ensures
        texts(r@) == lower_quants(),
{
    let v = vec![
        text_of("q2_K"),
        text_of("q3_K_M"),
        text_of("q4_K_M"),
        text_of("q5_K_M"),
        text_of("q6_K"),
        text_of("q8_0"),
    ];
    assert(texts(v@) =~= lower_quants());
    v
}

fn upper_quant_list() -> (r: Vec<String>)
    ensures
        texts(r@) == upper_quants(),
{
    let v = vec![text_of("Q4_K_M"), text_of("Q5_0"), text_of("Q5_K_M"), text_of("Q6_K"), text_of("Q8_0")];
    assert(texts(v@) =~= upper_quants());
    v
}

fn text_of(s: &str) -> (r: String)
    ensures
        r@ == s@,
{
    String::from_str(s)
}

fn join2(a: &str, b: &str) -> (r: String)
    ensures
        r@ == a@ + b@,
{
    let mut s = String::from_str(a);
    push_str(&mut s, b);
    s
}

/// The description of a GLM model: a `0414` release gets a note on that
/// training release after its own description.
pub open spec fn glm_desc(name: Seq<char>, desc: Seq<char>) -> Seq<char> {
    if contains(name, "0414"@) {
        desc + "。"@ + "2025年4月14日统一训练版本，性能和稳定性更好"@
    } else {
        desc
    }
}

fn glm_description(name: &str, desc: &str) -> (r: String)
    ensures
        r@ == glm_desc(name@, desc@),
{
    if str_contains(name, "0414") {
        let mut d = String::from_str(desc);
        push_str(&mut d, "。");
        push_str(&mut d, "2025年4月14日统一训练版本，性能和稳定性更好");
        d
    } else {
        String::from_str(desc)
    }
}

/// The catalogue entry of a DeepSeek-R1 distill.
pub open spec fn r1_entry(row: (&str, &str, &str, &str)) -> OfficialModelView {
    OfficialModelView {
        model_id: row.0@ + ":*"@,
        name: row.1@,
        group: Some("DeepSeek"@),
        family: "DeepSeek R1 Distill"@,
        prefix: Some(row.0@ + ":"@),
        file_glob: Some("*q4_k_m*.gguf"@),
        quant: Some(lower_quants()),
        default_quant: Some("q4_K_M"@),
        size: Some(row.2@),
        desc: Some(row.3@),
    }
}

/// The entries of DeepSeek-R1 distills, one for each row.
pub open spec fn r1_section(rows: Seq<(&str, &str, &str, &str)>) -> Seq<OfficialModelView> {
    rows.map_values(|row: (&str, &str, &str, &str)| r1_entry(row))
}

fn r1_model(row: (&str, &str, &str, &str)) -> (r: OfficialModel)
    ensures
        r@ == r1_entry(row),
{
    let m = OfficialModel {
        model_id: join2(row.0, ":*"),
        name: text_of(row.1),
        group: Some(text_of("DeepSeek")),
        family: text_of("DeepSeek R1 Distill"),
        prefix: Some(join2(row.0, ":")),
        file_glob: Some(text_of("*q4_k_m*.gguf")),
        quant: Some(lower_quant_list()),
        default_quant: Some(text_of("q4_K_M")),
        size: Some(text_of(row.2)),
        desc: Some(text_of(row.3)),
    };
    assert(m@ =~= r1_entry(row));
    m
}

fn push_r1_entries(out: &mut Vec<OfficialModel>)
    ensures
        entry_views(final(out)@) == entry_views(old(out)@) + r1_section(DEEPSEEK_R1_ROWS@),
{
    let ghost start = out@;
    let mut i: usize = 0;
    assert(entry_views(start) + r1_section(DEEPSEEK_R1_ROWS@.take(0)) =~= entry_views(start));
    while i < DEEPSEEK_R1_ROWS.len()
        invariant
            i <= DEEPSEEK_R1_ROWS@.len(),
            entry_views(out@) == entry_views(start) + r1_section(DEEPSEEK_R1_ROWS@.take(i as int)),
        decreases DEEPSEEK_R1_ROWS@.len() - i,
    {
        let m = r1_model(DEEPSEEK_R1_ROWS[i]);
        let ghost before = out@;
        out.push(m);
        assert(entry_views(out@) =~= entry_views(before).push(out@.last()@));
        assert(r1_section(DEEPSEEK_R1_ROWS@.take(i + 1)) =~= r1_section(DEEPSEEK_R1_ROWS@.take(i as int)).push(
            r1_entry(DEEPSEEK_R1_ROWS@[i as int]),
        ));
        assert(entry_views(out@) =~= entry_views(start) + r1_section(DEEPSEEK_R1_ROWS@.take(i + 1)));
        i += 1;
    }
    assert(DEEPSEEK_R1_ROWS@.take(DEEPSEEK_R1_ROWS@.len() as int) =~= DEEPSEEK_R1_ROWS@);
}

/// The catalogue entry of a DeepSeek Coder model in FP16.
pub open spec fn coder_entry(row: (&str, &str, &str, &str, &str)) -> OfficialModelView {
    OfficialModelView {
        model_id: row.0@,
        name: row.1@,
        group: Some("DeepSeek"@),
        family: row.3@,
        prefix: None,
        file_glob: None,
        quant: None,
        default_quant: None,
        size: Some(row.2@),
        desc: Some(row.4@),
    }
}

/// The entries of DeepSeek Coder models in FP16, one for each row.
pub open spec fn coder_section(rows: Seq<(&str, &str, &str, &str, &str)>) -> Seq<OfficialModelView> {
    rows.map_values(|row: (&str, &str, &str, &str, &str)| coder_entry(row))
}

fn coder_model(row: (&str, &str, &str, &str, &str)) -> (r: OfficialModel)
    ensures
        r@ == coder_entry(row),
{
    let m = OfficialModel {
        model_id: text_of(row.0),
        name: text_of(row.1),
        group: Some(text_of("DeepSeek")),
        family: text_of(row.3),
        prefix: None,
        file_glob: None,
        quant: None,
        default_quant: None,
        size: Some(text_of(row.2)),
        desc: Some(text_of(row.4)),
    };
    assert(m@ =~= coder_entry(row));
    m
}

fn push_coder_entries(out: &mut Vec<OfficialModel>)
    ensures
        entry_views(final(out)@) == entry_views(old(out)@) + coder_section(DEEPSEEK_CODER_ROWS@),
{
    let ghost start = out@;
    let mut i: usize = 0;
    assert(entry_views(start) + coder_section(DEEPSEEK_CODER_ROWS@.take(0)) =~= entry_views(start));
    while i < DEEPSEEK_CODER_ROWS.len()
        invariant
            i <= DEEPSEEK_CODER_ROWS@.len(),
            entry_views(out@) == entry_views(start) + coder_section(DEEPSEEK_CODER_ROWS@.take(i as int)),
        decreases DEEPSEEK_CODER_ROWS@.len() - i,
    {
        let m = coder_model(DEEPSEEK_CODER_ROWS[i]);
        let ghost before = out@;
        out.push(m);
        assert(entry_views(out@) =~= entry_views(before).push(out@.last()@));
        assert(coder_section(DEEPSEEK_CODER_ROWS@.take(i + 1)) =~= coder_section(DEEPSEEK_CODER_ROWS@.take(i as int)).push(
            coder_entry(DEEPSEEK_CODER_ROWS@[i as int]),
        ));
        assert(entry_views(out@) =~= entry_views(start) + coder_section(DEEPSEEK_CODER_ROWS@.take(i + 1)));
        i += 1;
    }
    assert(DEEPSEEK_CODER_ROWS@.take(DEEPSEEK_CODER_ROWS@.len() as int) =~= DEEPSEEK_CODER_ROWS@);
}

/// The catalogue entry of a DeepSeek Coder model in GGUF.
pub open spec fn coder_gguf_entry(row: (&str, &str, &str, &str, &str, &str)) -> OfficialModelView {
    OfficialModelView {
        model_id: row.0@ + ":*"@,
        name: row.1@,
        group: Some("DeepSeek"@),
        family: row.3@,
        prefix: Some(row.4@),
        file_glob: Some("*Q4_K_M*.gguf"@),
        quant: Some(lower_quants()),
        default_quant: Some("q4_K_M"@),
        size: Some(row.2@),
        desc: Some(row.5@),
    }
}

/// The entries of DeepSeek Coder models in GGUF, one for each row.
pub open spec fn coder_gguf_section(rows: Seq<(&str, &str, &str, &str, &str, &str)>) -> Seq<OfficialModelView> {
    rows.map_values(|row: (&str, &str, &str, &str, &str, &str)| coder_gguf_entry(row))
}

fn coder_gguf_model(row: (&str, &str, &str, &str, &str, &str)) -> (r: OfficialModel)
    ensures
        r@ == coder_gguf_entry(row),
{
    let m = OfficialModel {
        model_id: join2(row.0, ":*"),
        name: text_of(row.1),
        group: Some(text_of("DeepSeek")),
        family: text_of(row.3),
        prefix: Some(text_of(row.4)),
        file_glob: Some(text_of("*Q4_K_M*.gguf")),
        quant: Some(lower_quant_list()),
        default_quant: Some(text_of("q4_K_M")),
        size: Some(text_of(row.2)),
        desc: Some(text_of(row.5)),
    };
    assert(m@ =~= coder_gguf_entry(row));
    m
}

fn push_coder_gguf_entries(out: &mut Vec<OfficialModel>)
    ensures
        entry_views(final(out)@) == entry_views(old(out)@) + coder_gguf_section(DEEPSEEK_CODER_GGUF_ROWS@),
{
    let ghost start = out@;
    let mut i: usize = 0;
    assert(entry_views(start) + coder_gguf_section(DEEPSEEK_CODER_GGUF_ROWS@.take(0)) =~= entry_views(start));
    while i < DEEPSEEK_CODER_GGUF_ROWS.len()
        invariant
            i <= DEEPSEEK_CODER_GGUF_ROWS@.len(),
            entry_views(out@) == entry_views(start) + coder_gguf_section(DEEPSEEK_CODER_GGUF_ROWS@.take(i as int)),
        decreases DEEPSEEK_CODER_GGUF_ROWS@.len() - i,
    {
        let m = coder_gguf_model(DEEPSEEK_CODER_GGUF_ROWS[i]);
        let ghost before = out@;
        out.push(m);
        assert(entry_views(out@) =~= entry_views(before).push(out@.last()@));
        assert(coder_gguf_section(DEEPSEEK_CODER_GGUF_ROWS@.take(i + 1)) =~= coder_gguf_section(DEEPSEEK_CODER_GGUF_ROWS@.take(i as int)).push(
            coder_gguf_entry(DEEPSEEK_CODER_GGUF_ROWS@[i as int]),
        ));
        assert(entry_views(out@) =~= entry_views(start) + coder_gguf_section(DEEPSEEK_CODER_GGUF_ROWS@.take(i + 1)));
        i += 1;
    }
    assert(DEEPSEEK_CODER_GGUF_ROWS@.take(DEEPSEEK_CODER_GGUF_ROWS@.len() as int) =~= DEEPSEEK_CODER_GGUF_ROWS@);
}

/// The catalogue entry of a Gemma model.
pub open spec fn gemma_entry(row: (&str, &str, &str, &str, &str)) -> OfficialModelView {
    OfficialModelView {
        model_id: row.0@ + ":*"@,
        name: row.1@,
        group: Some("Google"@),
        family: row.3@,
        prefix: Some(row.0@ + ":"@),
        file_glob: Some("*q4_k_m*.gguf"@),
        quant: Some(lower_quants()),
        default_quant: Some("q4_K_M"@),
        size: Some(row.2@),
        desc: Some(row.4@),
    }
}

/// The entries of Gemma models, one for each row.
pub open spec fn gemma_section(rows: Seq<(&str, &str, &str, &str, &str)>) -> Seq<OfficialModelView> {
    rows.map_values(|row: (&str, &str, &str, &str, &str)| gemma_entry(row))
}

fn gemma_model(row: (&str, &str, &str, &str, &str)) -> (r: OfficialModel)
    ensures
        r@ == gemma_entry(row),
{
    let m = OfficialModel {
        model_id: join2(row.0, ":*"),
        name: text_of(row.1),
        group: Some(text_of("Google")),
        family: text_of(row.3),
        prefix: Some(join2(row.0, ":")),
        file_glob: Some(text_of("*q4_k_m*.gguf")),
        quant: Some(lower_quant_list()),
        default_quant: Some(text_of("q4_K_M")),
        size: Some(text_of(row.2)),
        desc: Some(text_of(row.4)),
    };
    assert(m@ =~= gemma_entry(row));
    m
}

fn push_gemma_entries(out: &mut Vec<OfficialModel>)
    ensures
        entry_views(final(out)@) == entry_views(old(out)@) + gemma_section(GEMMA_ROWS@),
{
    let ghost start = out@;
    let mut i: usize = 0;
    assert(entry_views(start) + gemma_section(GEMMA_ROWS@.take(0)) =~= entry_views(start));
    while i < GEMMA_ROWS.len()
        invariant
            i <= GEMMA_ROWS@.len(),
            entry_views(out@) == entry_views(start) + gemma_section(GEMMA_ROWS@.take(i as int)),
        decreases GEMMA_ROWS@.len() - i,
    {
        let m = gemma_model(GEMMA_ROWS[i]);
        let ghost before = out@;
        out.push(m);
        assert(entry_views(out@) =~= entry_views(before).push(out@.last()@));
        assert(gemma_section(GEMMA_ROWS@.take(i + 1)) =~= gemma_section(GEMMA_ROWS@.take(i as int)).push(
            gemma_entry(GEMMA_ROWS@[i as int]),
        ));
        assert(entry_views(out@) =~= entry_views(start) + gemma_section(GEMMA_ROWS@.take(i + 1)));
        i += 1;
    }
    assert(GEMMA_ROWS@.take(GEMMA_ROWS@.len() as int) =~= GEMMA_ROWS@);
}

/// The catalogue entry of a Llama 3 model.
pub open spec fn llama_entry(row: (&str, &str, &str, &str, &str)) -> OfficialModelView {
    OfficialModelView {
        model_id: row.0@ + ":*"@,
        name: row.1@,
        group: Some("Llama"@),
        family: row.3@,
        prefix: Some(row.0@ + ":"@),
        file_glob: Some("*q4_k_m*.gguf"@),
        quant: Some(lower_quants()),
        default_quant: Some("q4_K_M"@),
        size: Some(row.2@),
        desc: Some(row.4@),
    }
}

/// The entries of Llama 3 models, one for each row.
pub open spec fn llama_section(rows: Seq<(&str, &str, &str, &str, &str)>) -> Seq<OfficialModelView> {
    rows.map_values(|row: (&str, &str, &str, &str, &str)| llama_entry(row))
}

fn llama_model(row: (&str, &str, &str, &str, &str)) -> (r: OfficialModel)
    ensures
        r@ == llama_entry(row),
{
    let m = OfficialModel {
        model_id: join2(row.0, ":*"),
        name: text_of(row.1),
        group: Some(text_of("Llama")),
        family: text_of(row.3),
        prefix: Some(join2(row.0, ":")),
        file_glob: Some(text_of("*q4_k_m*.gguf")),
        quant: Some(lower_quant_list()),
        default_quant: Some(text_of("q4_K_M")),
        size: Some(text_of(row.2)),
        desc: Some(text_of(row.4)),
    };
    assert(m@ =~= llama_entry(row));
    m
}

fn push_llama_entries(out: &mut Vec<OfficialModel>)
    ensures
        entry_views(final(out)@) == entry_views(old(out)@) + llama_section(LLAMA_ROWS@),
{
    let ghost start = out@;
    let mut i: usize = 0;
    assert(entry_views(start) + llama_section(LLAMA_ROWS@.take(0)) =~= entry_views(start));
    while i < LLAMA_ROWS.len()
        invariant
            i <= LLAMA_ROWS@.len(),
            entry_views(out@) == entry_views(start) + llama_section(LLAMA_ROWS@.take(i as int)),
        decreases LLAMA_ROWS@.len() - i,
    {
        let m = llama_model(LLAMA_ROWS[i]);
        let ghost before = out@;
        out.push(m);
        assert(entry_views(out@) =~= entry_views(before).push(out@.last()@));
        assert(llama_section(LLAMA_ROWS@.take(i + 1)) =~= llama_section(LLAMA_ROWS@.take(i as int)).push(
            llama_entry(LLAMA_ROWS@[i as int]),
        ));
        assert(entry_views(out@) =~= entry_views(start) + llama_section(LLAMA_ROWS@.take(i + 1)));
        i += 1;
    }
    assert(LLAMA_ROWS@.take(LLAMA_ROWS@.len() as int) =~= LLAMA_ROWS@);
}

/// The catalogue entry of a Llama 2 model: GGUF ones take the GGUF fields, FP16 ones none.
pub open spec fn llama2_entry(row: (&str, &str, &str, &str, bool, &str)) -> OfficialModelView {
    OfficialModelView {
        model_id: if row.4 { row.0@ + ":*"@ } else { row.0@ },
        name: row.1@,
        group: Some("Llama"@),
        family: row.3@,
        prefix: if row.4 { Some(row.0@ + ":"@) } else { None },
        file_glob: if row.4 { Some("*q4_k_m*.gguf"@) } else { None },
        quant: if row.4 { Some(lower_quants()) } else { None },
        default_quant: if row.4 { Some("q4_K_M"@) } else { None },
        size: Some(row.2@),
        desc: Some(row.5@),
    }
}

/// The entries of Llama 2 models, one for each row.
pub open spec fn llama2_section(rows: Seq<(&str, &str, &str, &str, bool, &str)>) -> Seq<OfficialModelView> {
    rows.map_values(|row: (&str, &str, &str, &str, bool, &str)| llama2_entry(row))
}

fn llama2_model(row: (&str, &str, &str, &str, bool, &str)) -> (r: OfficialModel)
    ensures
        r@ == llama2_entry(row),
{
    let m = OfficialModel {
        model_id: if row.4 { join2(row.0, ":*") } else { text_of(row.0) },
        name: text_of(row.1),
        group: Some(text_of("Llama")),
        family: text_of(row.3),
        prefix: if row.4 { Some(join2(row.0, ":")) } else { None },
        file_glob: if row.4 { Some(text_of("*q4_k_m*.gguf")) } else { None },
        quant: if row.4 { Some(lower_quant_list()) } else { None },
        default_quant: if row.4 { Some(text_of("q4_K_M")) } else { None },
        size: Some(text_of(row.2)),
        desc: Some(text_of(row.5)),
    };
    assert(m@ =~= llama2_entry(row));
    m
}

fn push_llama2_entries(out: &mut Vec<OfficialModel>)
    ensures
        entry_views(final(out)@) == entry_views(old(out)@) + llama2_section(LLAMA2_ROWS@),
{
    let ghost start = out@;
    let mut i: usize = 0;
    assert(entry_views(start) + llama2_section(LLAMA2_ROWS@.take(0)) =~= entry_views(start));
    while i < LLAMA2_ROWS.len()
        invariant
            i <= LLAMA2_ROWS@.len(),
            entry_views(out@) == entry_views(start) + llama2_section(LLAMA2_ROWS@.take(i as int)),
        decreases LLAMA2_ROWS@.len() - i,
    {
        let m = llama2_model(LLAMA2_ROWS[i]);
        let ghost before = out@;
        out.push(m);
        assert(entry_views(out@) =~= entry_views(before).push(out@.last()@));
        assert(llama2_section(LLAMA2_ROWS@.take(i + 1)) =~= llama2_section(LLAMA2_ROWS@.take(i as int)).push(
            llama2_entry(LLAMA2_ROWS@[i as int]),
        ));
        assert(entry_views(out@) =~= entry_views(start) + llama2_section(LLAMA2_ROWS@.take(i + 1)));
        i += 1;
    }
    assert(LLAMA2_ROWS@.take(LLAMA2_ROWS@.len() as int) =~= LLAMA2_ROWS@);
}

/// The catalogue entry of a Qwen3 model: the small ones have only a Q8_0 file, the others upper-case quantisations.
pub open spec fn qwen3_entry(row: (&str, &str, &str, &str, bool)) -> OfficialModelView {
    OfficialModelView {
        model_id: row.0@ + ":*"@,
        name: row.1@,
        group: Some("Qwen系列"@),
        family: "Qwen3"@,
        prefix: Some(row.0@ + ":"@),
        file_glob: if row.4 { Some("*.gguf"@) } else { Some("*Q4_K_M*.gguf"@) },
        quant: if row.4 { None } else { Some(upper_quants()) },
        default_quant: if row.4 { None } else { Some("Q4_K_M"@) },
        size: Some(row.2@),
        desc: Some(row.3@),
    }
}

/// The entries of Qwen3 models, one for each row.
pub open spec fn qwen3_section(rows: Seq<(&str, &str, &str, &str, bool)>) -> Seq<OfficialModelView> {
    rows.map_values(|row: (&str, &str, &str, &str, bool)| qwen3_entry(row))
}

fn qwen3_model(row: (&str, &str, &str, &str, bool)) -> (r: OfficialModel)
    ensures
        r@ == qwen3_entry(row),
{
    let m = OfficialModel {
        model_id: join2(row.0, ":*"),
        name: text_of(row.1),
        group: Some(text_of("Qwen系列")),
        family: text_of("Qwen3"),
        prefix: Some(join2(row.0, ":")),
        file_glob: if row.4 { Some(text_of("*.gguf")) } else { Some(text_of("*Q4_K_M*.gguf")) },
        quant: if row.4 { None } else { Some(upper_quant_list()) },
        default_quant: if row.4 { None } else { Some(text_of("Q4_K_M")) },
        size: Some(text_of(row.2)),
        desc: Some(text_of(row.3)),
    };
    assert(m@ =~= qwen3_entry(row));
    m
}

fn push_qwen3_entries(out: &mut Vec<OfficialModel>)
    ensures
        entry_views(final(out)@) == entry_views(old(out)@) + qwen3_section(QWEN3_ROWS@),
{
    let ghost start = out@;
    let mut i: usize = 0;
    assert(entry_views(start) + qwen3_section(QWEN3_ROWS@.take(0)) =~= entry_views(start));
    while i < QWEN3_ROWS.len()
        invariant
            i <= QWEN3_ROWS@.len(),
            entry_views(out@) == entry_views(start) + qwen3_section(QWEN3_ROWS@.take(i as int)),
        decreases QWEN3_ROWS@.len() - i,
    {
        let m = qwen3_model(QWEN3_ROWS[i]);
        let ghost before = out@;
        out.push(m);
        assert(entry_views(out@) =~= entry_views(before).push(out@.last()@));
        assert(qwen3_section(QWEN3_ROWS@.take(i + 1)) =~= qwen3_section(QWEN3_ROWS@.take(i as int)).push(
            qwen3_entry(QWEN3_ROWS@[i as int]),
        ));
        assert(entry_views(out@) =~= entry_views(start) + qwen3_section(QWEN3_ROWS@.take(i + 1)));
        i += 1;
    }
    assert(QWEN3_ROWS@.take(QWEN3_ROWS@.len() as int) =~= QWEN3_ROWS@);
}

/// The catalogue entry of a Qwen2.5 model.
pub open spec fn qwen25_entry(row: (&str, &str, &str, &str)) -> OfficialModelView {
    OfficialModelView {
        model_id: row.0@ + ":*"@,
        name: row.1@,
        group: Some("Qwen系列"@),
        family: "Qwen2.5"@,
        prefix: Some(row.0@ + ":"@),
        file_glob: Some("*.gguf"@),
        quant: Some(lower_quants()),
        default_quant: Some("q4_K_M"@),
        size: Some(row.2@),
        desc: Some(row.3@),
    }
}

/// The entries of Qwen2.5 models, one for each row.
pub open spec fn qwen25_section(rows: Seq<(&str, &str, &str, &str)>) -> Seq<OfficialModelView> {
    rows.map_values(|row: (&str, &str, &str, &str)| qwen25_entry(row))
}

fn qwen25_model(row: (&str, &str, &str, &str)) -> (r: OfficialModel)
    ensures
        r@ == qwen25_entry(row),
{
    let m = OfficialModel {
        model_id: join2(row.0, ":*"),
        name: text_of(row.1),
        group: Some(text_of("Qwen系列")),
        family: text_of("Qwen2.5"),
        prefix: Some(join2(row.0, ":")),
        file_glob: Some(text_of("*.gguf")),
        quant: Some(lower_quant_list()),
        default_quant: Some(text_of("q4_K_M")),
        size: Some(text_of(row.2)),
        desc: Some(text_of(row.3)),
    };
    assert(m@ =~= qwen25_entry(row));
    m
}

fn push_qwen25_entries(out: &mut Vec<OfficialModel>)
    ensures
        entry_views(final(out)@) == entry_views(old(out)@) + qwen25_section(QWEN25_ROWS@),
{
    let ghost start = out@;
    let mut i: usize = 0;
    assert(entry_views(start) + qwen25_section(QWEN25_ROWS@.take(0)) =~= entry_views(start));
    while i < QWEN25_ROWS.len()
        invariant
            i <= QWEN25_ROWS@.len(),
            entry_views(out@) == entry_views(start) + qwen25_section(QWEN25_ROWS@.take(i as int)),
        decreases QWEN25_ROWS@.len() - i,
    {
        let m = qwen25_model(QWEN25_ROWS[i]);
        let ghost before = out@;
        out.push(m);
        assert(entry_views(out@) =~= entry_views(before).push(out@.last()@));
        assert(qwen25_section(QWEN25_ROWS@.take(i + 1)) =~= qwen25_section(QWEN25_ROWS@.take(i as int)).push(
            qwen25_entry(QWEN25_ROWS@[i as int]),
        ));
        assert(entry_views(out@) =~= entry_views(start) + qwen25_section(QWEN25_ROWS@.take(i + 1)));
        i += 1;
    }
    assert(QWEN25_ROWS@.take(QWEN25_ROWS@.len() as int) =~= QWEN25_ROWS@);
}

/// The catalogue entry of a GLM model: a name with `0414` gets a note on that release in its description.
pub open spec fn glm_entry(row: (&str, &str, &str, &str, &str)) -> OfficialModelView {
    OfficialModelView {
        model_id: row.0@,
        name: row.1@,
        group: Some("GLM"@),
        family: row.3@,
        prefix: None,
        file_glob: None,
        quant: None,
        default_quant: None,
        size: Some(row.2@),
        desc: Some(glm_desc(row.1@, row.4@)),
    }
}

/// The entries of GLM models, one for each row.
pub open spec fn glm_section(rows: Seq<(&str, &str, &str, &str, &str)>) -> Seq<OfficialModelView> {
    rows.map_values(|row: (&str, &str, &str, &str, &str)| glm_entry(row))
}

fn glm_model(row: (&str, &str, &str, &str, &str)) -> (r: OfficialModel)
    ensures
        r@ == glm_entry(row),
{
    let m = OfficialModel {
        model_id: text_of(row.0),
        name: text_of(row.1),
        group: Some(text_of("GLM")),
        family: text_of(row.3),
        prefix: None,
        file_glob: None,
        quant: None,
        default_quant: None,
        size: Some(text_of(row.2)),
        desc: Some(glm_description(row.1, row.4)),
    };
    assert(m@ =~= glm_entry(row));
    m
}

fn push_glm_entries(out: &mut Vec<OfficialModel>)
    ensures
        entry_views(final(out)@) == entry_views(old(out)@) + glm_section(GLM_ROWS@),
{
    let ghost start = out@;
    let mut i: usize = 0;
    assert(entry_views(start) + glm_section(GLM_ROWS@.take(0)) =~= entry_views(start));
    while i < GLM_ROWS.len()
        invariant
            i <= GLM_ROWS@.len(),
            entry_views(out@) == entry_views(start) + glm_section(GLM_ROWS@.take(i as int)),
        decreases GLM_ROWS@.len() - i,
    {
        let m = glm_model(GLM_ROWS[i]);
        let ghost before = out@;
        out.push(m);
        assert(entry_views(out@) =~= entry_views(before).push(out@.last()@));
        assert(glm_section(GLM_ROWS@.take(i + 1)) =~= glm_section(GLM_ROWS@.take(i as int)).push(
            glm_entry(GLM_ROWS@[i as int]),
        ));
        assert(entry_views(out@) =~= entry_views(start) + glm_section(GLM_ROWS@.take(i + 1)));
        i += 1;
    }
    assert(GLM_ROWS@.take(GLM_ROWS@.len() as int) =~= GLM_ROWS@);
}

/// The catalogue entry of a Yi model.
pub open spec fn yi_entry(row: (&str, &str, &str, &str, &str)) -> OfficialModelView {
    OfficialModelView {
        model_id: row.0@,
        name: row.1@,
        group: Some("Yi系列"@),
        family: row.3@,
        prefix: None,
        file_glob: None,
        quant: None,
        default_quant: None,
        size: Some(row.2@),
        desc: Some(row.4@),
    }
}

/// The entries of Yi models, one for each row.
pub open spec fn yi_section(rows: Seq<(&str, &str, &str, &str, &str)>) -> Seq<OfficialModelView> {
    rows.map_values(|row: (&str, &str, &str, &str, &str)| yi_entry(row))
}

fn yi_model(row: (&str, &str, &str, &str, &str)) -> (r: OfficialModel)
    ensures
        r@ == yi_entry(row),
{
    let m = OfficialModel {
        model_id: text_of(row.0),
        name: text_of(row.1),
        group: Some(text_of("Yi系列")),
        family: text_of(row.3),
        prefix: None,
        file_glob: None,
        quant: None,
        default_quant: None,
        size: Some(text_of(row.2)),
        desc: Some(text_of(row.4)),
    };
    assert(m@ =~= yi_entry(row));
    m
}

fn push_yi_entries(out: &mut Vec<OfficialModel>)
    ensures
        entry_views(final(out)@) == entry_views(old(out)@) + yi_section(YI_ROWS@),
{
    let ghost start = out@;
    let mut i: usize = 0;
    assert(entry_views(start) + yi_section(YI_ROWS@.take(0)) =~= entry_views(start));
    while i < YI_ROWS.len()
        invariant
            i <= YI_ROWS@.len(),
            entry_views(out@) == entry_views(start) + yi_section(YI_ROWS@.take(i as int)),
        decreases YI_ROWS@.len() - i,
    {
        let m = yi_model(YI_ROWS[i]);
        let ghost before = out@;
        out.push(m);
        assert(entry_views(out@) =~= entry_views(before).push(out@.last()@));
        assert(yi_section(YI_ROWS@.take(i + 1)) =~= yi_section(YI_ROWS@.take(i as int)).push(
            yi_entry(YI_ROWS@[i as int]),
        ));
        assert(entry_views(out@) =~= entry_views(start) + yi_section(YI_ROWS@.take(i + 1)));
        i += 1;
    }
    assert(YI_ROWS@.take(YI_ROWS@.len() as int) =~= YI_ROWS@);
}

/// The built-in catalogue, newest families first: DeepSeek-R1 distills,
/// DeepSeek Coder (FP16, then GGUF), Gemma, Llama 3, Llama 2, Qwen3, Qwen2.5
/// (with QwQ), GLM and Yi, each in its rows' order.
pub open spec fn default_official_models() -> Seq<OfficialModelView> {
    r1_section(DEEPSEEK_R1_ROWS@) + coder_section(DEEPSEEK_CODER_ROWS@) + coder_gguf_section(DEEPSEEK_CODER_GGUF_ROWS@) + gemma_section(GEMMA_ROWS@) + llama_section(LLAMA_ROWS@) + llama2_section(LLAMA2_ROWS@) + qwen3_section(QWEN3_ROWS@) + qwen25_section(QWEN25_ROWS@) + glm_section(GLM_ROWS@) + yi_section(YI_ROWS@)
}

/// The built-in catalogue of recommended models.
pub fn get_default_official_models() -> (r: Vec<OfficialModel>)
    ensures
        entry_views(r@) == default_official_models(),
{
    let mut all: Vec<OfficialModel> = Vec::new();
    push_r1_entries(&mut all);
    push_coder_entries(&mut all);
    push_coder_gguf_entries(&mut all);
    push_gemma_entries(&mut all);
    push_llama_entries(&mut all);
    push_llama2_entries(&mut all);
    push_qwen3_entries(&mut all);
    push_qwen25_entries(&mut all);
    push_glm_entries(&mut all);
    push_yi_entries(&mut all);
    assert(entry_views(all@) =~= default_official_models());
    all
}

/// Every entry belongs to one of the six groups, and one that offers
/// quantisations names one of them as its default.
pub open spec fn well_formed_entry(e: OfficialModelView) -> bool {
    &&& e.group matches Some(g) && crate::models::group_priority().contains(g)
    &&& e.quant matches Some(q) ==> (e.default_quant matches Some(d) && q.contains(d))
}

proof fn lemma_all_well_formed_concat(a: Seq<OfficialModelView>, b: Seq<OfficialModelView>)
    requires
        forall|i: int| 0 <= i < a.len() ==> well_formed_entry(#[trigger] a[i]),
        forall|i: int| 0 <= i < b.len() ==> well_formed_entry(#[trigger] b[i]),
    ensures
        forall|i: int| 0 <= i < (a + b).len() ==> well_formed_entry(#[trigger] (a + b)[i]),
{
    assert forall|i: int| 0 <= i < (a + b).len() implies well_formed_entry(#[trigger] (a + b)[i]) by {
        if i < a.len() {
            assert((a + b)[i] == a[i]);
        } else {
            assert((a + b)[i] == b[i - a.len()]);
        }
    }
}

/// The built-in catalogue holds 76 models, each in one of the six groups the
/// launcher shows, and each that offers quantisations defaults to one of them.
pub proof fn law_default_catalogue()
    ensures
        default_official_models().len() == 76,
        forall|i: int|
            0 <= i < default_official_models().len() ==> well_formed_entry(#[trigger] default_official_models()[i]),
{
    let groups = crate::models::group_priority();
    assert(groups[0] == "Qwen系列"@);
    assert(groups[1] == "DeepSeek"@);
    assert(groups[2] == "GLM"@);
    assert(groups[3] == "Yi系列"@);
    assert(groups[4] == "Google"@);
    assert(groups[5] == "Llama"@);
    assert(lower_quants()[2] == "q4_K_M"@);
    assert(upper_quants()[0] == "Q4_K_M"@);
    assert forall|i: int| 0 <= i < r1_section(DEEPSEEK_R1_ROWS@).len() implies well_formed_entry(
        #[trigger] r1_section(DEEPSEEK_R1_ROWS@)[i],
    ) by {
        assert(r1_section(DEEPSEEK_R1_ROWS@)[i] == r1_entry(DEEPSEEK_R1_ROWS@[i]));
    }
    assert forall|i: int| 0 <= i < coder_section(DEEPSEEK_CODER_ROWS@).len() implies well_formed_entry(
        #[trigger] coder_section(DEEPSEEK_CODER_ROWS@)[i],
    ) by {
        assert(coder_section(DEEPSEEK_CODER_ROWS@)[i] == coder_entry(DEEPSEEK_CODER_ROWS@[i]));
    }
    assert forall|i: int| 0 <= i < coder_gguf_section(DEEPSEEK_CODER_GGUF_ROWS@).len() implies well_formed_entry(
        #[trigger] coder_gguf_section(DEEPSEEK_CODER_GGUF_ROWS@)[i],
    ) by {
        assert(coder_gguf_section(DEEPSEEK_CODER_GGUF_ROWS@)[i] == coder_gguf_entry(DEEPSEEK_CODER_GGUF_ROWS@[i]));
    }
    assert forall|i: int| 0 <= i < gemma_section(GEMMA_ROWS@).len() implies well_formed_entry(
        #[trigger] gemma_section(GEMMA_ROWS@)[i],
    ) by {
        assert(gemma_section(GEMMA_ROWS@)[i] == gemma_entry(GEMMA_ROWS@[i]));
    }
    assert forall|i: int| 0 <= i < llama_section(LLAMA_ROWS@).len() implies well_formed_entry(
        #[trigger] llama_section(LLAMA_ROWS@)[i],
    ) by {
        assert(llama_section(LLAMA_ROWS@)[i] == llama_entry(LLAMA_ROWS@[i]));
    }
    assert forall|i: int| 0 <= i < llama2_section(LLAMA2_ROWS@).len() implies well_formed_entry(
        #[trigger] llama2_section(LLAMA2_ROWS@)[i],
    ) by {
        assert(llama2_section(LLAMA2_ROWS@)[i] == llama2_entry(LLAMA2_ROWS@[i]));
    }
    assert forall|i: int| 0 <= i < qwen3_section(QWEN3_ROWS@).len() implies well_formed_entry(
        #[trigger] qwen3_section(QWEN3_ROWS@)[i],
    ) by {
        assert(qwen3_section(QWEN3_ROWS@)[i] == qwen3_entry(QWEN3_ROWS@[i]));
    }
    assert forall|i: int| 0 <= i < qwen25_section(QWEN25_ROWS@).len() implies well_formed_entry(
        #[trigger] qwen25_section(QWEN25_ROWS@)[i],
    ) by {
        assert(qwen25_section(QWEN25_ROWS@)[i] == qwen25_entry(QWEN25_ROWS@[i]));
    }
    assert forall|i: int| 0 <= i < glm_section(GLM_ROWS@).len() implies well_formed_entry(
        #[trigger] glm_section(GLM_ROWS@)[i],
    ) by {
        assert(glm_section(GLM_ROWS@)[i] == glm_entry(GLM_ROWS@[i]));
    }
    assert forall|i: int| 0 <= i < yi_section(YI_ROWS@).len() implies well_formed_entry(
        #[trigger] yi_section(YI_ROWS@)[i],
    ) by {
        assert(yi_section(YI_ROWS@)[i] == yi_entry(YI_ROWS@[i]));
    }
    let acc = r1_section(DEEPSEEK_R1_ROWS@);
    lemma_all_well_formed_concat(acc, coder_section(DEEPSEEK_CODER_ROWS@));
    let acc = acc + coder_section(DEEPSEEK_CODER_ROWS@);
    lemma_all_well_formed_concat(acc, coder_gguf_section(DEEPSEEK_CODER_GGUF_ROWS@));
    let acc = acc + coder_gguf_section(DEEPSEEK_CODER_GGUF_ROWS@);
    lemma_all_well_formed_concat(acc, gemma_section(GEMMA_ROWS@));
    let acc = acc + gemma_section(GEMMA_ROWS@);
    lemma_all_well_formed_concat(acc, llama_section(LLAMA_ROWS@));
    let acc = acc + llama_section(LLAMA_ROWS@);
    lemma_all_well_formed_concat(acc, llama2_section(LLAMA2_ROWS@));
    let acc = acc + llama2_section(LLAMA2_ROWS@);
    lemma_all_well_formed_concat(acc, qwen3_section(QWEN3_ROWS@));
    let acc = acc + qwen3_section(QWEN3_ROWS@);
    lemma_all_well_formed_concat(acc, qwen25_section(QWEN25_ROWS@));
    let acc = acc + qwen25_section(QWEN25_ROWS@);
    lemma_all_well_formed_concat(acc, glm_section(GLM_ROWS@));
    let acc = acc + glm_section(GLM_ROWS@);
    lemma_all_well_formed_concat(acc, yi_section(YI_ROWS@));
    let acc = acc + yi_section(YI_ROWS@);
    assert(acc =~= default_official_models());
}

} // verus!
