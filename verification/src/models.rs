//! Local model files and the ModelScope catalogue: which files count as
//! models, how they are listed, the checks on importing and deleting one,
//! and how search results are filtered and ranked.
use vstd::prelude::*;
use crate::catalog::OfficialModel;
use crate::order::{insert_stable, lemma_insert_stable_at, lemma_stable_sorted, lemma_stable_sorted_step, sorted_by, stable_sorted};
use crate::reply::lower_text;
use crate::sessions::{str_less, str_lt};
use crate::sizes::{format_size, size_text};
use crate::text::{ascii_lower_exec, chars_of, contains, push_digits, push_str, str_contains, str_eq, string_of_range, trim, trim_bounds};

verus! {

broadcast use vstd::string::group_string_axioms;

fn text(s: &str) -> (r: String)
    ensures
        r@ == s@,
{
    String::from_str(s)
}

/// The position of the last `.` in a file name.
pub open spec fn last_dot(name: Seq<char>) -> Option<int>
    decreases name.len(),
{
    if name.len() == 0 {
        None
    } else if name.last() == '.' {
        Some(name.len() - 1)
    } else {
        last_dot(name.drop_last())
    }
}

/// The stem and extension of a file name, as `Path::file_stem` and
/// `Path::extension` give them: split at the last `.`, unless that is the
/// first character or there is none.
pub open spec fn name_parts(name: Seq<char>) -> (Seq<char>, Option<Seq<char>>) {
    match last_dot(name) {
        Some(i) => if i > 0 {
            (name.take(i), Some(name.skip(i + 1)))
        } else {
            (name, None)
        },
        None => (name, None),
    }
}

proof fn lemma_last_dot(name: Seq<char>)
    ensures
        last_dot(name) matches Some(i) ==> 0 <= i < name.len() && name[i] == '.' && forall|j: int|
            i < j < name.len() ==> name[j] != '.',
        last_dot(name) is None ==> forall|j: int| 0 <= j < name.len() ==> name[j] != '.',
    decreases name.len(),
{
    if name.len() > 0 && name.last() != '.' {
        lemma_last_dot(name.drop_last());
        assert forall|j: int| 0 <= j < name.len() - 1 implies name.drop_last()[j] == name[j] by {}
    }
}

/// Splits a file name into its stem and extension.
pub fn split_file_name(name: &str) -> (r: (String, Option<String>))
    ensures
        r.0@ == name_parts(name@).0,
        match r.1 {
            Some(e) => name_parts(name@).1 == Some(e@),
            None => name_parts(name@).1 is None,
        },
{
    let cs = chars_of(name);
    let mut k = cs.len();
    proof {
        lemma_last_dot(cs@);
    }
    assert(cs@.take(k as int) =~= cs@);
    while k > 0 && cs[k - 1] != '.'
        invariant
            k <= cs@.len(),
            last_dot(cs@) == last_dot(cs@.take(k as int)),
        decreases k,
    {
        assert(cs@.take(k as int).drop_last() =~= cs@.take(k - 1));
        k -= 1;
    }
    if k > 1 {
        assert(last_dot(cs@.take(k as int)) == Some(k - 1));
        assert(cs@.subrange(0, k - 1) =~= cs@.take(k - 1));
        assert(cs@.subrange(k as int, cs@.len() as int) =~= cs@.skip(k as int));
        (string_of_range(&cs, 0, k - 1), Some(string_of_range(&cs, k, cs.len())))
    } else {
        assert(cs@.subrange(0, cs@.len() as int) =~= cs@);
        (string_of_range(&cs, 0, cs.len()), None)
    }
}

/// A model file as listed.
pub struct ModelInfo {
    pub name: String,
    pub size: String,
    pub path: String,
}

/// A file found in the models directory: its name, its full path and its size.
pub struct FoundFile {
    pub file_name: String,
    pub path: String,
    pub size: u64,
}

/// A file is a model where its extension is `gguf` or `GGUF`.
pub open spec fn is_model_file(name: Seq<char>) -> bool {
    name_parts(name).1 == Some("gguf"@) || name_parts(name).1 == Some("GGUF"@)
}

/// A model's listing as plain values.
pub struct ModelInfoView {
    pub name: Seq<char>,
    pub size: Seq<char>,
    pub path: Seq<char>,
}

impl View for ModelInfo {
    type V = ModelInfoView;

    open spec fn view(&self) -> ModelInfoView {
        ModelInfoView { name: self.name@, size: self.size@, path: self.path@ }
    }
}

/// The listing of a model file: its stem, its size as text, its path.
pub open spec fn model_info_of(f: FoundFile) -> ModelInfoView {
    ModelInfoView { name: name_parts(f.file_name@).0, size: size_text(f.size as nat), path: f.path@ }
}

/// The model files among the files found, listed in the order found.
pub open spec fn model_infos(files: Seq<FoundFile>) -> Seq<ModelInfoView>
    decreases files.len(),
{
    if files.len() == 0 {
        Seq::empty()
    } else if is_model_file(files.last().file_name@) {
        model_infos(files.drop_last()).push(model_info_of(files.last()))
    } else {
        model_infos(files.drop_last())
    }
}

/// One listing goes before another where its name sorts first.
pub open spec fn name_before(a: ModelInfoView, b: ModelInfoView) -> bool {
    str_less(a.name, b.name)
}

/// The views of a list of model listings.
pub open spec fn info_views(v: Seq<ModelInfo>) -> Seq<ModelInfoView> {
    v.map_values(|m: ModelInfo| m@)
}

fn is_model_name(name: &str) -> (r: (bool, String))
    ensures
        r.0 == is_model_file(name@),
        r.1@ == name_parts(name@).0,
{
    let (stem, ext) = split_file_name(name);
    let ok = match &ext {
        Some(e) => str_eq(e.as_str(), "gguf") || str_eq(e.as_str(), "GGUF"),
        None => false,
    };
    (ok, stem)
}

/// Lists the model files among the files found in the models directory, by name.
pub fn list_models(files: &Vec<FoundFile>) -> (r: Vec<ModelInfo>)
    ensures
        info_views(r@) == stable_sorted(model_infos(files@), |a: ModelInfoView, b: ModelInfoView| name_before(a, b)),
{
    let ghost gb = |a: ModelInfoView, b: ModelInfoView| name_before(a, b);
    let mut found: Vec<ModelInfo> = Vec::new();
    let mut i: usize = 0;
    assert(files@.take(0) =~= Seq::<FoundFile>::empty());
    while i < files.len()
        invariant
            i <= files@.len(),
            info_views(found@) == model_infos(files@.take(i as int)),
        decreases files@.len() - i,
    {
        assert(files@.take(i + 1).drop_last() =~= files@.take(i as int));
        let f = &files[i];
        let (ok, stem) = is_model_name(f.file_name.as_str());
        if ok {
            let m = ModelInfo { name: stem, size: format_size(f.size), path: text(f.path.as_str()) };
            let ghost before = found@;
            found.push(m);
            assert(info_views(found@) =~= info_views(before).push(model_info_of(files@[i as int])));
        }
        i += 1;
    }
    assert(files@.take(i as int) =~= files@);
    let ghost unsorted = info_views(found@);
    let total = found.len();
    let mut rest = found;
    let mut out: Vec<ModelInfo> = Vec::new();
    let mut k: usize = 0;
    assert(unsorted.take(0) =~= Seq::<ModelInfoView>::empty());
    while rest.len() > 0
        invariant
            k <= unsorted.len(),
            unsorted.len() == total,
            info_views(rest@) == unsorted.skip(k as int),
            info_views(out@) == stable_sorted(unsorted.take(k as int), gb),
            gb == (|a: ModelInfoView, b: ModelInfoView| name_before(a, b)),
        decreases rest@.len(),
    {
        assert(info_views(rest@).len() == rest@.len());
        assert(unsorted.skip(k as int).len() == unsorted.len() - k);
        assert(info_views(rest@)[0] == rest@[0]@);
        assert(info_views(rest@)[0] == unsorted[k as int]);
        let ghost old_rest = rest@;
        let x = rest.remove(0);
        let ghost xv = x@;
        let mut p = out.len();
        while p > 0 && str_lt(x.name.as_str(), out[p - 1].name.as_str())
            invariant
                p <= out@.len(),
                forall|j: int| p <= j < out@.len() ==> str_less(xv.name, #[trigger] out@[j]@.name),
                xv == x@,
            decreases p,
        {
            p -= 1;
        }
        proof {
            let ov = info_views(out@);
            assert forall|j: int| p <= j < ov.len() implies gb(xv, #[trigger] ov[j]) by {
                assert(ov[j] == out@[j]@);
            }
            if p > 0 {
                assert(ov[p - 1] == out@[p - 1]@);
            }
            lemma_insert_stable_at(ov, xv, gb, p as int);
            lemma_stable_sorted_step(unsorted, k as int, gb);
        }
        let ghost before = out@;
        out.insert(p, x);
        assert(info_views(out@) =~= info_views(before).take(p as int).push(xv) + info_views(before).skip(p as int));
        assert forall|j: int| 0 <= j < rest@.len() implies #[trigger] info_views(rest@)[j] == unsorted.skip(k + 1)[j] by {
            assert(rest@[j] == old_rest[j + 1]);
            assert(info_views(old_rest)[j + 1] == old_rest[j + 1]@);
        }
        assert(info_views(rest@) =~= unsorted.skip(k + 1));
        k += 1;
    }
    assert(unsorted.take(k as int) =~= unsorted);
    out
}

/// The first model file among the files found, in the order found.
pub open spec fn first_model(files: Seq<FoundFile>) -> Option<ModelInfoView>
    decreases files.len(),
{
    if files.len() == 0 {
        None
    } else if is_model_file(files[0].file_name@) {
        Some(model_info_of(files[0]))
    } else {
        first_model(files.drop_first())
    }
}

/// Finds the first model file among the files found.
pub fn auto_find_model(files: &Vec<FoundFile>) -> (r: Option<ModelInfo>)
    ensures
        match r {
            Some(m) => first_model(files@) == Some(m@),
            None => first_model(files@) is None,
        },
{
    let mut i: usize = 0;
    assert(files@.skip(0) =~= files@);
    while i < files.len()
        invariant
            i <= files@.len(),
            first_model(files@) == first_model(files@.skip(i as int)),
        decreases files@.len() - i,
    {
        assert(files@.skip(i as int)[0] == files@[i as int]);
        let f = &files[i];
        let (ok, stem) = is_model_name(f.file_name.as_str());
        if ok {
            return Some(ModelInfo { name: stem, size: format_size(f.size), path: text(f.path.as_str()) });
        }
        assert(files@.skip(i as int).drop_first() =~= files@.skip(i + 1));
        i += 1;
    }
    None
}

/// The characters a model name may not hold.
pub open spec fn is_illegal_name_char(c: char) -> bool {
    c == '/' || c == '\\' || c == ':' || c == '*' || c == '?' || c == '"' || c == '<' || c == '>' || c == '|'
}

/// What importing a model file will write: the name it was given (trimmed)
/// and the file name `<name>.gguf`.
pub struct ImportPlan {
    pub safe_name: String,
    pub file_name: String,
}

/// The checks on importing a file with extension `ext` under `model_name`:
/// only `.gguf` files (in any case); the name, trimmed, must not be empty or
/// hold a character that file names forbid.
pub open spec fn import_check(ext: Seq<char>, model_name: Seq<char>) -> Result<(Seq<char>, Seq<char>), Seq<char>> {
    let safe = trim(model_name);
    if lower_text(ext) != "gguf"@ {
        Err("只能导入 .gguf 文件"@)
    } else if safe.len() == 0 {
        Err("模型名称不能为空"@)
    } else if exists|i: int| 0 <= i < safe.len() && is_illegal_name_char(#[trigger] safe[i]) {
        Err("模型名称包含非法字符"@)
    } else {
        Ok((safe, safe + ".gguf"@))
    }
}

fn lowered(s: &str) -> (r: Vec<char>)
    ensures
        r@ == lower_text(s@),
{
    let cs = chars_of(s);
    let mut out: Vec<char> = Vec::new();
    let mut i: usize = 0;
    while i < cs.len()
        invariant
            i <= cs@.len(),
            out@ == lower_text(cs@.take(i as int)),
        decreases cs@.len() - i,
    {
        out.push(ascii_lower_exec(cs[i]));
        i += 1;
        assert(out@ =~= lower_text(cs@.take(i as int)));
    }
    assert(cs@.take(i as int) =~= cs@);
    out
}

fn is_gguf_ext(ext: &str) -> (r: bool)
    ensures
        r == (lower_text(ext@) == "gguf"@),
{
    let low = lowered(ext);
    let g = chars_of("gguf");
    if low.len() != g.len() {
        return false;
    }
    let mut i: usize = 0;
    while i < g.len()
        invariant
            i <= g@.len(),
            low@.len() == g@.len(),
            low@ == lower_text(ext@),
            g@ == "gguf"@,
            forall|j: int| 0 <= j < i ==> low@[j] == g@[j],
        decreases g@.len() - i,
    {
        if low[i] != g[i] {
            assert(low@[i as int] != g@[i as int]);
            return false;
        }
        i += 1;
    }
    assert(low@ =~= g@);
    true
}

/// Checks a model file to import: its extension and the name it is to get.
pub fn check_import_name(ext: &str, model_name: &str) -> (r: Result<ImportPlan, String>)
    ensures
        match (r, import_check(ext@, model_name@)) {
            (Ok(p), Ok((s, f))) => p.safe_name@ == s && p.file_name@ == f,
            (Err(e), Err(m)) => e@ == m,
            _ => false,
        },
{
    if !is_gguf_ext(ext) {
        return Err(text("只能导入 .gguf 文件"));
    }
    let cs = chars_of(model_name);
    let (a, b) = trim_bounds(&cs, 0, cs.len());
    assert(cs@.subrange(0, cs@.len() as int) =~= cs@);
    if a == b {
        return Err(text("模型名称不能为空"));
    }
    let safe = string_of_range(&cs, a, b);
    let mut i = a;
    while i < b
        invariant
            a <= i <= b <= cs@.len(),
            safe@ == cs@.subrange(a as int, b as int),
            safe@ == trim(model_name@),
            lower_text(ext@) == "gguf"@,
            forall|j: int| 0 <= j < i - a ==> !is_illegal_name_char(#[trigger] safe@[j]),
        decreases b - i,
    {
        let c = cs[i];
        if c == '/' || c == '\\' || c == ':' || c == '*' || c == '?' || c == '"' || c == '<' || c == '>' || c
            == '|' {
            assert(is_illegal_name_char(safe@[i - a]));
            return Err(text("模型名称包含非法字符"));
        }
        i += 1;
    }
    let mut file_name = text(safe.as_str());
    push_str(&mut file_name, ".gguf");
    Ok(ImportPlan { safe_name: safe, file_name })
}

/// The text after the last `/` of a path (all of it where there is none).
pub open spec fn after_last_slash(path: Seq<char>) -> Seq<char>
    decreases path.len(),
{
    if path.len() == 0 {
        path
    } else if path.last() == '/' {
        Seq::empty()
    } else {
        after_last_slash(path.drop_last()).push(path.last())
    }
}

/// A path separator on some platform: `/` everywhere, `\` on Windows.
pub open spec fn is_separator(c: char) -> bool {
    c == '/' || c == '\\'
}

/// The path begins with two separators, which Windows reads as the prefix
/// of a network share or a device (`\\server\share`, `//./x`, `\\?\`).
pub open spec fn starts_with_two_separators(path: Seq<char>) -> bool {
    path.len() >= 2 && is_separator(path[0]) && is_separator(path[1])
}

/// The text after the last `/`, `\` or `:` of a path (all of it where
/// there is none).
pub open spec fn after_last_separator(path: Seq<char>) -> Seq<char>
    decreases path.len(),
{
    if path.len() == 0 {
        path
    } else if path.last() == '/' || path.last() == '\\' || path.last() == ':' {
        Seq::empty()
    } else {
        after_last_separator(path.drop_last()).push(path.last())
    }
}

/// A path whose file name every platform reads alike: it does not begin
/// with two separators (no Windows share or device prefix), and what
/// follows its last `/` holds no `\` and no `:` and is a file name proper,
/// not empty, `.` or `..`. Its file name (`Path::file_name`) is then that
/// last part on every platform.
pub open spec fn plain_path(path: Seq<char>) -> bool {
    let f = after_last_slash(path);
    &&& !starts_with_two_separators(path)
    &&& forall|i: int| 0 <= i < f.len() ==> f[i] != '\\' && f[i] != ':'
    &&& f.len() > 0
    &&& f != seq!['.']
    &&& f != seq!['.', '.']
}

/// A path whose extension every platform reads alike: it does not begin
/// with two separators, and the part after its last `/`, `\` or `:` holds
/// a `.` that is not its first character and is not `..`. On every platform
/// the file name then ends with that part, and its extension is the text
/// after that part's last `.` (a Windows path such as `C:\m\q.gguf` is one).
pub open spec fn dotted_path(path: Seq<char>) -> bool {
    let f = after_last_separator(path);
    &&& !starts_with_two_separators(path)
    &&& f != seq!['.', '.']
    &&& last_dot(f) matches Some(i) && i > 0
}

/// The extension of a path that is [`plain_path`] or [`dotted_path`].
pub open spec fn known_extension(path: Seq<char>) -> Option<Seq<char>> {
    if dotted_path(path) {
        name_parts(after_last_separator(path)).1
    } else {
        name_parts(after_last_slash(path)).1
    }
}

/// The extension of such a path as text, empty where it has none.
pub open spec fn extension_text(path: Seq<char>) -> Seq<char> {
    match known_extension(path) {
        Some(e) => e,
        None => Seq::empty(),
    }
}

/// `Path::extension`, where it is valid Unicode. Its contract claims what
/// std documents for a [`plain_path`] or a [`dotted_path`]: the part of the
/// file name after its last `.`, none where there is no `.` or the only one
/// leads. Of other paths, where the separators and prefixes of the platform
/// decide differently, nothing is claimed.
#[verifier::external_body]
pub(crate) fn path_extension(path: &str) -> (r: Option<String>)
    ensures
        plain_path(path@) || dotted_path(path@) ==> crate::catalog::opt_text(r) == known_extension(path@),
{
    std::path::Path::new(path).extension().and_then(|e| e.to_str()).map(|e| e.to_string())
}

/// Checks a model file to import: it must exist, then [`check_import_name`]
/// with its extension (empty where it has none).
pub fn import_model_file(src_path: &str, src_exists: bool, model_name: &str) -> (r: Result<ImportPlan, String>)
    ensures
        !src_exists ==> (r matches Err(e) && e@ == "源文件不存在: "@ + src_path@),
        src_exists && (plain_path(src_path@) || dotted_path(src_path@)) ==> match (
            r,
            import_check(extension_text(src_path@), model_name@),
        ) {
            (Ok(p), Ok((s, f))) => p.safe_name@ == s && p.file_name@ == f,
            (Err(e), Err(m)) => e@ == m,
            _ => false,
        },
{
    if !src_exists {
        let mut e = text("源文件不存在: ");
        push_str(&mut e, src_path);
        return Err(e);
    }
    let ext = match path_extension(src_path) {
        Some(e) => e,
        None => String::new(),
    };
    check_import_name(ext.as_str(), model_name)
}

/// The error when the target file is already there.
pub fn import_conflict(file_name: &str) -> (r: String)
    ensures
        r@ == "模型文件已存在: "@ + file_name@,
{
    let mut e = text("模型文件已存在: ");
    push_str(&mut e, file_name);
    e
}

/// The message after an import: the name and the size in whole MiB.
pub fn import_done(safe_name: &str, size: u64) -> (r: String)
    ensures
        r@ == safe_name@ + " 导入成功 ("@ + crate::text::dec((size / 1024 / 1024) as nat) + "MB)"@,
{
    let mut s = text(safe_name);
    push_str(&mut s, " 导入成功 (");
    push_digits(&mut s, (size / 1024 / 1024) as u128, 10);
    push_str(&mut s, "MB)");
    s
}

/// The checks on deleting a file with extension `ext`: only `.gguf` files
/// (in any case), and only ones that exist.
pub open spec fn delete_check(ext: Seq<char>, exists: bool) -> Result<(), Seq<char>> {
    if lower_text(ext) != "gguf"@ {
        Err("只能删除 .gguf 文件"@)
    } else if !exists {
        Err("文件不存在"@)
    } else {
        Ok(())
    }
}

/// Checks a file to delete, given its extension.
pub fn check_delete_ext(ext: &str, exists: bool) -> (r: Result<(), String>)
    ensures
        match (r, delete_check(ext@, exists)) {
            (Ok(_), Ok(_)) => true,
            (Err(e), Err(m)) => e@ == m,
            _ => false,
        },
{
    if !is_gguf_ext(ext) {
        return Err(text("只能删除 .gguf 文件"));
    }
    if !exists {
        return Err(text("文件不存在"));
    }
    Ok(())
}

/// Checks a file to delete: [`check_delete_ext`] with its extension (empty
/// where it has none).
pub fn delete_model_file(path: &str, exists: bool) -> (r: Result<(), String>)
    ensures
        r is Ok ==> exists,
        plain_path(path@) || dotted_path(path@) ==> match (r, delete_check(extension_text(path@), exists)) {
            (Ok(_), Ok(_)) => true,
            (Err(e), Err(m)) => e@ == m,
            _ => false,
        },
{
    let ext = match path_extension(path) {
        Some(e) => e,
        None => String::new(),
    };
    check_delete_ext(ext.as_str(), exists)
}

/// The outcome of removing the file.
pub fn delete_outcome(path: &str, removed: Result<(), String>) -> (r: Result<String, String>)
    ensures
        match removed {
            Ok(_) => r matches Ok(m) && m@ == "已删除: "@ + path@,
            Err(e) => r matches Err(m) && m@ == "删除失败: "@ + e@,
        },
{
    match removed {
        Ok(()) => {
            let mut m = text("已删除: ");
            push_str(&mut m, path);
            Ok(m)
        },
        Err(e) => {
            let mut m = text("删除失败: ");
            push_str(&mut m, e.as_str());
            Err(m)
        },
    }
}

/// What the launcher reads of one ModelScope search result.
pub struct CatalogHit {
    pub name: Option<String>,
    pub path: Option<String>,
    pub downloads: Option<i64>,
    pub updated_at: Option<String>,
    pub chinese_name: Option<String>,
    pub description: Option<String>,
    pub created_by: Option<String>,
    /// The organisation's full name, where it has one.
    pub org_full_name: Option<String>,
    /// The Chinese name of the first task, where there is one.
    pub first_task_name: Option<String>,
}

/// A search result as the launcher shows it.
pub struct ModelBrief {
    pub id: String,
    pub name: String,
    pub owner: String,
    pub description: String,
    pub task: String,
    pub downloads: i64,
    pub updated: String,
    pub path: String,
}

/// A search result as plain values.
pub struct ModelBriefView {
    pub id: Seq<char>,
    pub name: Seq<char>,
    pub owner: Seq<char>,
    pub description: Seq<char>,
    pub task: Seq<char>,
    pub downloads: i64,
    pub updated: Seq<char>,
    pub path: Seq<char>,
}

impl View for ModelBrief {
    type V = ModelBriefView;

    open spec fn view(&self) -> ModelBriefView {
        ModelBriefView {
            id: self.id@,
            name: self.name@,
            owner: self.owner@,
            description: self.description@,
            task: self.task@,
            downloads: self.downloads,
            updated: self.updated@,
            path: self.path@,
        }
    }
}

/// A name for what `str::to_lowercase` makes of a text.
pub uninterp spec fn lowercase(s: Seq<char>) -> Seq<char>;

/// `str::to_lowercase`: the text in lower case by Unicode's rules. Its
/// contract only names the result; the case tables are left unsaid.
#[verifier::external_body]
fn to_lower(s: &str) -> (r: String)
    ensures
        r@ == lowercase(s@),
{
    s.to_lowercase()
}

/// The text of an optional string, or nothing.
pub open spec fn text_or_empty(s: Option<String>) -> Seq<char> {
    match s {
        Some(t) => t@,
        None => Seq::empty(),
    }
}

/// The first of two optional strings that is there.
pub open spec fn first_present(a: Option<String>, b: Option<String>) -> Option<String> {
    match a {
        Some(x) => Some(x),
        None => b,
    }
}

/// A result is kept where its name, in lower case, contains the query in lower case.
pub open spec fn hit_kept(h: CatalogHit, query_lower: Seq<char>) -> bool {
    match h.name {
        Some(n) => contains(lowercase(n@), query_lower),
        None => false,
    }
}

/// How a result is shown: id and path from its path, the organisation (or
/// its creator) as owner, the Chinese name (or the description), the first
/// task, the download count (zero where unknown) and the update time.
pub open spec fn brief_of(h: CatalogHit) -> ModelBriefView {
    ModelBriefView {
        id: text_or_empty(h.path),
        name: text_or_empty(h.name),
        owner: text_or_empty(first_present(h.org_full_name, h.created_by)),
        description: text_or_empty(first_present(h.chinese_name, h.description)),
        task: text_or_empty(h.first_task_name),
        downloads: match h.downloads {
            Some(d) => d,
            None => 0,
        },
        updated: text_or_empty(h.updated_at),
        path: text_or_empty(h.path),
    }
}

/// The results kept, shown, in the order received.
pub open spec fn kept_briefs(hits: Seq<CatalogHit>, query_lower: Seq<char>) -> Seq<ModelBriefView>
    decreases hits.len(),
{
    if hits.len() == 0 {
        Seq::empty()
    } else if hit_kept(hits.last(), query_lower) {
        kept_briefs(hits.drop_last(), query_lower).push(brief_of(hits.last()))
    } else {
        kept_briefs(hits.drop_last(), query_lower)
    }
}

/// One result goes before another where it was downloaded more often.
pub open spec fn more_downloaded(a: ModelBriefView, b: ModelBriefView) -> bool {
    a.downloads > b.downloads
}

/// The views of a list of results.
pub open spec fn brief_views(v: Seq<ModelBrief>) -> Seq<ModelBriefView> {
    v.map_values(|m: ModelBrief| m@)
}

fn owned_or_empty(s: &Option<String>) -> (r: String)
    ensures
        r@ == text_or_empty(*s),
{
    match s {
        Some(t) => String::from_str(t.as_str()),
        None => String::new(),
    }
}

fn first_or_empty(a: &Option<String>, b: &Option<String>) -> (r: String)
    ensures
        r@ == text_or_empty(first_present(*a, *b)),
{
    match a {
        Some(t) => String::from_str(t.as_str()),
        None => owned_or_empty(b),
    }
}

fn brief(h: &CatalogHit) -> (r: ModelBrief)
    ensures
        r@ == brief_of(*h),
{
    ModelBrief {
        id: owned_or_empty(&h.path),
        name: owned_or_empty(&h.name),
        owner: first_or_empty(&h.org_full_name, &h.created_by),
        description: first_or_empty(&h.chinese_name, &h.description),
        task: owned_or_empty(&h.first_task_name),
        downloads: match h.downloads {
            Some(d) => d,
            None => 0,
        },
        updated: owned_or_empty(&h.updated_at),
        path: owned_or_empty(&h.path),
    }
}

/// The search results for a query: those whose name matches it without
/// regard to case, most downloaded first (a stable order).
pub fn search_results(query: &str, hits: &Vec<CatalogHit>) -> (r: Vec<ModelBrief>)
    ensures
        brief_views(r@) == stable_sorted(
            kept_briefs(hits@, lowercase(query@)),
            |a: ModelBriefView, b: ModelBriefView| more_downloaded(a, b),
        ),
{
    let ghost gb = |a: ModelBriefView, b: ModelBriefView| more_downloaded(a, b);
    let q = to_lower(query);
    let mut found: Vec<ModelBrief> = Vec::new();
    let mut i: usize = 0;
    assert(hits@.take(0) =~= Seq::<CatalogHit>::empty());
    while i < hits.len()
        invariant
            i <= hits@.len(),
            q@ == lowercase(query@),
            brief_views(found@) == kept_briefs(hits@.take(i as int), q@),
        decreases hits@.len() - i,
    {
        assert(hits@.take(i + 1).drop_last() =~= hits@.take(i as int));
        let h = &hits[i];
        let keep = match &h.name {
            Some(n) => {
                let low = to_lower(n.as_str());
                str_contains(low.as_str(), q.as_str())
            },
            None => false,
        };
        if keep {
            let b = brief(h);
            let ghost before = found@;
            found.push(b);
            assert(brief_views(found@) =~= brief_views(before).push(brief_of(hits@[i as int])));
        }
        i += 1;
    }
    assert(hits@.take(i as int) =~= hits@);
    let ghost unsorted = brief_views(found@);
    let total = found.len();
    let mut rest = found;
    let mut out: Vec<ModelBrief> = Vec::new();
    let mut k: usize = 0;
    assert(unsorted.take(0) =~= Seq::<ModelBriefView>::empty());
    while rest.len() > 0
        invariant
            k <= unsorted.len(),
            unsorted.len() == total,
            brief_views(rest@) == unsorted.skip(k as int),
            brief_views(out@) == stable_sorted(unsorted.take(k as int), gb),
            gb == (|a: ModelBriefView, b: ModelBriefView| more_downloaded(a, b)),
        decreases rest@.len(),
    {
        assert(brief_views(rest@).len() == rest@.len());
        assert(unsorted.skip(k as int).len() == unsorted.len() - k);
        assert(brief_views(rest@)[0] == rest@[0]@);
        let ghost old_rest = rest@;
        let x = rest.remove(0);
        let ghost xv = x@;
        let mut p = out.len();
        while p > 0 && x.downloads > out[p - 1].downloads
            invariant
                p <= out@.len(),
                forall|j: int| p <= j < out@.len() ==> xv.downloads > #[trigger] out@[j]@.downloads,
                xv == x@,
            decreases p,
        {
            p -= 1;
        }
        proof {
            let ov = brief_views(out@);
            assert forall|j: int| p <= j < ov.len() implies gb(xv, #[trigger] ov[j]) by {
                assert(ov[j] == out@[j]@);
            }
            if p > 0 {
                assert(ov[p - 1] == out@[p - 1]@);
            }
            lemma_insert_stable_at(ov, xv, gb, p as int);
            lemma_stable_sorted_step(unsorted, k as int, gb);
        }
        let ghost before = out@;
        out.insert(p, x);
        assert(brief_views(out@) =~= brief_views(before).take(p as int).push(xv) + brief_views(before).skip(
            p as int,
        ));
        assert forall|j: int| 0 <= j < rest@.len() implies #[trigger] brief_views(rest@)[j] == unsorted.skip(
            k + 1,
        )[j] by {
            assert(rest@[j] == old_rest[j + 1]);
            assert(brief_views(old_rest)[j + 1] == old_rest[j + 1]@);
        }
        assert(brief_views(rest@) =~= unsorted.skip(k + 1));
        k += 1;
    }
    assert(unsorted.take(k as int) =~= unsorted);
    out
}

/// The groups of recommended models in the order they are shown.
pub open spec fn group_priority() -> Seq<Seq<char>> {
    seq!["Qwen系列"@, "DeepSeek"@, "GLM"@, "Yi系列"@, "Google"@, "Llama"@]
}

/// The families of recommended models in the order they are shown.
pub open spec fn family_priority() -> Seq<Seq<char>> {
    seq![
        "Qwen3"@,
        "Qwen2.5"@,
        "DeepSeek R1 Distill"@,
        "DeepSeek Coder"@,
        "GLM-Z1"@,
        "GLM-4"@,
        "ChatGLM3"@,
        "ChatGLM2"@,
        "Gemma 3"@,
        "Llama"@,
    ]
}

/// The position of `x` in `list`, or `usize::MAX` where it is not there.
pub open spec fn rank_in(list: Seq<Seq<char>>, x: Seq<char>) -> nat
    decreases list.len(),
{
    if list.len() == 0 {
        usize::MAX as nat
    } else if list[0] == x {
        0
    } else {
        let r = rank_in(list.drop_first(), x);
        if r == usize::MAX as nat {
            r
        } else {
            r + 1
        }
    }
}

fn rank_of(list: &Vec<&str>, x: &str) -> (r: usize)
    ensures
        r == rank_in(list@.map_values(|s: &str| s@), x@),
{
    let ghost all = list@.map_values(|s: &str| s@);
    let mut i: usize = 0;
    while i < list.len()
        invariant
            i <= list@.len(),
            all == list@.map_values(|s: &str| s@),
            forall|j: int| 0 <= j < i ==> all[j] != x@,
        decreases list@.len() - i,
    {
        if str_eq(list[i], x) {
            proof {
                lemma_rank_at(all, x@, i as int);
            }
            return i;
        }
        i += 1;
    }
    proof {
        lemma_rank_absent(all, x@);
    }
    usize::MAX
}

proof fn lemma_rank_at(list: Seq<Seq<char>>, x: Seq<char>, i: int)
    requires
        0 <= i < list.len(),
        list[i] == x,
        forall|j: int| 0 <= j < i ==> list[j] != x,
        i < usize::MAX,
    ensures
        rank_in(list, x) == i,
    decreases i,
{
    if i > 0 {
        lemma_rank_at(list.drop_first(), x, i - 1);
    }
}

proof fn lemma_rank_absent(list: Seq<Seq<char>>, x: Seq<char>)
    requires
        forall|j: int| 0 <= j < list.len() ==> list[j] != x,
    ensures
        rank_in(list, x) == usize::MAX as nat,
    decreases list.len(),
{
    if list.len() > 0 {
        lemma_rank_absent(list.drop_first(), x);
    }
}

/// The whole-number part of the order of recommended models: the group's
/// place, the family's place, then GGUF (with quantisations) before FP16.
/// (Models that tie are further ordered by their parameter size, a decimal
/// number read as a float.)
pub open spec fn official_rank_of(group: Option<Seq<char>>, family: Seq<char>, has_quant: bool) -> (nat, nat, nat) {
    (
        match group {
            Some(g) => rank_in(group_priority(), g),
            None => usize::MAX as nat,
        },
        rank_in(family_priority(), family),
        if has_quant {
            0
        } else {
            1
        },
    )
}

/// Computes the whole-number part of a recommended model's place in the list.
pub fn official_rank(m: &OfficialModel) -> (r: (usize, usize, u8))
    ensures
        (r.0 as nat, r.1 as nat, r.2 as nat) == official_rank_of(
            match m.group {
                Some(g) => Some(g@),
                None => None,
            },
            m.family@,
            m.quant is Some,
        ),
{
    let groups: Vec<&str> = vec!["Qwen系列", "DeepSeek", "GLM", "Yi系列", "Google", "Llama"];
    assert(groups@.map_values(|s: &str| s@) =~= group_priority());
    let families: Vec<&str> = vec![
        "Qwen3",
        "Qwen2.5",
        "DeepSeek R1 Distill",
        "DeepSeek Coder",
        "GLM-Z1",
        "GLM-4",
        "ChatGLM3",
        "ChatGLM2",
        "Gemma 3",
        "Llama",
    ];
    assert(families@.map_values(|s: &str| s@) =~= family_priority());
    let g = match &m.group {
        Some(g) => rank_of(&groups, g.as_str()),
        None => usize::MAX,
    };
    let f = rank_of(&families, m.family.as_str());
    let q: u8 = if m.quant.is_some() {
        0
    } else {
        1
    };
    (g, f, q)
}

/// The path of one entry of a repository's file list: its `Path`, or else
/// its `name`, where either is a string.
pub open spec fn listed_path(f: crate::json::JsonValue) -> Option<Seq<char>> {
    match crate::json::str_of(crate::json::member(f, "Path"@)) {
        Some(p) => Some(p),
        None => crate::json::str_of(crate::json::member(f, "name"@)),
    }
}

/// The listed paths, in order, of the entries that have one.
pub open spec fn listed_paths(files: Seq<crate::json::JsonValue>) -> Seq<Seq<char>>
    decreases files.len(),
{
    if files.len() == 0 {
        Seq::empty()
    } else {
        match listed_path(files.last()) {
            Some(p) => listed_paths(files.drop_last()).push(p),
            None => listed_paths(files.drop_last()),
        }
    }
}

/// The texts of a list of strings.
pub open spec fn string_texts(v: Seq<String>) -> Seq<Seq<char>> {
    v.map_values(|s: String| s@)
}

/// Reads a repository's file list from ModelScope's answer: the paths
/// listed under `Data`, which must be an array.
pub fn list_model_files(answer: &crate::json::JsonValue) -> (r: Result<Vec<String>, String>)
    ensures
        match crate::json::array_of(crate::json::member(*answer, "Data"@)) {
            Some(files) => r matches Ok(v) && string_texts(v@) == listed_paths(files),
            None => r matches Err(e) && e@ == "文件列表格式异常"@,
        },
{
    let files = match crate::json::as_array(crate::json::get(answer, "Data")) {
        Some(f) => f,
        None => return Err(text("文件列表格式异常")),
    };
    let mut out: Vec<String> = Vec::new();
    let mut i: usize = 0;
    assert(files@.take(0) =~= Seq::<crate::json::JsonValue>::empty());
    while i < files.len()
        invariant
            i <= files@.len(),
            string_texts(out@) == listed_paths(files@.take(i as int)),
        decreases files@.len() - i,
    {
        assert(files@.take(i + 1).drop_last() =~= files@.take(i as int));
        let f = &files[i];
        let p = match crate::json::as_str(crate::json::get(f, "Path")) {
            Some(p) => Some(p),
            None => crate::json::as_str(crate::json::get(f, "name")),
        };
        match p {
            Some(s) => {
                let ghost before = out@;
                out.push(String::from_str(s.as_str()));
                assert(string_texts(out@) =~= string_texts(before).push(s@));
            },
            None => {},
        }
        i += 1;
    }
    assert(files@.take(i as int) =~= files@);
    Ok(out)
}

/// A saved token as read back: the file's content trimmed.
pub fn read_token(content: &str) -> (r: String)
    ensures
        r@ == trim(content@),
{
    crate::text::trim_str(content)
}

/// Model files are listed by name, and the listing holds exactly the model
/// files found.
pub proof fn law_models_listed_by_name(files: Seq<FoundFile>)
    ensures
        ({
            let gb = |a: ModelInfoView, b: ModelInfoView| name_before(a, b);
            let listed = stable_sorted(model_infos(files), gb);
            &&& sorted_by(listed, gb)
            &&& listed.to_multiset() == model_infos(files).to_multiset()
        }),
{
    let gb = |a: ModelInfoView, b: ModelInfoView| name_before(a, b);
    assert forall|a: ModelInfoView| !#[trigger] gb(a, a) by {
        crate::sessions::lemma_str_less_irreflexive(a.name);
    }
    assert forall|a: ModelInfoView, b: ModelInfoView, c: ModelInfoView|
        #[trigger] gb(a, b) && #[trigger] gb(b, c) implies gb(a, c) by {
        crate::sessions::lemma_str_less_transitive(a.name, b.name, c.name);
    }
    assert forall|a: ModelInfoView, b: ModelInfoView, c: ModelInfoView|
        !#[trigger] gb(a, b) && !#[trigger] gb(b, c) implies !gb(a, c) by {
        crate::sessions::lemma_not_less_transitive(a.name, b.name, c.name);
    }
    lemma_stable_sorted(model_infos(files), gb);
}

/// Search results come most downloaded first, and they are exactly the
/// results whose name matches the query.
pub proof fn law_search_results_by_downloads(hits: Seq<CatalogHit>, query_lower: Seq<char>)
    ensures
        ({
            let gb = |a: ModelBriefView, b: ModelBriefView| more_downloaded(a, b);
            let listed = stable_sorted(kept_briefs(hits, query_lower), gb);
            &&& sorted_by(listed, gb)
            &&& listed.to_multiset() == kept_briefs(hits, query_lower).to_multiset()
        }),
{
    let gb = |a: ModelBriefView, b: ModelBriefView| more_downloaded(a, b);
    lemma_stable_sorted(kept_briefs(hits, query_lower), gb);
}

/// The hit that a kept result is the brief of: one whose name matched the query.
proof fn lemma_kept_source(hits: Seq<CatalogHit>, query_lower: Seq<char>, i: int) -> (j: int)
    requires
        0 <= i < kept_briefs(hits, query_lower).len(),
    ensures
        0 <= j < hits.len(),
        hit_kept(hits[j], query_lower),
        kept_briefs(hits, query_lower)[i] == brief_of(hits[j]),
    decreases hits.len(),
{
    let dl = hits.drop_last();
    let kd = kept_briefs(dl, query_lower);
    if i < kd.len() {
        let j = lemma_kept_source(dl, query_lower, i);
        assert(hits[j] == dl[j]);
        j
    } else {
        (hits.len() - 1) as int
    }
}

/// Every search result comes from a hit whose name matched the query: its
/// id and path are that hit's path, its name the hit's name, its owner the
/// hit's organisation full name where the hit has one (its creator
/// otherwise), its description the Chinese name where there is one (the
/// description otherwise), then the first task, the download count (zero
/// where unknown) and the update time. The result at `i` in the listing
/// comes from the hit at the returned index.
pub proof fn law_search_result_owner(hits: Seq<CatalogHit>, query_lower: Seq<char>, i: int) -> (j: int)
    requires
        0 <= i < stable_sorted(
            kept_briefs(hits, query_lower),
            |a: ModelBriefView, b: ModelBriefView| more_downloaded(a, b),
        ).len(),
    ensures
        ({
            let listed = stable_sorted(
                kept_briefs(hits, query_lower),
                |a: ModelBriefView, b: ModelBriefView| more_downloaded(a, b),
            );
            &&& 0 <= j < hits.len()
            &&& hit_kept(hits[j], query_lower)
            &&& listed[i].id == text_or_empty(hits[j].path)
            &&& listed[i].name == text_or_empty(hits[j].name)
            &&& listed[i].owner == (match hits[j].org_full_name {
                Some(o) => o@,
                None => text_or_empty(hits[j].created_by),
            })
            &&& listed[i].description == (match hits[j].chinese_name {
                Some(c) => c@,
                None => text_or_empty(hits[j].description),
            })
            &&& listed[i].task == text_or_empty(hits[j].first_task_name)
            &&& listed[i].downloads == (match hits[j].downloads {
                Some(d) => d,
                None => 0,
            })
            &&& listed[i].updated == text_or_empty(hits[j].updated_at)
            &&& listed[i].path == text_or_empty(hits[j].path)
        }),
{
    broadcast use vstd::seq_lib::group_to_multiset_ensures;

    let gb = |a: ModelBriefView, b: ModelBriefView| more_downloaded(a, b);
    let kept = kept_briefs(hits, query_lower);
    let listed = stable_sorted(kept, gb);
    lemma_stable_sorted(kept, gb);
    let x = listed[i];
    assert(listed.contains(x));
    assert(listed.to_multiset().count(x) > 0);
    assert(kept.to_multiset().count(x) > 0);
    assert(kept.contains(x));
    let k = choose|k: int| 0 <= k < kept.len() && kept[k] == x;
    lemma_kept_source(hits, query_lower, k)
}

} // verus!
