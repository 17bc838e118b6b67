//! What the launcher makes of the machine it runs on: the GPU backend and
//! llama.cpp package it picks, the prebuilt packages it looks for, the CPU
//! details it reports, and the outcome of installing Python and pip.
use vstd::prelude::*;
use crate::json::{member, str_of, JsonValue};
use crate::text::{
    chars_of, contains, lines, lossy_text, parse_unsigned, parse_unsigned_exec, push_digits, push_str, split,
    split_chars, split_lines, str_contains, str_eq, string_of_range, trim, trim_bounds, utf8_lossy, views,
};

verus! {

broadcast use vstd::string::group_string_axioms;

/// The GPU backend picked for llama.cpp.
pub struct GpuInfo {
    pub backend: String,
    pub gpu_name: String,
    pub cuda_version: Option<String>,
    pub package_key: String,
}

fn text(s: &str) -> (r: String)
    ensures
        r@ == s@,
{
    String::from_str(s)
}

/// The NVIDIA driver's major version in `nvidia-smi`'s `name, driver_version`
/// line: the part after the first comma, trimmed, up to its first dot, read
/// as a number; zero where that does not read.
pub open spec fn driver_major(gpu: Seq<char>) -> nat {
    let parts = split(gpu, ',');
    let driver = trim(
        if parts.len() > 1 {
            parts[1]
        } else {
            Seq::empty()
        },
    );
    match parse_unsigned(split(driver, '.')[0], u32::MAX as nat) {
        Some(v) => v,
        None => 0,
    }
}

/// The CUDA version and package for a driver: 13.0 and `cuda-13.3` from
/// driver 570 on, 12.5 and `cuda-12.4` from 525 on, 12.0 and `cuda-12.4` below.
pub open spec fn cuda_for_driver(major: nat) -> (Seq<char>, Seq<char>) {
    if major >= 570 {
        ("13.0"@, "cuda-13.3"@)
    } else if major >= 525 {
        ("12.5"@, "cuda-12.4"@)
    } else {
        ("12.0"@, "cuda-12.4"@)
    }
}

/// What the launcher picks, given what `nvidia-smi` printed (where it ran
/// successfully), whether Vulkan answered, and whether the machine is ARM64:
/// CUDA for an NVIDIA GPU, else Vulkan, else the CPU build for the architecture.
pub open spec fn gpu_choice(nvidia: Option<Seq<u8>>, vulkan: bool, arm64: bool) -> (
    Seq<char>,
    Seq<char>,
    Option<Seq<char>>,
    Seq<char>,
) {
    match nvidia {
        Some(out) => {
            let name = trim(utf8_lossy(out));
            let (cuda, key) = cuda_for_driver(driver_major(name));
            ("cuda"@, name, Some(cuda), key)
        },
        None => if vulkan {
            ("vulkan"@, "Vulkan GPU"@, None, "vulkan-x64"@)
        } else {
            let arch = if arm64 {
                "arm64"@
            } else {
                "x64"@
            };
            ("cpu"@, "CPU ("@ + arch + ")"@, None, "cpu-"@ + arch)
        },
    }
}

/// The text of an optional string.
pub open spec fn opt_text(s: Option<String>) -> Option<Seq<char>> {
    match s {
        Some(t) => Some(t@),
        None => None,
    }
}

fn major_of(name: &str) -> (r: u32)
    ensures
        r == driver_major(name@),
{
    let cs = chars_of(name);
    let parts = split_chars(&cs, ',');
    let empty: Vec<char> = Vec::new();
    let second: &Vec<char> = if parts.len() > 1 {
        assert(views(parts@)[1] == parts@[1]@);
        &parts[1]
    } else {
        &empty
    };
    let (a, b) = trim_bounds(second, 0, second.len());
    assert(second@.subrange(0, second@.len() as int) =~= second@);
    let driver = string_of_range(second, a, b);
    let dc = chars_of(driver.as_str());
    let pieces = split_chars(&dc, '.');
    proof {
        crate::text::lemma_split_from_nonempty(dc@, '.', Seq::empty());
    }
    assert(views(pieces@)[0] == pieces@[0]@);
    let first = &pieces[0];
    assert(first@.subrange(0, first@.len() as int) =~= first@);
    match parse_unsigned_exec(first, 0, first.len(), u32::MAX as u64) {
        Some(v) => v as u32,
        None => 0,
    }
}

/// Picks the GPU backend and llama.cpp package: `nvidia` is what
/// `nvidia-smi --query-gpu=name,driver_version --format=csv,noheader`
/// printed where it ran successfully.
pub fn detect_gpu_internal(nvidia: Option<&[u8]>, vulkan: bool, arm64: bool) -> (r: GpuInfo)
    ensures
        (r.backend@, r.gpu_name@, opt_text(r.cuda_version), r.package_key@) == gpu_choice(
            match nvidia {
                Some(o) => Some(o@),
                None => None,
            },
            vulkan,
            arm64,
        ),
{
    match nvidia {
        Some(out) => {
            let t = lossy_text(out);
            let tc = chars_of(t.as_str());
            let (a, b) = trim_bounds(&tc, 0, tc.len());
            assert(tc@.subrange(0, tc@.len() as int) =~= tc@);
            let name = string_of_range(&tc, a, b);
            let major = major_of(name.as_str());
            let (cuda, key) = if major >= 570 {
                (text("13.0"), text("cuda-13.3"))
            } else if major >= 525 {
                (text("12.5"), text("cuda-12.4"))
            } else {
                (text("12.0"), text("cuda-12.4"))
            };
            GpuInfo { backend: text("cuda"), gpu_name: name, cuda_version: Some(cuda), package_key: key }
        },
        None => {
            if vulkan {
                GpuInfo {
                    backend: text("vulkan"),
                    gpu_name: text("Vulkan GPU"),
                    cuda_version: None,
                    package_key: text("vulkan-x64"),
                }
            } else {
                let arch = if arm64 {
                    "arm64"
                } else {
                    "x64"
                };
                let mut name = text("CPU (");
                push_str(&mut name, arch);
                push_str(&mut name, ")");
                let mut key = text("cpu-");
                push_str(&mut key, arch);
                GpuInfo { backend: text("cpu"), gpu_name: name, cuda_version: None, package_key: key }
            }
        },
    }
}

/// The prebuilt llama.cpp archive of a package (and the CUDA runtime archive
/// that goes with a CUDA package), as file names under `Downloads/llama.cpp`;
/// an unknown package is taken for the x64 CPU one.
pub open spec fn package_archives(key: Seq<char>) -> (Seq<char>, Option<Seq<char>>) {
    if key == "cuda-12.4"@ {
        ("llama-b9568-bin-win-cuda-12.4-x64.zip"@, Some("cudart-llama-bin-win-cuda-12.4-x64.zip"@))
    } else if key == "cuda-13.3"@ {
        ("llama-b9568-bin-win-cuda-13.3-x64.zip"@, Some("cudart-llama-bin-win-cuda-13.3-x64.zip"@))
    } else if key == "vulkan-x64"@ {
        ("llama-b9568-bin-win-vulkan-x64.zip"@, None)
    } else if key == "hip-radeon-x64"@ {
        ("llama-b9568-bin-win-hip-radeon-x64.zip"@, None)
    } else if key == "cpu-arm64"@ {
        ("llama-b9568-bin-win-cpu-arm64.zip"@, None)
    } else {
        ("llama-b9568-bin-win-cpu-x64.zip"@, None)
    }
}

/// Names the archives of a package.
pub fn llama_package_files(key: &str) -> (r: (String, Option<String>))
    ensures
        (r.0@, opt_text(r.1)) == package_archives(key@),
{
    if str_eq(key, "cuda-12.4") {
        (text("llama-b9568-bin-win-cuda-12.4-x64.zip"), Some(text("cudart-llama-bin-win-cuda-12.4-x64.zip")))
    } else if str_eq(key, "cuda-13.3") {
        (text("llama-b9568-bin-win-cuda-13.3-x64.zip"), Some(text("cudart-llama-bin-win-cuda-13.3-x64.zip")))
    } else if str_eq(key, "vulkan-x64") {
        (text("llama-b9568-bin-win-vulkan-x64.zip"), None)
    } else if str_eq(key, "hip-radeon-x64") {
        (text("llama-b9568-bin-win-hip-radeon-x64.zip"), None)
    } else if str_eq(key, "cpu-arm64") {
        (text("llama-b9568-bin-win-cpu-arm64.zip"), None)
    } else {
        (text("llama-b9568-bin-win-cpu-x64.zip"), None)
    }
}

/// The packages tried in turn when installing: the machine's own, then the
/// two CPU builds.
pub open spec fn package_candidates(key: Seq<char>) -> Seq<Seq<char>> {
    seq![key, "cpu-x64"@, "cpu-arm64"@]
}

/// The views of a list of strings.
pub open spec fn texts(v: Seq<String>) -> Seq<Seq<char>> {
    v.map_values(|s: String| s@)
}

/// Lists the packages to try in turn.
pub fn package_fallbacks(key: &str) -> (r: Vec<String>)
    ensures
        texts(r@) == package_candidates(key@),
{
    let v = vec![text(key), text("cpu-x64"), text("cpu-arm64")];
    assert(texts(v@) =~= package_candidates(key@));
    v
}

/// Every package the launcher knows, in the order it reports them.
pub open spec fn known_packages() -> Seq<Seq<char>> {
    seq!["cpu-x64"@, "cpu-arm64"@, "cuda-12.4"@, "cuda-13.3"@, "vulkan-x64"@, "hip-radeon-x64"@]
}

/// Lists every package the launcher knows.
pub fn all_packages() -> (r: Vec<String>)
    ensures
        texts(r@) == known_packages(),
{
    let v = vec![
        text("cpu-x64"),
        text("cpu-arm64"),
        text("cuda-12.4"),
        text("cuda-13.3"),
        text("vulkan-x64"),
        text("hip-radeon-x64"),
    ];
    assert(texts(v@) =~= known_packages());
    v
}

/// The packages whose archive is present, in order.
pub open spec fn present_packages(keys: Seq<Seq<char>>, present: Seq<bool>) -> Seq<Seq<char>>
    decreases keys.len(),
{
    if keys.len() == 0 || present.len() == 0 {
        Seq::empty()
    } else {
        let rest = present_packages(keys.drop_last(), present.drop_last());
        if present.last() {
            rest.push(keys.last())
        } else {
            rest
        }
    }
}

/// Keeps the packages whose archive is present (one flag per known package).
pub fn available_packages(present: &Vec<bool>) -> (r: Vec<String>)
    requires
        present@.len() == known_packages().len(),
    ensures
        texts(r@) == present_packages(known_packages(), present@),
{
    let keys = all_packages();
    let mut out: Vec<String> = Vec::new();
    let mut i: usize = 0;
    assert(known_packages().take(0) =~= Seq::<Seq<char>>::empty());
    while i < keys.len()
        invariant
            i <= keys@.len(),
            texts(keys@) == known_packages(),
            present@.len() == keys@.len(),
            texts(out@) == present_packages(known_packages().take(i as int), present@.take(i as int)),
        decreases keys@.len() - i,
    {
        assert(known_packages().take(i + 1).drop_last() =~= known_packages().take(i as int));
        assert(present@.take(i + 1).drop_last() =~= present@.take(i as int));
        assert(known_packages().take(i + 1).last() == keys@[i as int]@);
        if present[i] {
            let ghost before = out@;
            out.push(text(keys[i].as_str()));
            assert(texts(out@) =~= texts(before).push(keys@[i as int]@));
        }
        i += 1;
    }
    assert(known_packages().take(i as int) =~= known_packages());
    assert(present@.take(i as int) =~= present@);
    out
}

/// Whether the installed llama.cpp no longer fits the machine: it is
/// installed and the package recorded in `device.json` (where that file
/// parsed) is another one (a missing record counting as empty).
pub open spec fn update_needed_for(installed: bool, saved: Option<JsonValue>, key: Seq<char>) -> bool {
    match saved {
        Some(v) => installed && (match str_of(member(v, "package_key"@)) {
            Some(k) => k,
            None => ""@,
        }) != key,
        None => false,
    }
}

/// Decides whether an update is needed.
pub fn update_needed(installed: bool, saved: &Option<JsonValue>, key: &str) -> (r: bool)
    ensures
        r == update_needed_for(installed, *saved, key@),
{
    match saved {
        Some(v) => {
            let found = crate::json::as_str(crate::json::get(v, "package_key"));
            let same = match found {
                Some(k) => str_eq(k.as_str(), key),
                None => str_eq("", key),
            };
            installed && !same
        },
        None => false,
    }
}

/// Whether the backend must be (re)installed at start-up: unless the recorded
/// package is the machine's own and llama-server is in place.
pub open spec fn sync_needed(installed_key: Option<Seq<char>>, target: Seq<char>, server_present: bool) -> bool {
    match installed_key {
        Some(k) => k != target || !server_present,
        None => true,
    }
}

/// Decides whether the backend must be synced.
pub fn need_sync(installed_key: Option<&str>, target: &str, server_present: bool) -> (r: bool)
    ensures
        r == sync_needed(
            match installed_key {
                Some(k) => Some(k@),
                None => None,
            },
            target@,
            server_present,
        ),
{
    match installed_key {
        Some(k) => !str_eq(k, target) || !server_present,
        None => true,
    }
}

/// The bundled archive to install: among those whose file name mentions the
/// package, the first in name order.
pub open spec fn bundled_pick(names: Seq<String>, key: Seq<char>, i: int) -> bool {
    &&& 0 <= i < names.len()
    &&& contains(names[i]@, key)
    &&& forall|j: int|
        0 <= j < names.len() && j != i && contains(#[trigger] names[j]@, key) ==> crate::sessions::str_less(
            names[i]@,
            names[j]@,
        ) || names[i]@ == names[j]@ && i < j
}

/// Picks the bundled archive for a package among the archives' file names.
pub fn pick_bundled(names: &Vec<String>, key: &str) -> (r: Option<usize>)
    ensures
        match r {
            Some(i) => bundled_pick(names@, key@, i as int),
            None => forall|j: int| 0 <= j < names@.len() ==> !contains(#[trigger] names@[j]@, key@),
        },
{
    let mut best: Option<usize> = None;
    let mut i: usize = 0;
    while i < names.len()
        invariant
            i <= names@.len(),
            match best {
                Some(b) => b < i && contains(names@[b as int]@, key@) && forall|j: int|
                    0 <= j < i && j != b && contains(#[trigger] names@[j]@, key@) ==> crate::sessions::str_less(
                        names@[b as int]@,
                        names@[j]@,
                    ) || names@[b as int]@ == names@[j]@ && b < j,
                None => forall|j: int| 0 <= j < i ==> !contains(#[trigger] names@[j]@, key@),
            },
        decreases names@.len() - i,
    {
        if str_contains(names[i].as_str(), key) {
            match best {
                None => {
                    best = Some(i);
                },
                Some(b) => {
                    if crate::sessions::str_lt(names[i].as_str(), names[b].as_str()) {
                        proof {
                            assert forall|j: int|
                                0 <= j < i + 1 && j != i && contains(#[trigger] names@[j]@, key@) implies crate::sessions::str_less(
                                names@[i as int]@,
                                names@[j]@,
                            ) || names@[i as int]@ == names@[j]@ && (i as int) < j by {
                                if j != b {
                                    crate::sessions::lemma_str_less_transitive(
                                        names@[i as int]@,
                                        names@[b as int]@,
                                        names@[j]@,
                                    );
                                }
                            }
                        }
                        best = Some(i);
                    } else {
                        proof {
                            crate::sessions::lemma_str_less_total(names@[b as int]@, names@[i as int]@);
                        }
                    }
                },
            }
        }
        i += 1;
    }
    best
}

/// What running the Python installer gives: success, or its error output
/// decoded as text; an installer that did not start gives its start error.
pub open spec fn installer_outcome(output: Result<(bool, Seq<u8>), Seq<char>>) -> Result<Seq<char>, Seq<char>> {
    match output {
        Err(e) => Err("启动安装程序失败: "@ + e),
        Ok((true, _)) => Ok("Python 3.11 安装成功"@),
        Ok((false, stderr)) => Err("Python 安装失败: "@ + utf8_lossy(stderr)),
    }
}

/// The text of a `Result` of strings.
pub open spec fn result_text(r: Result<String, String>) -> Result<Seq<char>, Seq<char>> {
    match r {
        Ok(s) => Ok(s@),
        Err(e) => Err(e@),
    }
}

/// The view of a process's outcome: whether it succeeded and its error
/// output, or the error that kept it from starting.
pub open spec fn output_view(o: Result<(bool, Vec<u8>), String>) -> Result<(bool, Seq<u8>), Seq<char>> {
    match o {
        Ok((ok, bytes)) => Ok((ok, bytes@)),
        Err(e) => Err(e@),
    }
}

fn prefixed(prefix: &str, rest: &str) -> (r: String)
    ensures
        r@ == prefix@ + rest@,
{
    let mut s = text(prefix);
    push_str(&mut s, rest);
    s
}

/// The Python installer's arguments: quiet, for all users, on the path, without tests.
pub open spec fn python_installer_args() -> Seq<Seq<char>> {
    seq!["/quiet"@, "InstallAllUsers=1"@, "PrependPath=1"@, "Include_test=0"@]
}

/// Lists the Python installer's arguments.
pub fn python_installer_arguments() -> (r: Vec<String>)
    ensures
        texts(r@) == python_installer_args(),
{
    let v = vec![text("/quiet"), text("InstallAllUsers=1"), text("PrependPath=1"), text("Include_test=0")];
    assert(texts(v@) =~= python_installer_args());
    v
}

/// Reports how running the Python installer went.
pub fn run_python_installer(output: Result<(bool, Vec<u8>), String>) -> (r: Result<String, String>)
    ensures
        result_text(r) == installer_outcome(output_view(output)),
{
    match output {
        Err(e) => Err(prefixed("启动安装程序失败: ", e.as_str())),
        Ok((ok, stderr)) => {
            if ok {
                Ok(text("Python 3.11 安装成功"))
            } else {
                let t = lossy_text(stderr.as_slice());
                Err(prefixed("Python 安装失败: ", t.as_str()))
            }
        },
    }
}

/// What installing pip with `python -m ensurepip` gives.
pub open spec fn pip_outcome(output: Result<(bool, Seq<u8>), Seq<char>>) -> Result<Seq<char>, Seq<char>> {
    match output {
        Err(e) => Err("启动 pip 安装失败: "@ + e),
        Ok((true, _)) => Ok("pip 安装成功"@),
        Ok((false, stderr)) => Err("pip 安装失败: "@ + utf8_lossy(stderr)),
    }
}

/// Reports how installing pip went.
pub fn pip_install_result(output: Result<(bool, Vec<u8>), String>) -> (r: Result<String, String>)
    ensures
        result_text(r) == pip_outcome(output_view(output)),
{
    match output {
        Err(e) => Err(prefixed("启动 pip 安装失败: ", e.as_str())),
        Ok((ok, stderr)) => {
            if ok {
                Ok(text("pip 安装成功"))
            } else {
                let t = lossy_text(stderr.as_slice());
                Err(prefixed("pip 安装失败: ", t.as_str()))
            }
        },
    }
}

/// The CPU model in `wmic cpu get name`'s output: the first line after the
/// header that is not blank or `Name`, trimmed.
pub open spec fn cpu_model_in(ls: Seq<Seq<char>>) -> Option<Seq<char>>
    decreases ls.len(),
{
    if ls.len() == 0 {
        None
    } else if trim(ls[0]).len() > 0 && trim(ls[0]) != "Name"@ {
        Some(trim(ls[0]))
    } else {
        cpu_model_in(ls.drop_first())
    }
}

/// The core count in `wmic cpu get NumberOfCores`'s output: the first line
/// after the header that reads, trimmed, as a `u32`.
pub open spec fn cpu_cores_in(ls: Seq<Seq<char>>) -> Option<u32>
    decreases ls.len(),
{
    if ls.len() == 0 {
        None
    } else {
        match parse_unsigned(trim(ls[0]), u32::MAX as nat) {
            Some(v) => Some(v as u32),
            None => cpu_cores_in(ls.drop_first()),
        }
    }
}

/// The lines of a command's output after its header line.
pub open spec fn body_lines(out: Seq<u8>) -> Seq<Seq<char>> {
    let ls = lines(utf8_lossy(out));
    if ls.len() == 0 {
        ls
    } else {
        ls.skip(1)
    }
}

/// Reads the CPU model from `wmic cpu get name`'s output.
pub fn cpu_model(out: &[u8]) -> (r: Option<String>)
    ensures
        match r {
            Some(s) => cpu_model_in(body_lines(out@)) == Some(s@),
            None => cpu_model_in(body_lines(out@)) is None,
        },
{
    let t = lossy_text(out);
    let cs = chars_of(t.as_str());
    let ls = split_lines(&cs);
    let ghost all = views(ls@);
    let mut i: usize = 1;
    if ls.len() == 0 {
        return None;
    }
    while i < ls.len()
        invariant
            1 <= i <= ls@.len(),
            all == views(ls@),
            all == lines(utf8_lossy(out@)),
            cpu_model_in(all.skip(1)) == cpu_model_in(all.skip(i as int)),
        decreases ls@.len() - i,
    {
        let line = &ls[i];
        assert(all.skip(i as int)[0] == line@);
        let (a, b) = trim_bounds(line, 0, line.len());
        assert(line@.subrange(0, line@.len() as int) =~= line@);
        let s = string_of_range(line, a, b);
        if a < b && !str_eq(s.as_str(), "Name") {
            return Some(s);
        }
        assert(all.skip(i as int).drop_first() =~= all.skip(i + 1));
        i += 1;
    }
    assert(all.skip(i as int) =~= Seq::<Seq<char>>::empty());
    None
}

/// Reads the core count from `wmic cpu get NumberOfCores`'s output.
pub fn cpu_cores(out: &[u8]) -> (r: Option<u32>)
    ensures
        r == cpu_cores_in(body_lines(out@)),
{
    let t = lossy_text(out);
    let cs = chars_of(t.as_str());
    let ls = split_lines(&cs);
    let ghost all = views(ls@);
    let mut i: usize = 1;
    if ls.len() == 0 {
        return None;
    }
    while i < ls.len()
        invariant
            1 <= i <= ls@.len(),
            all == views(ls@),
            all == lines(utf8_lossy(out@)),
            cpu_cores_in(all.skip(1)) == cpu_cores_in(all.skip(i as int)),
        decreases ls@.len() - i,
    {
        let line = &ls[i];
        assert(all.skip(i as int)[0] == line@);
        let (a, b) = trim_bounds(line, 0, line.len());
        assert(line@.subrange(0, line@.len() as int) =~= line@);
        match parse_unsigned_exec(line, a, b, u32::MAX as u64) {
            Some(v) => {
                return Some(v as u32);
            },
            None => {},
        }
        assert(all.skip(i as int).drop_first() =~= all.skip(i + 1));
        i += 1;
    }
    assert(all.skip(i as int) =~= Seq::<Seq<char>>::empty());
    None
}

/// Reads a count such as `NUMBER_OF_PROCESSORS`.
pub fn parse_count(s: &str) -> (r: Option<u32>)
    ensures
        r == (match parse_unsigned(s@, u32::MAX as nat) {
            Some(v) => Some(v as u32),
            None => None::<u32>,
        }),
{
    let cs = chars_of(s);
    assert(cs@.subrange(0, cs@.len() as int) =~= cs@);
    match parse_unsigned_exec(&cs, 0, cs.len(), u32::MAX as u64) {
        Some(v) => Some(v as u32),
        None => None,
    }
}

/// The arguments that install the ModelScope SDK with pip, from the Aliyun mirror.
pub open spec fn modelscope_install_args() -> Seq<Seq<char>> {
    seq!["install"@, "modelscope"@, "-i"@, "https://mirrors.aliyun.com/pypi/simple/"@]
}

/// Lists the arguments that install the ModelScope SDK.
pub fn modelscope_install_arguments() -> (r: Vec<String>)
    ensures
        texts(r@) == modelscope_install_args(),
{
    let v = vec![text("install"), text("modelscope"), text("-i"), text("https://mirrors.aliyun.com/pypi/simple/")];
    assert(texts(v@) =~= modelscope_install_args());
    v
}

/// The error of a failed SDK installation: the first 300 characters of
/// pip's error output, decoded as text.
pub open spec fn modelscope_failure_text(stderr: Seq<u8>) -> Seq<char> {
    let t = utf8_lossy(stderr);
    "安装 modelscope 失败: "@ + if t.len() <= 300 {
        t
    } else {
        t.take(300)
    }
}

/// Writes the error of a failed SDK installation.
pub fn modelscope_failure(stderr: &[u8]) -> (r: String)
    ensures
        r@ == modelscope_failure_text(stderr@),
{
    let t = lossy_text(stderr);
    let cs = chars_of(t.as_str());
    let n = if cs.len() <= 300 {
        cs.len()
    } else {
        300
    };
    let preview = string_of_range(&cs, 0, n);
    assert(cs@.len() <= 300 ==> cs@.subrange(0, n as int) =~= cs@);
    assert(cs@.len() > 300 ==> cs@.subrange(0, n as int) =~= cs@.take(300));
    prefixed("安装 modelscope 失败: ", preview.as_str())
}

} // verus!
