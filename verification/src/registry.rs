//! The models running side by side, each behind its own proxy port, and the
//! bookkeeping that starting, listing, unloading and stopping them needs.
use vstd::prelude::*;
use crate::json::push_quoted;
use crate::models::{after_last_slash, name_parts, plain_path};
use crate::router::ModelRouter;
use crate::text::{
    chars_of, contains, dec, lines, lossy_text, parse_unsigned, parse_unsigned_exec, push_digits, push_str,
    split, split_chars, split_lines, str_contains, str_eq, trim, trim_bounds, utf8_lossy, views,
};

use std::collections::HashMap;

verus! {

broadcast use {vstd::string::group_string_axioms, vstd::std_specs::hash::group_hash_axioms};

/// A model instance started by the launcher.
pub struct RunningModel {
    pub name: String,
    pub model_path: String,
    pub proxy_port: u16,
    pub llama_port: u16,
    pub pid: String,
    pub started_at: String,
    pub ctx: u32,
    pub vram_mb: u64,
    pub status: String,
    pub persistent: bool,
}

/// A running model as plain values.
#[verifier::ext_equal]
pub struct RunningModelView {
    pub name: Seq<char>,
    pub model_path: Seq<char>,
    pub proxy_port: u16,
    pub llama_port: u16,
    pub pid: Seq<char>,
    pub started_at: Seq<char>,
    pub ctx: u32,
    pub vram_mb: u64,
    pub status: Seq<char>,
    pub persistent: bool,
}

impl View for RunningModel {
    type V = RunningModelView;

    open spec fn view(&self) -> RunningModelView {
        RunningModelView {
            name: self.name@,
            model_path: self.model_path@,
            proxy_port: self.proxy_port,
            llama_port: self.llama_port,
            pid: self.pid@,
            started_at: self.started_at@,
            ctx: self.ctx,
            vram_mb: self.vram_mb,
            status: self.status@,
            persistent: self.persistent,
        }
    }
}

/// The views of a list of running models.
pub open spec fn model_views(v: Seq<RunningModel>) -> Seq<RunningModelView> {
    v.map_values(|m: RunningModel| m@)
}

/// The process id of a model, where its text reads as a `u32`.
pub open spec fn pid_of(pid: Seq<char>) -> Option<u32> {
    match parse_unsigned(pid, u32::MAX as nat) {
        Some(v) => Some(v as u32),
        None => None,
    }
}

/// Reads a process id.
pub fn parse_pid(pid: &str) -> (r: Option<u32>)
    ensures
        r == pid_of(pid@),
{
    let cs = chars_of(pid);
    assert(cs@.subrange(0, cs@.len() as int) =~= cs@);
    match parse_unsigned_exec(&cs, 0, cs.len(), u32::MAX as u64) {
        Some(v) => Some(v as u32),
        None => None,
    }
}

/// The port llama.cpp serves a model on: the one after its proxy port (wrapping).
pub open spec fn model_llama_port(port: u16) -> u16 {
    ((port + 1) % 65536) as u16
}

/// The name a started model goes by: the name given, or the model file's
/// stem, or `unknown`.
pub open spec fn started_model_name(model_name: Seq<char>, stem: Option<Seq<char>>) -> Seq<char> {
    if model_name.len() > 0 {
        model_name
    } else {
        match stem {
            Some(s) => s,
            None => "unknown"@,
        }
    }
}

/// `Path::file_stem`, where it is valid Unicode. Its contract claims what
/// std documents for a [`plain_path`]: the file name up to its last `.`,
/// all of it where there is no `.` or the only one leads; and none for the
/// empty path, which has no file name. Of other paths,
/// where the separators and prefixes of the platform count, nothing is
/// claimed.
#[verifier::external_body]
pub(crate) fn path_file_stem(path: &str) -> (r: Option<String>)
    ensures
        plain_path(path@) ==> crate::catalog::opt_text(r) == Some(name_parts(after_last_slash(path@)).0),
        path@.len() == 0 ==> r is None,
{
    std::path::Path::new(path).file_stem().and_then(|s| s.to_str()).map(|s| s.to_string())
}

/// The JSON text of a running model, keys in order.
pub open spec fn running_model_json(m: RunningModelView) -> Seq<char> {
    "{\"ctx\":"@ + dec(m.ctx as nat) + ",\"llama_port\":"@ + dec(m.llama_port as nat) + ",\"model_path\":"@
        + crate::json::quoted(m.model_path) + ",\"name\":"@ + crate::json::quoted(m.name) + ",\"persistent\":"@
        + (if m.persistent {
        "true"@
    } else {
        "false"@
    }) + ",\"pid\":"@ + crate::json::quoted(m.pid) + ",\"proxy_port\":"@ + dec(m.proxy_port as nat)
        + ",\"started_at\":"@ + crate::json::quoted(m.started_at) + ",\"status\":"@ + crate::json::quoted(
        m.status,
    ) + ",\"vram_mb\":"@ + dec(m.vram_mb as nat) + "}"@
}

/// Writes a running model as JSON.
pub fn running_model_to_json(m: &RunningModel) -> (r: String)
    ensures
        r@ == running_model_json(m@),
{
    let mut s = String::new();
    push_str(&mut s, "{\"ctx\":");
    push_digits(&mut s, m.ctx as u128, 10);
    push_str(&mut s, ",\"llama_port\":");
    push_digits(&mut s, m.llama_port as u128, 10);
    push_str(&mut s, ",\"model_path\":");
    push_quoted(&mut s, m.model_path.as_str());
    push_str(&mut s, ",\"name\":");
    push_quoted(&mut s, m.name.as_str());
    push_str(&mut s, ",\"persistent\":");
    if m.persistent {
        push_str(&mut s, "true");
    } else {
        push_str(&mut s, "false");
    }
    push_str(&mut s, ",\"pid\":");
    push_quoted(&mut s, m.pid.as_str());
    push_str(&mut s, ",\"proxy_port\":");
    push_digits(&mut s, m.proxy_port as u128, 10);
    push_str(&mut s, ",\"started_at\":");
    push_quoted(&mut s, m.started_at.as_str());
    push_str(&mut s, ",\"status\":");
    push_quoted(&mut s, m.status.as_str());
    push_str(&mut s, ",\"vram_mb\":");
    push_digits(&mut s, m.vram_mb as u128, 10);
    push_str(&mut s, "}");
    assert(s@ =~= running_model_json(m@));
    s
}

/// The name a started model goes by, from the name given and the stem of
/// its file name.
pub fn model_display_name(model_name: String, stem: Option<String>) -> (r: String)
    ensures
        r@ == started_model_name(model_name@, match stem {
            Some(s) => Some(s@),
            None => None,
        }),
{
    if chars_of(model_name.as_str()).len() > 0 {
        model_name
    } else {
        match stem {
            Some(s) => s,
            None => String::from_str("unknown"),
        }
    }
}

/// Some listed model already has a proxy on `port`.
pub open spec fn port_taken(models: Seq<RunningModel>, port: u16) -> bool {
    exists|i: int| 0 <= i < models.len() && #[trigger] models[i].proxy_port == port
}

/// What registering a started model gives back: its JSON text and whether
/// a proxy must be started for its port.
pub struct Registered {
    pub json: String,
    pub needs_proxy: bool,
}

/// Registers a started model: its name in the routing table at `port`, the
/// model at the end of the list (running, no VRAM measured yet, persistent),
/// and whether no earlier model had a proxy on that port.
pub fn register_model(
    models: &mut Vec<RunningModel>,
    router: &mut ModelRouter,
    model_path: String,
    model_name: String,
    port: u16,
    ctx: u32,
    pid: u32,
    started_at: String,
) -> (r: Registered)
    ensures
        final(models)@.len() == old(models)@.len() + 1,
        model_views(final(models)@).drop_last() == model_views(old(models)@),
        ({
            let m = final(models)@.last()@;
            &&& model_name@.len() > 0 ==> m.name == model_name@
            &&& model_name@.len() == 0 && plain_path(model_path@) ==> m.name == name_parts(
                after_last_slash(model_path@),
            ).0
            &&& m.model_path == model_path@
            &&& m.proxy_port == port
            &&& m.llama_port == model_llama_port(port)
            &&& m.pid == dec(pid as nat)
            &&& m.started_at == started_at@
            &&& m.ctx == ctx
            &&& m.vram_mb == 0
            &&& m.status == "running"@
            &&& m.persistent
            &&& final(router)@ == old(router)@.insert(m.name, port)
            &&& r.json@ == running_model_json(m)
        }),
        r.needs_proxy == !port_taken(old(models)@, port),
{
    let stem = if chars_of(model_name.as_str()).len() > 0 {
        None
    } else {
        path_file_stem(model_path.as_str())
    };
    let name = model_display_name(model_name, stem);
    let llama_port = if port == 65535 {
        0
    } else {
        port + 1
    };
    let mut pid_text = String::new();
    push_digits(&mut pid_text, pid as u128, 10);
    let mut taken = false;
    let mut i: usize = 0;
    while i < models.len()
        invariant
            i <= models@.len(),
            taken == exists|j: int| 0 <= j < i && #[trigger] models@[j].proxy_port == port,
        decreases models@.len() - i,
    {
        if models[i].proxy_port == port {
            taken = true;
        }
        i += 1;
    }
    router.insert(String::from_str(name.as_str()), port);
    let m = RunningModel {
        name,
        model_path,
        proxy_port: port,
        llama_port,
        pid: pid_text,
        started_at,
        ctx,
        vram_mb: 0,
        status: String::from_str("running"),
        persistent: true,
    };
    let json = running_model_to_json(&m);
    let ghost before = models@;
    models.push(m);
    assert(model_views(models@).drop_last() =~= model_views(before));
    Registered { json, needs_proxy: !taken }
}

/// The position of the first model named `name`.
pub open spec fn first_named(models: Seq<RunningModel>, name: Seq<char>, from: int) -> Option<int>
    decreases models.len() - from,
{
    if from < 0 || from >= models.len() {
        None
    } else if models[from].name@ == name {
        Some(from)
    } else {
        first_named(models, name, from + 1)
    }
}

/// What unloading a model gives back: the message, and the process to kill
/// where the model's process id reads as a number.
pub struct Unloaded {
    pub message: String,
    pub pid: Option<u32>,
}

/// Unloads the first model named `name`: it leaves the list and its name
/// leaves the routing table. Fails, changing nothing, where no model has that name.
pub fn unload_model(models: &mut Vec<RunningModel>, router: &mut ModelRouter, name: &str) -> (r: Result<
    Unloaded,
    String,
>)
    ensures
        match first_named(old(models)@, name@, 0) {
            Some(i) => {
                &&& r is Ok
                &&& final(models)@ == old(models)@.remove(i)
                &&& final(router)@ == old(router)@.remove(old(models)@[i].name@)
                &&& r->Ok_0.message@ == "已卸载模型: "@ + old(models)@[i].name@
                &&& r->Ok_0.pid == pid_of(old(models)@[i].pid@)
            },
            None => {
                &&& r is Err
                &&& r->Err_0@ == "未找到模型: "@ + name@
                &&& final(models)@ == old(models)@
                &&& final(router)@ == old(router)@
            },
        },
{
    let mut i: usize = 0;
    while i < models.len()
        invariant
            i <= models@.len(),
            models@ == old(models)@,
            router@ == old(router)@,
            first_named(models@, name@, 0) == first_named(models@, name@, i as int),
        decreases models@.len() - i,
    {
        if str_eq(models[i].name.as_str(), name) {
            let m = models.remove(i);
            router.remove(m.name.as_str());
            let mut message = String::from_str("已卸载模型: ");
            push_str(&mut message, m.name.as_str());
            let pid = parse_pid(m.pid.as_str());
            return Ok(Unloaded { message, pid });
        }
        i += 1;
    }
    let mut e = String::from_str("未找到模型: ");
    push_str(&mut e, name);
    Err(e)
}

/// The VRAM (in MiB) of each process the GPU listing names: the value of
/// its last entry in the listing.
pub open spec fn vram_map(pairs: Seq<(u32, u64)>) -> Map<u32, u64>
    decreases pairs.len(),
{
    if pairs.len() == 0 {
        Map::empty()
    } else {
        vram_map(pairs.drop_last()).insert(pairs.last().0, pairs.last().1)
    }
}

/// The VRAM of a process in MiB: what the map gives it, or zero.
pub open spec fn vram_lookup(vram: Map<u32, u64>, pid: u32) -> u64 {
    if vram.contains_key(pid) {
        vram[pid]
    } else {
        0
    }
}

/// Looks up the VRAM of a process.
pub fn vram_of(vram: &HashMap<u32, u64>, pid: u32) -> (r: u64)
    ensures
        r == vram_lookup(vram@, pid),
{
    match vram.get(&pid) {
        Some(v) => *v,
        None => 0,
    }
}

/// A model after a refresh: its VRAM from the GPU listing where its process
/// id reads, and `running`.
pub open spec fn refreshed(m: RunningModelView, vram: Map<u32, u64>) -> RunningModelView {
    RunningModelView {
        vram_mb: match pid_of(m.pid) {
            Some(p) => vram_lookup(vram, p),
            None => m.vram_mb,
        },
        status: "running"@,
        ..m
    }
}

/// The models still alive, refreshed, in their order.
pub open spec fn alive_models(ms: Seq<RunningModelView>, alive: Seq<bool>, vram: Map<u32, u64>) -> Seq<
    RunningModelView,
>
    decreases ms.len(),
{
    if ms.len() == 0 || alive.len() == 0 {
        Seq::empty()
    } else {
        let rest = alive_models(ms.drop_last(), alive.drop_last(), vram);
        if alive.last() {
            rest.push(refreshed(ms.last(), vram))
        } else {
            rest
        }
    }
}

/// Refreshes the list: each model's VRAM from the GPU listing, its status
/// from whether its process is alive (`alive`, one flag per model); models
/// that stopped leave the list.
pub fn refresh_models(models: &mut Vec<RunningModel>, vram: &HashMap<u32, u64>, alive: &Vec<bool>)
    requires
        alive@.len() == old(models)@.len(),
    ensures
        model_views(final(models)@) == alive_models(model_views(old(models)@), alive@, vram@),
{
    let mut rest: Vec<RunningModel> = Vec::new();
    std::mem::swap(&mut rest, models);
    let ghost orig = rest@;
    let total = rest.len();
    let mut k: usize = 0;
    assert(orig.take(0) =~= Seq::<RunningModel>::empty());
    while rest.len() > 0
        invariant
            k <= orig.len(),
            orig.len() == total,
            alive@.len() == total,
            rest@ == orig.skip(k as int),
            model_views(models@) == alive_models(model_views(orig.take(k as int)), alive@.take(k as int), vram@),
        decreases rest@.len(),
    {
        let mut m = rest.remove(0);
        assert(m == orig[k as int]);
        assert(model_views(orig.take(k + 1)).drop_last() =~= model_views(orig.take(k as int)));
        assert(alive@.take(k + 1).drop_last() =~= alive@.take(k as int));
        if alive[k] {
            match parse_pid(m.pid.as_str()) {
                Some(p) => {
                    m.vram_mb = vram_of(vram, p);
                },
                None => {},
            }
            m.status = String::from_str("running");
            let ghost before = models@;
            let ghost mv = m@;
            models.push(m);
            assert(mv =~= refreshed(orig[k as int]@, vram@));
            assert(model_views(models@) =~= model_views(before).push(mv));
        }
        assert(rest@ =~= orig.skip(k + 1));
        k += 1;
    }
    assert(orig.take(k as int) =~= orig);
    assert(alive@.take(k as int) =~= alive@);
}

/// The process ids of a list of models, where they read as numbers.
pub open spec fn pids_of(ms: Seq<RunningModel>) -> Seq<u32>
    decreases ms.len(),
{
    if ms.len() == 0 {
        Seq::empty()
    } else {
        match pid_of(ms.last().pid@) {
            Some(p) => pids_of(ms.drop_last()).push(p),
            None => pids_of(ms.drop_last()),
        }
    }
}

/// What stopping every model gives back: the message and the processes to kill.
pub struct Stopped {
    pub message: String,
    pub pids: Vec<u32>,
}

/// Stops every model: the list and the routing table are emptied.
pub fn stop_all_models(models: &mut Vec<RunningModel>, router: &mut ModelRouter) -> (r: Stopped)
    ensures
        final(models)@.len() == 0,
        final(router)@ == Map::<Seq<char>, u16>::empty(),
        r.pids@ == pids_of(old(models)@),
        r.message@ == "已停止 "@ + dec(old(models)@.len()) + " 个模型"@,
{
    let mut pids: Vec<u32> = Vec::new();
    let mut i: usize = 0;
    assert(models@.take(0) =~= Seq::<RunningModel>::empty());
    while i < models.len()
        invariant
            i <= models@.len(),
            pids@ == pids_of(models@.take(i as int)),
        decreases models@.len() - i,
    {
        assert(models@.take(i + 1).drop_last() =~= models@.take(i as int));
        match parse_pid(models[i].pid.as_str()) {
            Some(p) => pids.push(p),
            None => {},
        }
        i += 1;
    }
    assert(models@.take(models@.len() as int) =~= models@);
    let count = models.len();
    let mut message = String::from_str("已停止 ");
    push_digits(&mut message, count as u128, 10);
    push_str(&mut message, " 个模型");
    models.clear();
    router.clear();
    Stopped { message, pids }
}

/// `s` without every trailing copy of `p` (`str::trim_end_matches`).
pub open spec fn trim_end_matches(s: Seq<char>, p: Seq<char>) -> Seq<char>
    decreases s.len(),
{
    if p.len() > 0 && p.len() <= s.len() && s.skip(s.len() - p.len()) == p {
        trim_end_matches(s.take(s.len() - p.len()), p)
    } else {
        s
    }
}

/// Strips every trailing copy of `p` from `cs[from..to]`, giving the new end.
pub fn trim_end_matches_bound(cs: &Vec<char>, from: usize, to: usize, p: &Vec<char>) -> (e: usize)
    requires
        from <= to <= cs@.len(),
    ensures
        from <= e <= to,
        cs@.subrange(from as int, e as int) == trim_end_matches(cs@.subrange(from as int, to as int), p@),
{
    let mut e = to;
    if p.len() == 0 {
        return e;
    }
    loop
        invariant
            from <= e <= to <= cs@.len(),
            p@.len() > 0,
            trim_end_matches(cs@.subrange(from as int, to as int), p@) == trim_end_matches(
                cs@.subrange(from as int, e as int),
                p@,
            ),
        decreases e,
    {
        let ghost s = cs@.subrange(from as int, e as int);
        if p.len() > e - from {
            return e;
        }
        let start = e - p.len();
        let mut j: usize = 0;
        let mut same = true;
        while j < p.len()
            invariant
                start + p@.len() == e,
                from <= start,
                e <= cs@.len(),
                j <= p@.len(),
                same == forall|k: int| 0 <= k < j ==> cs@[start + k] == p@[k],
            decreases p@.len() - j,
        {
            if cs[start + j] != p[j] {
                same = false;
            }
            j += 1;
        }
        if same {
            assert(s.skip(s.len() - p@.len()) =~= p@);
            assert(s.take(s.len() - p@.len()) =~= cs@.subrange(from as int, start as int));
            e = start;
        } else {
            let ghost k = choose|k: int| 0 <= k < p@.len() && cs@[start + k] != p@[k];
            assert(s.skip(s.len() - p@.len())[k] != p@[k]);
            return e;
        }
    }
}

/// The process ids and VRAM use (in MiB) that `nvidia-smi
/// --query-compute-apps=pid,used_memory --format=csv,noheader` lists, one per
/// line: `pid, N MiB`; lines that do not read are skipped.
pub open spec fn vram_line(line: Seq<char>) -> Option<(u32, u64)> {
    let t = trim(line);
    let parts = split(t, ',');
    if t.len() == 0 || parts.len() < 2 {
        None
    } else {
        match parse_unsigned(trim(parts[0]), u32::MAX as nat) {
            Some(pid) => match parse_unsigned(
                trim(trim_end_matches(trim(parts[1]), " MiB"@)),
                u64::MAX as nat,
            ) {
                Some(mib) => Some((pid as u32, mib as u64)),
                None => None,
            },
            None => None,
        }
    }
}

/// The readable lines of the listing, in order.
pub open spec fn vram_entries(ls: Seq<Seq<char>>) -> Seq<(u32, u64)>
    decreases ls.len(),
{
    if ls.len() == 0 {
        Seq::empty()
    } else {
        match vram_line(ls.last()) {
            Some(e) => vram_entries(ls.drop_last()).push(e),
            None => vram_entries(ls.drop_last()),
        }
    }
}

fn parse_vram_line(line: &Vec<char>) -> (r: Option<(u32, u64)>)
    ensures
        r == vram_line(line@),
{
    let (a, b) = trim_bounds(line, 0, line.len());
    assert(line@.subrange(0, line@.len() as int) =~= line@);
    if a == b {
        return None;
    }
    let t = crate::text::string_of_range(line, a, b);
    let tc = chars_of(t.as_str());
    let parts = split_chars(&tc, ',');
    if parts.len() < 2 {
        return None;
    }
    assert(views(parts@)[0] == parts@[0]@);
    assert(views(parts@)[1] == parts@[1]@);
    let p0 = &parts[0];
    let (a0, b0) = trim_bounds(p0, 0, p0.len());
    assert(p0@.subrange(0, p0@.len() as int) =~= p0@);
    let pid = match parse_unsigned_exec(p0, a0, b0, u32::MAX as u64) {
        Some(v) => v as u32,
        None => return None,
    };
    let p1 = &parts[1];
    let (a1, b1) = trim_bounds(p1, 0, p1.len());
    assert(p1@.subrange(0, p1@.len() as int) =~= p1@);
    let suffix = chars_of(" MiB");
    let e1 = trim_end_matches_bound(p1, a1, b1, &suffix);
    let (a2, b2) = trim_bounds(p1, a1, e1);
    match parse_unsigned_exec(p1, a2, b2, u64::MAX) {
        Some(mib) => Some((pid, mib)),
        None => None,
    }
}

/// Parses what `nvidia-smi` lists of each process's VRAM use; nothing where
/// it did not run successfully.
pub fn get_gpu_process_vram(success: bool, stdout: &[u8]) -> (r: HashMap<u32, u64>)
    ensures
        r@ == vram_map(
            if success {
                vram_entries(lines(utf8_lossy(stdout@)))
            } else {
                Seq::empty()
            },
        ),
{
    let mut out: HashMap<u32, u64> = HashMap::new();
    if !success {
        return out;
    }
    let text = lossy_text(stdout);
    let cs = chars_of(text.as_str());
    let ls = split_lines(&cs);
    let ghost all = views(ls@);
    let mut i: usize = 0;
    assert(all.take(0) =~= Seq::<Seq<char>>::empty());
    while i < ls.len()
        invariant
            i <= ls@.len(),
            all == views(ls@),
            all == lines(utf8_lossy(stdout@)),
            out@ == vram_map(vram_entries(all.take(i as int))),
        decreases ls@.len() - i,
    {
        assert(all.take(i + 1).drop_last() =~= all.take(i as int));
        assert(all.take(i + 1).last() == ls@[i as int]@);
        match parse_vram_line(&ls[i]) {
            Some(e) => {
                out.insert(e.0, e.1);
                assert(vram_entries(all.take(i + 1)) == vram_entries(all.take(i as int)).push(e));
                assert(vram_entries(all.take(i + 1)).drop_last() =~= vram_entries(all.take(i as int)));
            },
            None => {},
        }
        i += 1;
    }
    assert(all.take(ls@.len() as int) =~= all);
    out
}

/// Whether a process listing (such as `tasklist` prints) mentions the process id.
pub fn process_listed(listing: &[u8], pid: &str) -> (r: bool)
    ensures
        r == contains(utf8_lossy(listing@), pid@),
{
    let text = lossy_text(listing);
    str_contains(text.as_str(), pid)
}

proof fn lemma_first_named_absent(s: Seq<RunningModel>, name: Seq<char>, from: int)
    requires
        0 <= from,
    ensures
        first_named(s, name, from) is None <==> forall|j: int| from <= j < s.len() ==> (#[trigger] s[j]).name@ != name,
    decreases s.len() - from,
{
    if from < s.len() {
        lemma_first_named_absent(s, name, from + 1);
    }
}

proof fn lemma_first_named_found(s: Seq<RunningModel>, name: Seq<char>, from: int, i: int)
    requires
        0 <= from <= i < s.len(),
        s[i].name@ == name,
        forall|j: int| from <= j < i ==> (#[trigger] s[j]).name@ != name,
    ensures
        first_named(s, name, from) == Some(i),
    decreases i - from,
{
    if from < i {
        lemma_first_named_found(s, name, from + 1, i);
    }
}

/// Unloading a model that was just registered, under a name no earlier
/// model had, undoes the registration: that model is the one unloaded, the
/// list is as it was before, and the name is no longer routed while every
/// other route stays as it was.
pub proof fn law_unload_undoes_register(
    before: Seq<RunningModel>,
    after: Seq<RunningModel>,
    routes: Map<Seq<char>, u16>,
    port: u16,
)
    requires
        after.len() == before.len() + 1,
        model_views(after).drop_last() == model_views(before),
        first_named(before, after.last().name@, 0) is None,
    ensures
        first_named(after, after.last().name@, 0) == Some(before.len() as int),
        model_views(after.remove(before.len() as int)) == model_views(before),
        routes.insert(after.last().name@, port).remove(after.last().name@) == routes.remove(after.last().name@),
{
    let n = after.last().name@;
    let k = before.len() as int;
    assert forall|j: int| 0 <= j < k implies (#[trigger] after[j]).name@ != n by {
        assert(model_views(after).drop_last()[j] == model_views(before)[j]);
        lemma_first_named_absent(before, n, 0);
        assert(before[j].name@ != n);
    }
    lemma_first_named_found(after, n, 0, k);
    assert(after.remove(k) =~= after.drop_last());
    assert(model_views(after.remove(k)) =~= model_views(after).drop_last());
    assert(routes.insert(n, port).remove(n) =~= routes.remove(n));
}

} // verus!
