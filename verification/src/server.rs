//! The single llama-server behind the launcher: its ports and command line,
//! the decisions of starting, waking, sleeping and stopping it, and the log
//! of its wake and sleep events.
use vstd::prelude::*;
use crate::calendar::{iso_text, now_iso};
use crate::models::{after_last_slash, name_parts, plain_path};
use crate::json::{as_str, get, str_of, member, JsonValue};
use crate::text::{dec, push_digits, push_str, str_eq};

verus! {

broadcast use vstd::string::group_string_axioms;

/// The port llama-server listens on behind a user port: the next one, or
/// 20001 where the user port is the last.
pub open spec fn server_llama_port(port: u16) -> u16 {
    if port >= 65535 {
        20001
    } else {
        (port + 1) as u16
    }
}

/// Computes the llama-server port.
pub fn llama_port_for(port: u16) -> (r: u16)
    ensures
        r == server_llama_port(port),
{
    if port >= 65535 {
        20001
    } else {
        port + 1
    }
}

/// The views of a list of strings.
pub open spec fn arg_views(v: Seq<String>) -> Seq<Seq<char>> {
    v.map_values(|s: String| s@)
}

/// llama-server's arguments: the model (unless it starts without one, in
/// standby), the host, the port and the context size.
pub open spec fn server_args(model_path: Seq<char>, llama_port: u16, ctx: u32, load_model: bool) -> Seq<Seq<char>> {
    (if load_model {
        seq!["-m"@, model_path]
    } else {
        Seq::empty()
    }) + seq!["--host"@, "127.0.0.1"@, "--port"@, dec(llama_port as nat), "-c"@, dec(ctx as nat)]
}

fn text(s: &str) -> (r: String)
    ensures
        r@ == s@,
{
    String::from_str(s)
}

fn number_text(n: u32) -> (r: String)
    ensures
        r@ == dec(n as nat),
{
    let mut s = String::new();
    push_digits(&mut s, n as u128, 10);
    s
}

/// Builds llama-server's arguments.
pub fn server_arguments(model_path: &str, llama_port: u16, ctx: u32, load_model: bool) -> (r: Vec<String>)
    ensures
        arg_views(r@) == server_args(model_path@, llama_port, ctx, load_model),
{
    let mut v: Vec<String> = Vec::new();
    if load_model {
        v.push(text("-m"));
        v.push(text(model_path));
    }
    v.push(text("--host"));
    v.push(text("127.0.0.1"));
    v.push(text("--port"));
    v.push(number_text(llama_port as u32));
    v.push(text("-c"));
    v.push(number_text(ctx));
    assert(arg_views(v@) =~= server_args(model_path@, llama_port, ctx, load_model));
    v
}

/// The arguments of a model started beside others: the model, the host, its
/// llama.cpp port, the context size, and all layers on the GPU.
pub open spec fn model_args(model_path: Seq<char>, llama_port: u16, ctx: u32) -> Seq<Seq<char>> {
    server_args(model_path, llama_port, ctx, true) + seq!["-ngl"@, "99"@]
}

/// Builds the arguments of a model started beside others.
pub fn model_arguments(model_path: &str, llama_port: u16, ctx: u32) -> (r: Vec<String>)
    ensures
        arg_views(r@) == model_args(model_path@, llama_port, ctx),
{
    let mut v = server_arguments(model_path, llama_port, ctx, true);
    let ghost before = v@;
    v.push(text("-ngl"));
    v.push(text("99"));
    assert(arg_views(v@) =~= arg_views(before) + seq!["-ngl"@, "99"@]);
    v
}

/// What the server was last started with.
pub struct SpawnParams {
    pub llama_path: String,
    pub model_path: String,
    pub port: u16,
    pub ctx: u32,
}

/// What the launcher knows of its server.
pub struct ServerControl {
    /// A start is under way.
    pub starting: bool,
    /// The server runs without a model loaded.
    pub standby: bool,
    /// The proxy in front of it has been started.
    pub proxy_running: bool,
    /// The parameters of the last start.
    pub params: Option<SpawnParams>,
    /// The name of the model it serves.
    pub model_name: String,
}

/// The same control state with its mode set to standby or not.
pub open spec fn with_standby(c: ServerControl, standby: bool) -> ServerControl {
    ServerControl {
        starting: c.starting,
        standby,
        proxy_running: c.proxy_running,
        params: c.params,
        model_name: c.model_name,
    }
}

impl ServerControl {
    /// A server that was never started.
    pub fn new() -> (r: ServerControl)
        ensures
            !r.starting,
            !r.standby,
            !r.proxy_running,
            r.params is None,
            r.model_name@ == Seq::<char>::empty(),
    {
        ServerControl {
            starting: false,
            standby: false,
            proxy_running: false,
            params: None,
            model_name: String::new(),
        }
    }
}

/// The state of the server process the launcher holds, if any.
pub enum ChildState {
    /// It holds none.
    Absent,
    /// It has exited.
    Exited,
    /// It is still running.
    Running,
    /// Asking failed, with this error.
    Unknown(String),
}

/// The next step of a start.
pub enum StartStep {
    /// Answer the caller with this.
    Reply(Result<String, String>),
    /// Start llama-server with these arguments.
    Spawn(Vec<String>),
}

/// The name the server's model goes by: the model file's stem, or `model`.
pub open spec fn server_model_name(stem: Option<Seq<char>>) -> Seq<char> {
    match stem {
        Some(s) => s,
        None => "model"@,
    }
}

/// The text of an optional string.
pub open spec fn opt_text(s: Option<String>) -> Option<Seq<char>> {
    match s {
        Some(t) => Some(t@),
        None => None,
    }
}

fn joined(a: &str, b: &str) -> (r: String)
    ensures
        r@ == a@ + b@,
{
    let mut s = String::from_str(a);
    push_str(&mut s, b);
    s
}

/// The first half of a start: refuse while another start is under way;
/// answer without starting while the held process still runs (or cannot be
/// asked); otherwise record the model's name (its file's stem, `model` where
/// it has none), the parameters and the mode,
/// and spawn llama-server on its port (with the model unless in standby).
pub fn begin_start(
    ctrl: &mut ServerControl,
    child: ChildState,
    llama_path: String,
    model_path: String,
    port: u16,
    ctx: u32,
    standby: bool,
) -> (r: StartStep)
    ensures
        old(ctrl).starting ==> {
            &&& *final(ctrl) == *old(ctrl)
            &&& r matches StartStep::Reply(Err(e)) && e@ == "服务器正在启动中"@
        },
        !old(ctrl).starting && child is Running ==> {
            &&& *final(ctrl) == *old(ctrl)
            &&& r matches StartStep::Reply(Ok(m)) && m@ == "服务器已在运行中"@
        },
        !old(ctrl).starting && child is Unknown ==> {
            &&& *final(ctrl) == *old(ctrl)
            &&& r matches StartStep::Reply(Err(e)) && e@ == "检查服务器状态失败: "@ + child->Unknown_0@
        },
        !old(ctrl).starting && (child is Absent || child is Exited) ==> {
            &&& final(ctrl).starting
            &&& final(ctrl).standby == standby
            &&& final(ctrl).proxy_running == old(ctrl).proxy_running
            &&& plain_path(model_path@) ==> final(ctrl).model_name@ == name_parts(after_last_slash(model_path@)).0
            &&& model_path@.len() == 0 ==> final(ctrl).model_name@ == server_model_name(None)
            &&& final(ctrl).params matches Some(p) && p.llama_path == llama_path && p.model_path == model_path
                && p.port == port && p.ctx == ctx
            &&& r matches StartStep::Spawn(args) && arg_views(args@) == server_args(
                model_path@,
                server_llama_port(port),
                ctx,
                !standby,
            )
        },
{
    if ctrl.starting {
        return StartStep::Reply(Err(text("服务器正在启动中")));
    }
    match child {
        ChildState::Running => {
            return StartStep::Reply(Ok(text("服务器已在运行中")));
        },
        ChildState::Unknown(e) => {
            return StartStep::Reply(Err(joined("检查服务器状态失败: ", e.as_str())));
        },
        _ => {},
    }
    ctrl.starting = true;
    ctrl.model_name = match crate::registry::path_file_stem(model_path.as_str()) {
        Some(s) => s,
        None => text("model"),
    };
    let args = server_arguments(model_path.as_str(), llama_port_for(port), ctx, !standby);
    ctrl.params = Some(SpawnParams { llama_path, model_path, port, ctx });
    ctrl.standby = standby;
    StartStep::Spawn(args)
}

/// The second half of a start, once llama-server was spawned (its process
/// id) or failed to spawn (the error): the start is over; the proxy is to be
/// started where it was not running yet.
pub fn finish_start(ctrl: &mut ServerControl, spawned: Result<u32, String>, port: u16) -> (r: (
    Result<String, String>,
    bool,
))
    ensures
        !final(ctrl).starting,
        final(ctrl).standby == old(ctrl).standby,
        final(ctrl).params == old(ctrl).params,
        final(ctrl).model_name == old(ctrl).model_name,
        match spawned {
            Err(e) => {
                &&& final(ctrl).proxy_running == old(ctrl).proxy_running
                &&& !r.1
                &&& r.0 matches Err(m) && m@ == "启动服务器失败: "@ + e@
            },
            Ok(pid) => {
                &&& final(ctrl).proxy_running
                &&& r.1 == !old(ctrl).proxy_running
                &&& r.0 matches Ok(m) && m@ == "服务器已启动 (PID: "@ + dec(pid as nat) + ", 端口: "@ + dec(
                    port as nat,
                ) + ", 模式: "@ + (if old(ctrl).standby {
                    "待机"@
                } else {
                    "运行"@
                }) + ")"@
            },
        },
{
    ctrl.starting = false;
    match spawned {
        Err(e) => (Err(joined("启动服务器失败: ", e.as_str())), false),
        Ok(pid) => {
            let start_proxy = !ctrl.proxy_running;
            ctrl.proxy_running = true;
            let mut m = text("服务器已启动 (PID: ");
            push_digits(&mut m, pid as u128, 10);
            push_str(&mut m, ", 端口: ");
            push_digits(&mut m, port as u128, 10);
            push_str(&mut m, ", 模式: ");
            if ctrl.standby {
                push_str(&mut m, "待机");
            } else {
                push_str(&mut m, "运行");
            }
            push_str(&mut m, ")");
            (Ok(m), start_proxy)
        },
    }
}

/// What stopping the server answers: an error where no process was held or
/// it could not be killed; otherwise it leaves standby.
pub fn stop_outcome(ctrl: &mut ServerControl, held: bool, killed: Result<(), String>) -> (r: Result<String, String>)
    ensures
        !held ==> *final(ctrl) == *old(ctrl) && (r matches Err(e) && e@ == "服务器未在运行"@),
        held && killed is Err ==> *final(ctrl) == *old(ctrl) && (r matches Err(e) && e@ == "停止服务器失败: "@
            + killed->Err_0@),
        held && killed is Ok ==> final(ctrl).standby == false && final(ctrl).starting == old(ctrl).starting
            && final(ctrl).proxy_running == old(ctrl).proxy_running && final(ctrl).params == old(ctrl).params
            && final(ctrl).model_name == old(ctrl).model_name && (r matches Ok(m) && m@ == "服务器已停止"@),
{
    if !held {
        return Err(text("服务器未在运行"));
    }
    match killed {
        Err(e) => Err(joined("停止服务器失败: ", e.as_str())),
        Ok(()) => {
            ctrl.standby = false;
            Ok(text("服务器已停止"))
        },
    }
}

/// One wake or sleep event.
pub struct SleepLogEntry {
    pub action: String,
    pub timestamp: String,
    pub duration_ms: Option<u64>,
    pub detail: Option<String>,
}

/// The most wake and sleep events kept.
pub const SLEEP_LOG_CAPACITY: usize = 100;

/// The latest wake and sleep events, oldest first, at most a hundred.
pub struct SleepLog {
    entries: Vec<SleepLogEntry>,
}

impl SleepLog {
    #[verifier::type_invariant]
    spec fn within_capacity(self) -> bool {
        self.entries@.len() <= SLEEP_LOG_CAPACITY
    }

    /// The events kept, oldest first.
    pub closed spec fn events(self) -> Seq<SleepLogEntry> {
        self.entries@
    }

    /// An empty log.
    pub fn new() -> (r: SleepLog)
        ensures
            r.events().len() == 0,
    {
        SleepLog { entries: Vec::new() }
    }

    /// Adds an event; the oldest one goes where the log would outgrow its capacity.
    pub fn record(&mut self, entry: SleepLogEntry)
        ensures
            final(self).events() == (if old(self).events().len() < SLEEP_LOG_CAPACITY {
                old(self).events().push(entry)
            } else {
                old(self).events().push(entry).drop_first()
            }),
    {
        proof {
            use_type_invariant(&*self);
        }
        let mut entries: Vec<SleepLogEntry> = Vec::new();
        std::mem::swap(&mut entries, &mut self.entries);
        let ghost before = entries@;
        entries.push(entry);
        if entries.len() > SLEEP_LOG_CAPACITY {
            entries.remove(0);
            assert(entries@ =~= before.push(entry).drop_first());
        }
        self.entries = entries;
    }

    /// The events, oldest first.
    pub fn entries(&self) -> (r: &Vec<SleepLogEntry>)
        ensures
            r@ == self.events(),
            r@.len() <= SLEEP_LOG_CAPACITY,
    {
        proof {
            use_type_invariant(self);
        }
        &self.entries
    }
}

/// `after` is `before` with its last event appended, the oldest event
/// dropped where the log was full: every earlier event stays, in order.
pub open spec fn appended(before: Seq<SleepLogEntry>, after: Seq<SleepLogEntry>) -> bool {
    after == (if before.len() < SLEEP_LOG_CAPACITY {
        before.push(after.last())
    } else {
        before.push(after.last()).drop_first()
    })
}

/// An event stamped with the `YYYY-MM-DD HH:MM:SS` text of some clock
/// reading, as [`now_iso`] gives it.
pub open spec fn stamped_now(e: SleepLogEntry) -> bool {
    exists|secs: u64| e.timestamp@ == iso_text(secs as nat)
}

/// Records a wake or sleep event stamped with the current time.
pub fn log_sleep_event(log: &mut SleepLog, action: &str, duration_ms: Option<u64>, detail: Option<String>)
    ensures
        ({
            let e = final(log).events().last();
            &&& e.action@ == action@
            &&& e.duration_ms == duration_ms
            &&& e.detail == detail
            &&& stamped_now(e)
        }),
        appended(old(log).events(), final(log).events()),
{
    let entry = SleepLogEntry { action: text(action), timestamp: now_iso(), duration_ms, detail };
    log.record(entry);
}

/// The next step of a wake or a sleep.
pub enum SwitchStep {
    /// Answer the caller with this.
    Reply(Result<String, String>),
    /// Kill the server and spawn it again with these arguments.
    Respawn(Vec<String>),
}

/// The answer when the server was never started.
pub open spec fn no_params_text() -> Seq<char> {
    "未找到启动参数，请先启动服务器"@
}

/// The first half of a wake: nothing to do unless the server is in standby;
/// otherwise it leaves standby and is spawned again with its model.
pub fn begin_wake(ctrl: &mut ServerControl) -> (r: SwitchStep)
    ensures
        old(ctrl).params is None ==> *final(ctrl) == *old(ctrl) && (r matches SwitchStep::Reply(Err(e)) && e@
            == no_params_text()),
        old(ctrl).params is Some && !old(ctrl).standby ==> *final(ctrl) == *old(ctrl) && (r matches SwitchStep::Reply(
            Ok(m),
        ) && m@ == "服务器已处于唤醒状态"@),
        old(ctrl).standby ==> (old(ctrl).params matches Some(p) ==> {
            &&& *final(ctrl) == with_standby(*old(ctrl), false)
            &&& !final(ctrl).standby
            &&& final(ctrl).starting == old(ctrl).starting
            &&& final(ctrl).proxy_running == old(ctrl).proxy_running
            &&& final(ctrl).params == old(ctrl).params
            &&& final(ctrl).model_name == old(ctrl).model_name
            &&& r matches SwitchStep::Respawn(args) && arg_views(args@) == server_args(
                p.model_path@,
                server_llama_port(p.port),
                p.ctx,
                true,
            )
        }),
{
    let args = match &ctrl.params {
        None => {
            return SwitchStep::Reply(Err(text("未找到启动参数，请先启动服务器")));
        },
        Some(p) => {
            if !ctrl.standby {
                return SwitchStep::Reply(Ok(text("服务器已处于唤醒状态")));
            }
            server_arguments(p.model_path.as_str(), llama_port_for(p.port), p.ctx, true)
        },
    };
    ctrl.standby = false;
    SwitchStep::Respawn(args)
}

/// The second half of a wake: on success the wake is logged with how long it
/// took and the new process id.
pub fn finish_wake(log: &mut SleepLog, spawned: Result<u32, String>, elapsed_ms: u64) -> (r: Result<
    String,
    String,
>)
    ensures
        match spawned {
            Err(e) => final(log).events() == old(log).events() && (r matches Err(m) && m@ == "唤醒失败: "@ + e@),
            Ok(pid) => {
                &&& appended(old(log).events(), final(log).events())
                &&& stamped_now(final(log).events().last())
                &&& final(log).events().last().action@ == "wake"@
                &&& final(log).events().last().duration_ms == Some(elapsed_ms)
                &&& final(log).events().last().detail matches Some(d) && d@ == "PID "@ + dec(pid as nat)
                &&& r matches Ok(m) && m@ == "模型已加载 (PID: "@ + dec(pid as nat) + ", 耗时: "@ + dec(
                    elapsed_ms as nat,
                ) + "ms)"@
            },
        },
{
    match spawned {
        Err(e) => Err(joined("唤醒失败: ", e.as_str())),
        Ok(pid) => {
            let mut d = text("PID ");
            push_digits(&mut d, pid as u128, 10);
            log_sleep_event(log, "wake", Some(elapsed_ms), Some(d));
            let mut m = text("模型已加载 (PID: ");
            push_digits(&mut m, pid as u128, 10);
            push_str(&mut m, ", 耗时: ");
            push_digits(&mut m, elapsed_ms as u128, 10);
            push_str(&mut m, "ms)");
            Ok(m)
        },
    }
}

/// Where a sleep must first count the active sessions: the llama-server
/// port, unless the answer is already known.
pub fn sleep_check(ctrl: &ServerControl) -> (r: Result<u16, Result<String, String>>)
    ensures
        ctrl.params is None ==> (r matches Err(Err(e)) && e@ == no_params_text()),
        ctrl.params is Some && ctrl.standby ==> (r matches Err(Ok(m)) && m@ == "服务器已处于待机模式"@),
        !ctrl.standby ==> (ctrl.params matches Some(p) ==> r == Ok::<u16, Result<String, String>>(
            server_llama_port(p.port),
        )),
{
    match &ctrl.params {
        None => Err(Err(text("未找到启动参数，请先启动服务器"))),
        Some(p) => {
            if ctrl.standby {
                Err(Ok(text("服务器已处于待机模式")))
            } else {
                Ok(llama_port_for(p.port))
            }
        },
    }
}

/// The first half of a sleep, given the number of active sessions: with
/// sessions active it is refused and logged; otherwise the server goes into
/// standby and is spawned again without a model.
pub fn begin_sleep(ctrl: &mut ServerControl, log: &mut SleepLog, active: usize) -> (r: SwitchStep)
    requires
        old(ctrl).params is Some,
        !old(ctrl).standby,
    ensures
        active > 0 ==> {
            &&& *final(ctrl) == *old(ctrl)
            &&& appended(old(log).events(), final(log).events())
            &&& stamped_now(final(log).events().last())
            &&& final(log).events().last().action@ == "reject_sleep"@
            &&& final(log).events().last().duration_ms is None
            &&& final(log).events().last().detail matches Some(d) && d@ == "有 "@ + dec(active as nat)
                + " 个活跃会话，拒绝休眠"@
            &&& r matches SwitchStep::Reply(Err(e)) && e@ == "有 "@ + dec(active as nat) + " 个活跃会话，拒绝休眠"@
        },
        active == 0 ==> {
            &&& final(log).events() == old(log).events()
            &&& *final(ctrl) == with_standby(*old(ctrl), true)
            &&& final(ctrl).standby
            &&& final(ctrl).starting == old(ctrl).starting
            &&& final(ctrl).proxy_running == old(ctrl).proxy_running
            &&& final(ctrl).params == old(ctrl).params
            &&& final(ctrl).model_name == old(ctrl).model_name
            &&& r matches SwitchStep::Respawn(args) && arg_views(args@) == server_args(
                old(ctrl).params->Some_0.model_path@,
                server_llama_port(old(ctrl).params->Some_0.port),
                old(ctrl).params->Some_0.ctx,
                false,
            )
        },
{
    if active > 0 {
        let mut d = text("有 ");
        push_digits(&mut d, active as u128, 10);
        push_str(&mut d, " 个活跃会话，拒绝休眠");
        let e = String::from_str(d.as_str());
        log_sleep_event(log, "reject_sleep", None, Some(d));
        return SwitchStep::Reply(Err(e));
    }
    let args = match &ctrl.params {
        Some(p) => server_arguments(p.model_path.as_str(), llama_port_for(p.port), p.ctx, false),
        None => Vec::new(),
    };
    ctrl.standby = true;
    SwitchStep::Respawn(args)
}

/// The second half of a sleep: on success it is logged with how long it took.
pub fn finish_sleep(log: &mut SleepLog, spawned: Result<u32, String>, elapsed_ms: u64) -> (r: Result<
    String,
    String,
>)
    ensures
        match spawned {
            Err(e) => final(log).events() == old(log).events() && (r matches Err(m) && m@ == "休眠失败: "@ + e@),
            Ok(_) => {
                &&& appended(old(log).events(), final(log).events())
                &&& stamped_now(final(log).events().last())
                &&& final(log).events().last().action@ == "sleep"@
                &&& final(log).events().last().duration_ms == Some(elapsed_ms)
                &&& final(log).events().last().detail is None
                &&& r matches Ok(m) && m@ == "已回到待机模式 (耗时: "@ + dec(elapsed_ms as nat) + "ms)"@
            },
        },
{
    match spawned {
        Err(e) => Err(joined("休眠失败: ", e.as_str())),
        Ok(_) => {
            log_sleep_event(log, "sleep", Some(elapsed_ms), None);
            let mut m = text("已回到待机模式 (耗时: ");
            push_digits(&mut m, elapsed_ms as u128, 10);
            push_str(&mut m, "ms)");
            Ok(m)
        },
    }
}

/// The slots that are not idle: every slot whose `state` is not the string `idle`.
pub open spec fn busy_slots(slots: Seq<JsonValue>) -> nat
    decreases slots.len(),
{
    if slots.len() == 0 {
        0
    } else {
        busy_slots(slots.drop_last()) + if str_of(member(slots.last(), "state"@)) == Some("idle"@) {
            0nat
        } else {
            1nat
        }
    }
}

/// Counts the active sessions among llama-server's slots.
pub fn active_sessions(slots: &Vec<JsonValue>) -> (r: usize)
    ensures
        r == busy_slots(slots@),
{
    let mut n: usize = 0;
    let mut i: usize = 0;
    assert(slots@.take(0) =~= Seq::<JsonValue>::empty());
    while i < slots.len()
        invariant
            i <= slots@.len(),
            n == busy_slots(slots@.take(i as int)),
            n <= i,
        decreases slots@.len() - i,
    {
        assert(slots@.take(i + 1).drop_last() =~= slots@.take(i as int));
        let idle = match as_str(get(&slots[i], "state")) {
            Some(s) => str_eq(s.as_str(), "idle"),
            None => false,
        };
        if !idle {
            n += 1;
        }
        i += 1;
    }
    assert(slots@.take(slots@.len() as int) =~= slots@);
    n
}

/// The idle report: the number of active sessions and whether there are none.
pub open spec fn idle_report_text(active: nat) -> Seq<char> {
    "{\"active_sessions\":"@ + dec(active) + ",\"idle\":"@ + (if active == 0 {
        "true"@
    } else {
        "false"@
    }) + "}"@
}

/// Writes the idle report.
pub fn idle_report(active: usize) -> (r: String)
    ensures
        r@ == idle_report_text(active as nat),
{
    let mut s = text("{\"active_sessions\":");
    push_digits(&mut s, active as u128, 10);
    push_str(&mut s, ",\"idle\":");
    if active == 0 {
        push_str(&mut s, "true");
    } else {
        push_str(&mut s, "false");
    }
    push_str(&mut s, "}");
    assert(s@ =~= idle_report_text(active as nat));
    s
}

/// The server is up: the held process still runs and its health check
/// answered with a success status or `503` (loading).
pub open spec fn server_up(running: bool, health: Option<u16>) -> bool {
    running && match health {
        Some(s) => 200 <= s < 300 || s == 503,
        None => false,
    }
}

/// Decides whether the server is up, from whether its process still runs and
/// the status its `/health` answered with (none where the request failed).
pub fn check_server(running: bool, health: Option<u16>) -> (r: bool)
    ensures
        r == server_up(running, health),
{
    running && match health {
        Some(s) => (200 <= s && s < 300) || s == 503,
        None => false,
    }
}

/// A user's port is reachable: its `/health` answered with a success status.
pub fn check_server_port(health: Option<u16>) -> (r: bool)
    ensures
        r == (match health {
            Some(s) => 200 <= s < 300,
            None => false,
        }),
{
    match health {
        Some(s) => 200 <= s && s < 300,
        None => false,
    }
}

/// Waking a server in standby and then putting it to sleep again, with no
/// session active, leaves its control state as it was: only the mode moves,
/// and it moves back.
pub proof fn law_sleep_undoes_wake(c: ServerControl)
    requires
        c.standby,
        c.params is Some,
    ensures
        with_standby(with_standby(c, false), true) == c,
{
}

} // verus!
