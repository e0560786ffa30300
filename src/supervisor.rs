//! The inference-server supervisor: the start, readiness and stop protocol as
//! a state machine. The caller performs each action (probing the port,
//! spawning or killing the process, sleeping) and feeds back what happened;
//! the supervisor decides what comes next and never holds two processes.
use vstd::prelude::*;
use vstd::string::*;
use crate::config::{ModelParams, RuboxConfig, registry_lookup};
use crate::number::{parse_usize, usize_value};
use crate::text::{chars_of, contains_text, decimal_spelling, decimal_text, is_infix, signed_spelling, signed_text, string_of_range, texts};

verus! {

/// Milliseconds between two readiness polls.
pub const POLL_MS: u64 = 200;

/// Milliseconds to wait after the first good health probe, for large models
/// to finish warming up.
pub const GRACE_MS: u64 = 5000;

/// Milliseconds after which a start that never became healthy fails.
pub const MAX_WAIT_MS: u64 = 180000;

/// The port used when the API address names none.
pub const DEFAULT_PORT: u16 = 8081;

/// Where the supervisor stands.
#[derive(PartialEq, Eq, Structural, Clone, Copy, Debug)]
pub enum SupervisorState {
    /// No process of ours, and none known to listen.
    NotRunning,
    /// A server we did not start listens on the port; we use it.
    External,
    /// Checking whether something listens; `owned` when our process from an
    /// earlier start is still held.
    Probing { owned: bool },
    /// The process is being spawned.
    Starting,
    /// Our process runs; polling until it answers, `waited_ms` so far.
    WaitingForReadiness { waited_ms: u64 },
    /// Our process answered; waiting out the grace period.
    WarmingUp,
    /// Our process is ready.
    Running,
}

/// What happened, as the caller reports it.
#[derive(PartialEq, Eq, Structural, Clone, Copy, Debug)]
pub enum SupervisorEvent {
    /// Make sure a server runs.
    EnsureRequested,
    /// Whether the port accepted a connection before any start.
    Probed(bool),
    /// Whether spawning the process worked.
    Spawned(bool),
    /// A poll: time waited since the spawn, and whether the port accepts
    /// connections.
    Polled { waited_ms: u64, port_open: bool },
    /// Whether the health endpoint answered.
    HealthChecked(bool),
    /// The grace period is over.
    GraceElapsed,
    /// Stop our process, if any.
    StopRequested,
}

/// What the caller does next.
#[derive(PartialEq, Eq, Structural, Clone, Copy, Debug)]
pub enum SupervisorAction {
    Nothing,
    /// Try to connect to the port.
    ProbePort,
    /// Spawn the server process.
    Spawn,
    /// Kill our old process, then spawn a new one.
    KillAndSpawn,
    /// Sleep `POLL_MS`, then poll.
    Poll,
    /// Request the health endpoint.
    HealthProbe,
    /// Sleep `GRACE_MS`.
    Grace,
    /// The server is ready; the start is over.
    Ready,
    /// Spawning failed; the start is over.
    LaunchFailed,
    /// Kill our process: no health in time. The start is over.
    TimedOut,
    /// Kill our process.
    Kill,
    /// The event does not fit the state; nothing changes.
    Ignored,
}

/// Whether the supervisor holds a process handle in state `s`.
pub open spec fn owns_process(s: SupervisorState) -> bool {
    match s {
        SupervisorState::Probing { owned } => owned,
        SupervisorState::WaitingForReadiness { .. } => true,
        SupervisorState::WarmingUp => true,
        SupervisorState::Running => true,
        _ => false,
    }
}

/// The protocol: the next state and action for an event.
pub open spec fn next(s: SupervisorState, e: SupervisorEvent) -> (SupervisorState, SupervisorAction) {
    match (s, e) {
        (SupervisorState::NotRunning, SupervisorEvent::EnsureRequested) => (SupervisorState::Probing { owned: false }, SupervisorAction::ProbePort),
        (SupervisorState::External, SupervisorEvent::EnsureRequested) => (SupervisorState::Probing { owned: false }, SupervisorAction::ProbePort),
        (SupervisorState::Running, SupervisorEvent::EnsureRequested) => (SupervisorState::Probing { owned: true }, SupervisorAction::ProbePort),
        (SupervisorState::Probing { owned }, SupervisorEvent::Probed(listening)) => if listening {
            (if owned { SupervisorState::Running } else { SupervisorState::External }, SupervisorAction::Ready)
        } else {
            (SupervisorState::Starting, if owned { SupervisorAction::KillAndSpawn } else { SupervisorAction::Spawn })
        },
        (SupervisorState::Starting, SupervisorEvent::Spawned(ok)) => if ok {
            (SupervisorState::WaitingForReadiness { waited_ms: 0 }, SupervisorAction::Poll)
        } else {
            (SupervisorState::NotRunning, SupervisorAction::LaunchFailed)
        },
        (SupervisorState::WaitingForReadiness { .. }, SupervisorEvent::Polled { waited_ms, port_open }) => if port_open {
            (SupervisorState::WaitingForReadiness { waited_ms }, SupervisorAction::HealthProbe)
        } else if waited_ms > MAX_WAIT_MS {
            (SupervisorState::NotRunning, SupervisorAction::TimedOut)
        } else {
            (SupervisorState::WaitingForReadiness { waited_ms }, SupervisorAction::Poll)
        },
        (SupervisorState::WaitingForReadiness { waited_ms }, SupervisorEvent::HealthChecked(ok)) => if ok {
            (SupervisorState::WarmingUp, SupervisorAction::Grace)
        } else if waited_ms > MAX_WAIT_MS {
            (SupervisorState::NotRunning, SupervisorAction::TimedOut)
        } else {
            (SupervisorState::WaitingForReadiness { waited_ms }, SupervisorAction::Poll)
        },
        (SupervisorState::WarmingUp, SupervisorEvent::GraceElapsed) => (SupervisorState::Running, SupervisorAction::Ready),
        (SupervisorState::Running, SupervisorEvent::StopRequested) => (SupervisorState::NotRunning, SupervisorAction::Kill),
        (SupervisorState::WaitingForReadiness { .. }, SupervisorEvent::StopRequested) => (SupervisorState::NotRunning, SupervisorAction::Kill),
        (SupervisorState::WarmingUp, SupervisorEvent::StopRequested) => (SupervisorState::NotRunning, SupervisorAction::Kill),
        (SupervisorState::Probing { owned: true }, SupervisorEvent::StopRequested) => (SupervisorState::NotRunning, SupervisorAction::Kill),
        (SupervisorState::NotRunning, SupervisorEvent::StopRequested) => (SupervisorState::NotRunning, SupervisorAction::Nothing),
        (SupervisorState::External, SupervisorEvent::StopRequested) => (SupervisorState::External, SupervisorAction::Nothing),
        _ => (s, SupervisorAction::Ignored),
    }
}

/// The supervisor of the one inference-server process.
pub struct ServerManager {
    pub state: SupervisorState,
}

impl ServerManager {
    /// A supervisor with no process.
    pub fn new() -> (r: ServerManager)
        ensures
            r.state == SupervisorState::NotRunning,
    {
        ServerManager { state: SupervisorState::NotRunning }
    }

    /// Whether a process handle is held.
    pub fn owns_process(&self) -> (r: bool)
        ensures
            r == owns_process(self.state),
    {
        match self.state {
            SupervisorState::Probing { owned } => owned,
            SupervisorState::WaitingForReadiness { .. } => true,
            SupervisorState::WarmingUp => true,
            SupervisorState::Running => true,
            _ => false,
        }
    }

    /// Takes one step of the protocol.
    pub fn step(&mut self, event: SupervisorEvent) -> (r: SupervisorAction)
        ensures
            (final(self).state, r) == next(old(self).state, event),
    {
        let (s, a) = match (self.state, event) {
            (SupervisorState::NotRunning, SupervisorEvent::EnsureRequested) => (SupervisorState::Probing { owned: false }, SupervisorAction::ProbePort),
            (SupervisorState::External, SupervisorEvent::EnsureRequested) => (SupervisorState::Probing { owned: false }, SupervisorAction::ProbePort),
            (SupervisorState::Running, SupervisorEvent::EnsureRequested) => (SupervisorState::Probing { owned: true }, SupervisorAction::ProbePort),
            (SupervisorState::Probing { owned }, SupervisorEvent::Probed(listening)) => if listening {
                (if owned { SupervisorState::Running } else { SupervisorState::External }, SupervisorAction::Ready)
            } else {
                (SupervisorState::Starting, if owned { SupervisorAction::KillAndSpawn } else { SupervisorAction::Spawn })
            },
            (SupervisorState::Starting, SupervisorEvent::Spawned(ok)) => if ok {
                (SupervisorState::WaitingForReadiness { waited_ms: 0 }, SupervisorAction::Poll)
            } else {
                (SupervisorState::NotRunning, SupervisorAction::LaunchFailed)
            },
            (SupervisorState::WaitingForReadiness { .. }, SupervisorEvent::Polled { waited_ms, port_open }) => if port_open {
                (SupervisorState::WaitingForReadiness { waited_ms }, SupervisorAction::HealthProbe)
            } else if waited_ms > MAX_WAIT_MS {
                (SupervisorState::NotRunning, SupervisorAction::TimedOut)
            } else {
                (SupervisorState::WaitingForReadiness { waited_ms }, SupervisorAction::Poll)
            },
            (SupervisorState::WaitingForReadiness { waited_ms }, SupervisorEvent::HealthChecked(ok)) => if ok {
                (SupervisorState::WarmingUp, SupervisorAction::Grace)
            } else if waited_ms > MAX_WAIT_MS {
                (SupervisorState::NotRunning, SupervisorAction::TimedOut)
            } else {
                (SupervisorState::WaitingForReadiness { waited_ms }, SupervisorAction::Poll)
            },
            (SupervisorState::WarmingUp, SupervisorEvent::GraceElapsed) => (SupervisorState::Running, SupervisorAction::Ready),
            (SupervisorState::Running, SupervisorEvent::StopRequested) => (SupervisorState::NotRunning, SupervisorAction::Kill),
            (SupervisorState::WaitingForReadiness { .. }, SupervisorEvent::StopRequested) => (SupervisorState::NotRunning, SupervisorAction::Kill),
            (SupervisorState::WarmingUp, SupervisorEvent::StopRequested) => (SupervisorState::NotRunning, SupervisorAction::Kill),
            (SupervisorState::Probing { owned: true }, SupervisorEvent::StopRequested) => (SupervisorState::NotRunning, SupervisorAction::Kill),
            (SupervisorState::NotRunning, SupervisorEvent::StopRequested) => (SupervisorState::NotRunning, SupervisorAction::Nothing),
            (SupervisorState::External, SupervisorEvent::StopRequested) => (SupervisorState::External, SupervisorAction::Nothing),
            (st, _) => (st, SupervisorAction::Ignored),
        };
        self.state = s;
        a
    }

    /// Stops our process: kills it when one is held, also in the middle of
    /// a start, and does nothing otherwise.
    pub fn stop(&mut self) -> (r: SupervisorAction)
        ensures
            (final(self).state, r) == next(old(self).state, SupervisorEvent::StopRequested),
            owns_process(old(self).state) ==> r == SupervisorAction::Kill && final(self).state == SupervisorState::NotRunning,
            !owns_process(old(self).state) ==> r != SupervisorAction::Kill && final(self).state == old(self).state,
    {
        self.step(SupervisorEvent::StopRequested)
    }
}

/// Only one process at a time: a spawn happens only when none is held, a
/// held process is killed before another is spawned, and every step that
/// gives up ownership kills the process.
pub proof fn lemma_single_process(s: SupervisorState, e: SupervisorEvent)
    ensures
        ({
            let (t, a) = next(s, e);
            &&& a == SupervisorAction::Spawn ==> !owns_process(s)
            &&& a == SupervisorAction::KillAndSpawn ==> owns_process(s)
            &&& owns_process(s) && !owns_process(t) ==> a == SupervisorAction::Kill || a == SupervisorAction::TimedOut
                || a == SupervisorAction::KillAndSpawn
        }),
{
}

/// Calling `ensure_running` twice in a row while a server listens spawns
/// nothing: both calls probe, find the port open, and are done.
pub proof fn lemma_ensure_idempotent(s: SupervisorState)
    requires
        s == SupervisorState::NotRunning || s == SupervisorState::External || s == SupervisorState::Running,
    ensures
        ({
            let (s1, a1) = next(s, SupervisorEvent::EnsureRequested);
            let (s2, a2) = next(s1, SupervisorEvent::Probed(true));
            let (s3, a3) = next(s2, SupervisorEvent::EnsureRequested);
            let (s4, a4) = next(s3, SupervisorEvent::Probed(true));
            &&& a1 == SupervisorAction::ProbePort && a3 == SupervisorAction::ProbePort
            &&& a2 == SupervisorAction::Ready && a4 == SupervisorAction::Ready
            &&& s4 == s2
            &&& owns_process(s4) == owns_process(s)
        }),
{
}

/// Where the last `:`-separated field of `s[..i]` starts.
pub open spec fn field_start(s: Seq<char>, i: int) -> int
    decreases i,
{
    if i <= 0 {
        0
    } else if s[i - 1] == ':' {
        i
    } else {
        field_start(s, i - 1)
    }
}

/// Where the first `/` of `s` at or after `i` stands, or `s.len()`.
pub open spec fn slash_from(s: Seq<char>, i: int) -> int
    decreases s.len() - i,
{
    if i >= s.len() {
        s.len() as int
    } else if s[i] == '/' {
        i
    } else {
        slash_from(s, i + 1)
    }
}

/// The port an API address names: the text after its last `:` and before the
/// next `/`, when that is a number up to 65535; else the default port.
pub open spec fn port_of(url: Seq<char>) -> nat {
    let k = field_start(url, url.len() as int);
    let tail = url.subrange(k, url.len() as int);
    let p = tail.subrange(0, slash_from(tail, 0));
    match usize_value(p) {
        Some(v) => if v <= 65535 {
            v
        } else {
            DEFAULT_PORT as nat
        },
        None => DEFAULT_PORT as nat,
    }
}

proof fn lemma_field_start_bounds(s: Seq<char>, i: int)
    requires
        0 <= i <= s.len(),
    ensures
        0 <= field_start(s, i) <= i,
    decreases i,
{
    if i > 0 && s[i - 1] != ':' {
        lemma_field_start_bounds(s, i - 1);
    }
}

/// The port of the server behind `api_url`, such as `8081` for
/// `http://127.0.0.1:8081/v1`.
pub fn server_port(api_url: &str) -> (r: u16)
    ensures
        r == port_of(api_url@),
{
    let cs = chars_of(api_url);
    let n = cs.len();
    let mut k: usize = n;
    while k > 0 && cs[k - 1] != ':'
        invariant
            k <= n == cs@.len(),
            field_start(cs@, n as int) == field_start(cs@, k as int),
        decreases k,
    {
        k -= 1;
    }
    let ghost tail = cs@.subrange(k as int, n as int);
    let mut j: usize = k;
    while j < n && cs[j] != '/'
        invariant
            k <= j <= n == cs@.len(),
            tail == cs@.subrange(k as int, n as int),
            slash_from(tail, 0) == slash_from(tail, j - k),
        decreases n - j,
    {
        j += 1;
    }
    assert(tail.subrange(0, j - k) =~= cs@.subrange(k as int, j as int));
    let field = string_of_range(&cs, k, j);
    match parse_usize(field.as_str()) {
        Some(v) => if v <= 65535 {
            v as u16
        } else {
            DEFAULT_PORT
        },
        None => DEFAULT_PORT,
    }
}

/// Whether a model name is in fact a file path: it holds `/` or `.`.
pub open spec fn is_path_like(o: Seq<char>) -> bool {
    is_infix("/"@, o) || is_infix("."@, o)
}

/// The weight file to load: a path-like override as it is, else the
/// registered locator of the named model, else the default.
pub open spec fn model_path_for(config: RuboxConfig, model: Option<Seq<char>>) -> Seq<char> {
    match model {
        Some(p) => if is_path_like(p) {
            p
        } else {
            match registry_lookup(config.models.registry.entries@, p) {
                Some(x) => x,
                None => config.models.default@,
            }
        },
        None => config.models.default@,
    }
}

/// The weight file to load for `model`, or for no particular model.
pub fn resolve_model_path(config: &RuboxConfig, model: Option<&str>) -> (r: String)
    requires
        config.wf(),
    ensures
        r@ == model_path_for(*config, match model {
            Some(m) => Some(m@),
            None => None,
        }),
{
    match model {
        Some(p) => {
            if contains_text(p, "/") || contains_text(p, ".") {
                String::from_str(p)
            } else {
                match config.models.registry.get(p) {
                    Some(x) => x.clone(),
                    None => config.models.default.clone(),
                }
            }
        },
        None => config.models.default.clone(),
    }
}

/// The profile name used when nothing better is known.
pub open spec fn default_profile_name() -> Seq<char> {
    "qwen3-vl"@
}

/// The name whose parameter profile applies to `model`: a plain name itself;
/// for a path, the first registered model (in name order) whose locator
/// contains it, else the default profile name; with no model, the default.
pub fn profile_key(config: &RuboxConfig, model: Option<&str>) -> (r: String)
    ensures
        model is None ==> r@ == default_profile_name(),
        model is Some && !is_path_like(model->0@) ==> r@ == model->0@,
        model is Some && is_path_like(model->0@) ==> {
            let m = model->0@;
            let es = config.models.registry.entries@;
            ||| (exists|i: int| 0 <= i < es.len() && #[trigger] es[i].name@ == r@ && is_infix(m, es[i].path@)
                && forall|j: int| 0 <= j < i ==> !is_infix(m, #[trigger] es[j].path@))
            ||| (r@ == default_profile_name() && forall|j: int| 0 <= j < es.len() ==> !is_infix(m, #[trigger] es[j].path@))
        },
{
    match model {
        Some(o) => {
            if !contains_text(o, "/") && !contains_text(o, ".") {
                String::from_str(o)
            } else {
                match config.models.registry.name_with_path_containing(o) {
                    Some(n) => n.clone(),
                    None => String::from_str("qwen3-vl"),
                }
            }
        },
        None => String::from_str("qwen3-vl"),
    }
}

/// The server's command line after the program name.
pub open spec fn launch_line(path: Seq<char>, p: ModelParams, port: nat, mmproj_present: bool) -> Seq<Seq<char>> {
    seq![
        "--model"@, path,
        "--ctx-size"@, decimal_spelling(p.context_window as nat),
        "--port"@, decimal_spelling(port),
        "--n-gpu-layers"@, signed_spelling(p.gpu_layers as int),
        "--parallel"@, "4"@,
        "--batch-size"@, decimal_spelling(p.batch_size as nat),
        "--ubatch-size"@, decimal_spelling(p.ubatch_size as nat),
        "--log-disable"@,
    ] + match p.mmproj {
        Some(m) => if mmproj_present {
            seq!["--mmproj"@, m@]
        } else {
            Seq::empty()
        },
        None => Seq::empty(),
    }
}

/// The arguments to start the server with: model file, context size, port,
/// GPU layers, parallelism, batch sizes, no logging, and the projection file
/// when the profile names one and it is present on disk.
pub fn launch_args(path: &str, params: &ModelParams, port: u16, mmproj_present: bool) -> (r: Vec<String>)
    ensures
        texts(r@) == launch_line(path@, *params, port as nat, mmproj_present),
{
    let mut v: Vec<String> = Vec::new();
    v.push(String::from_str("--model"));
    v.push(String::from_str(path));
    v.push(String::from_str("--ctx-size"));
    v.push(decimal_text(params.context_window as usize));
    v.push(String::from_str("--port"));
    v.push(decimal_text(port as usize));
    v.push(String::from_str("--n-gpu-layers"));
    v.push(signed_text(params.gpu_layers));
    v.push(String::from_str("--parallel"));
    v.push(String::from_str("4"));
    v.push(String::from_str("--batch-size"));
    v.push(decimal_text(params.batch_size as usize));
    v.push(String::from_str("--ubatch-size"));
    v.push(decimal_text(params.ubatch_size as usize));
    v.push(String::from_str("--log-disable"));
    match &params.mmproj {
        Some(m) => {
            if mmproj_present {
                v.push(String::from_str("--mmproj"));
                v.push(m.clone());
            }
        },
        None => {},
    }
    assert(texts(v@) =~= launch_line(path@, *params, port as nat, mmproj_present));
    v
}

/// Steps of the advisory progress bar shown while the server starts.
pub const PROGRESS_STEPS: u32 = 20;

/// The phase label shown at a progress step.
pub open spec fn phase_label(step: nat) -> Seq<char> {
    let k = step * 4 / (PROGRESS_STEPS as nat);
    if k == 0 {
        "Loading Config"@
    } else if k == 1 {
        "Allocating Context"@
    } else if k == 2 {
        "Loading Model Weights"@
    } else {
        "Warming Up"@
    }
}

/// The advisory progress at `step` of `PROGRESS_STEPS`: percent done, filled
/// cells of a twenty-cell bar, and the phase label.
pub fn startup_progress(step: u32) -> (r: (u32, u32, &'static str))
    requires
        step < PROGRESS_STEPS,
    ensures
        r.0 == step * 100 / (PROGRESS_STEPS as int),
        r.1 == step * 20 / (PROGRESS_STEPS as int),
        r.2@ == phase_label(step as nat),
{
    let k = step * 4 / PROGRESS_STEPS;
    let label = if k == 0 {
        "Loading Config"
    } else if k == 1 {
        "Allocating Context"
    } else if k == 2 {
        "Loading Model Weights"
    } else {
        "Warming Up"
    };
    (step * 100 / PROGRESS_STEPS, step * 20 / PROGRESS_STEPS, label)
}

} // verus!
