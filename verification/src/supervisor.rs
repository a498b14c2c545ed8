//! Process supervisor: lifecycle state machine, restart policy with bounded
//! exponential backoff, and spawn-specification sanitising.
//!
//! The supervisor owns the engine status, the restart counter and the
//! shutdown flag, and decides every transition.  The embedding runtime
//! performs what the decisions call for — spawning, polling `status`,
//! sleeping, terminating — and feeds the observed facts back in as plain
//! values.  Respawning is exclusively the restart-supervision tick's
//! decision; the health path only reports, so the two crash signals cannot
//! double-spawn.

use vstd::prelude::*;

use vstd::arithmetic::power2::pow2;

use crate::config::{config_valid, keep_env, AIEngineConfig};
use crate::errors::EngineError;

verus! {

/// Mathematical model of a status value.
pub ghost enum StatusModel {
    Stopped,
    Starting,
    Ready,
    Restarting,
    HealthCheckFailed,
    ProcessCrashed,
    Error(Seq<char>),
}

/// The engine's lifecycle status, broadcast to subscribers on every
/// transition.
#[derive(Debug, Clone, PartialEq)]
pub enum AIEngineStatus {
    /// Not running and not asked to.
    Stopped,
    /// Spawned, waiting for the worker to report readiness.
    Starting,
    /// Serving requests.
    Ready,
    /// A crash was detected; a respawn is scheduled.
    Restarting,
    /// The latest health verdict was negative.
    HealthCheckFailed,
    /// The worker process was found dead.
    ProcessCrashed,
    /// Terminal failure, with its reason; only an explicit start leaves it.
    Error(String),
}

impl View for AIEngineStatus {
    type V = StatusModel;

    open spec fn view(&self) -> StatusModel {
        match self {
            AIEngineStatus::Stopped => StatusModel::Stopped,
            AIEngineStatus::Starting => StatusModel::Starting,
            AIEngineStatus::Ready => StatusModel::Ready,
            AIEngineStatus::Restarting => StatusModel::Restarting,
            AIEngineStatus::HealthCheckFailed => StatusModel::HealthCheckFailed,
            AIEngineStatus::ProcessCrashed => StatusModel::ProcessCrashed,
            AIEngineStatus::Error(s) => StatusModel::Error(s@),
        }
    }
}

impl AIEngineStatus {
    /// A field-for-field copy.
    pub fn clone_status(&self) -> (r: Self)
        ensures
            r@ == self@,
    {
        match self {
            AIEngineStatus::Stopped => AIEngineStatus::Stopped,
            AIEngineStatus::Starting => AIEngineStatus::Starting,
            AIEngineStatus::Ready => AIEngineStatus::Ready,
            AIEngineStatus::Restarting => AIEngineStatus::Restarting,
            AIEngineStatus::HealthCheckFailed => AIEngineStatus::HealthCheckFailed,
            AIEngineStatus::ProcessCrashed => AIEngineStatus::ProcessCrashed,
            AIEngineStatus::Error(s) => AIEngineStatus::Error(s.clone()),
        }
    }
}

/// One event of the status feed: the new status, an optional message, and
/// when the transition happened.
#[derive(Debug, Clone)]
pub struct StatusEvent {
    /// The status entered.
    pub status: AIEngineStatus,
    /// Detail attached to the transition, if any.
    pub message: Option<String>,
    /// When the transition happened, in milliseconds.
    pub timestamp_ms: u64,
}

// ---------------------------------------------------------------------------
// Backoff
// ---------------------------------------------------------------------------
/// The restart delay before attempt `attempt`: the base doubled per prior
/// attempt, capped.
pub open spec fn backoff_spec(base: u64, cap: u64, attempt: u32) -> int
    recommends
        attempt >= 1,
{
    let raw = base as int * pow2((attempt - 1) as nat);
    if raw <= cap as int {
        raw
    } else {
        cap as int
    }
}

/// Compute the backoff delay before restart attempt `attempt`:
/// `min(base * 2^(attempt-1), cap)`, free of overflow for every input.
pub fn backoff_delay_ms(base: u64, cap: u64, attempt: u32) -> (r: u64)
    requires
        attempt >= 1,
    ensures
        r as int == backoff_spec(base, cap, attempt),
{
    let k: u32 = attempt - 1;
    if base == 0 {
        return 0;
    }
    let mut d: u64 = base;
    let mut i: u32 = 0;
    proof {
        vstd::arithmetic::power2::lemma2_to64();
    }
    while i < k
        invariant
            attempt >= 1,
            k == attempt - 1,
            base >= 1,
            i <= k,
            d >= 1,
            d as int == base as int * pow2(i as nat),
        decreases k - i,
    {
        proof {
            vstd::arithmetic::power2::lemma2_to64();
            vstd::arithmetic::power2::lemma_pow2_adds(i as nat, (k - i) as nat);
            vstd::arithmetic::power2::lemma_pow2_pos((k - i) as nat);
            if k - i >= 2 {
                vstd::arithmetic::power2::lemma_pow2_strictly_increases(1, (k - i) as nat);
            }
            assert(pow2((k - i) as nat) >= 2);
            vstd::arithmetic::mul::lemma_mul_is_associative(
                base as int,
                pow2(i as nat) as int,
                pow2((k - i) as nat) as int,
            );
            assert(base as int * pow2(k as nat) == d as int * pow2((k - i) as nat));
            vstd::arithmetic::mul::lemma_mul_inequality(
                2,
                pow2((k - i) as nat) as int,
                d as int,
            );
            assert(d as int * pow2((k - i) as nat) >= 2 * d as int);
            assert(base as int * pow2(k as nat) >= 2 * d as int);
        }
        if d >= cap {
            proof {
                assert(base as int * pow2(k as nat) >= cap as int);
            }
            return cap;
        }
        if d > u64::MAX / 2 {
            proof {
                assert(2 * d as int > u64::MAX as int);
                assert(base as int * pow2(k as nat) >= cap as int);
            }
            return cap;
        }
        proof {
            vstd::arithmetic::power2::lemma_pow2_adds(i as nat, 1);
            vstd::arithmetic::mul::lemma_mul_is_associative(
                base as int,
                pow2(i as nat) as int,
                2,
            );
        }
        d = d * 2;
        i = i + 1;
    }
    if d <= cap {
        d
    } else {
        cap
    }
}

// ---------------------------------------------------------------------------
// Spawn specification
// ---------------------------------------------------------------------------
/// What the runtime is asked to spawn: the sanitised spawn specification.
#[derive(Debug, Clone)]
pub struct SpawnCommand {
    /// The program to execute.
    pub program: String,
    /// Its single argument, the worker script.
    pub script: String,
    /// The working directory.
    pub working_directory: String,
    /// The environment, with dangerous entries dropped.
    pub environment: Vec<(String, String)>,
}

// ---------------------------------------------------------------------------
// The supervisor
// ---------------------------------------------------------------------------
/// What the restart-supervision tick decides.
#[derive(Debug)]
pub enum RestartDecision {
    /// Nothing to do: the process runs, or the tick is moot.
    Idle,
    /// Shutdown was requested or the status is terminal: leave the loop.
    StopLoop,
    /// Crash detected within the attempt budget: announce `Restarting`,
    /// sleep for the delay, then respawn.  Carries the delay in
    /// milliseconds and the attempt number.
    RestartAfter(u64, u32),
    /// Crash detected past the attempt budget: terminal error, stop.
    GiveUp,
}

/// A status an explicit start may leave: not yet running, or parked in the
/// terminal error that only an explicit start leaves.
pub open spec fn startable(s: StatusModel) -> bool {
    s is Stopped || s is Error
}

/// The spawn specification a command must carry for a configuration.
pub open spec fn spawn_command_of(cmd: SpawnCommand, c: crate::config::ConfigModel) -> bool {
    &&& cmd.program@ == c.python_executable
    &&& cmd.script@ == c.ai_core_script
    &&& cmd.working_directory@ == c.working_directory
    &&& Seq::new(
        cmd.environment@.len(),
        |i: int| (cmd.environment@[i].0@, cmd.environment@[i].1@),
    ) == keep_env(c.environment_variables)
}

/// Mathematical model of the supervisor.
pub ghost struct ManagerModel {
    pub config: crate::config::ConfigModel,
    pub status: StatusModel,
    pub restart_count: u32,
    pub shutdown_requested: bool,
}

/// The process supervisor: owns the lifecycle status, the restart counter
/// and the shutdown flag, and decides every transition.
#[derive(Debug)]
pub struct AIEngineManager {
    config: AIEngineConfig,
    status: AIEngineStatus,
    restart_count: u32,
    shutdown_requested: bool,
}

impl View for AIEngineManager {
    type V = ManagerModel;

    closed spec fn view(&self) -> ManagerModel {
        ManagerModel {
            config: self.config@,
            status: self.status@,
            restart_count: self.restart_count,
            shutdown_requested: self.shutdown_requested,
        }
    }
}

impl AIEngineManager {
    /// A fresh supervisor around a configuration, stopped.  The
    /// configuration is immutable from here on: build a new supervisor to
    /// change it.
    pub fn new(config: AIEngineConfig) -> (r: Self)
        ensures
            r@.config == config@,
            r@.status is Stopped,
            r@.restart_count == 0,
            !r@.shutdown_requested,
    {
        AIEngineManager {
            config,
            status: AIEngineStatus::Stopped,
            restart_count: 0,
            shutdown_requested: false,
        }
    }

    /// The current status.
    pub fn get_status(&self) -> (r: AIEngineStatus)
        ensures
            r@ == self@.status,
    {
        self.status.clone_status()
    }

    /// The restart counter's current value.
    pub fn restart_count(&self) -> (r: u32)
        ensures
            r == self@.restart_count,
    {
        self.restart_count
    }

    /// Begin an explicit start: allowed only from `Stopped` or from the
    /// terminal `Error` — an engine already starting, serving or restarting
    /// refuses a second start and nothing changes.  A start validates the
    /// configuration, resets the restart counter, clears the shutdown
    /// flag, moves to `Starting`, and hands the runtime the sanitised
    /// spawn specification.  `paths_exist` is the runtime's answer to the
    /// file-system half of validation (executable, script and working
    /// directory present).
    pub fn begin_start(&mut self, paths_exist: bool) -> (r: Result<SpawnCommand, EngineError>)
        ensures
            r is Ok <==> (startable(old(self)@.status) && config_valid(old(self)@.config)
                && paths_exist),
            match r {
                Ok(cmd) => {
                    &&& final(self)@ == (ManagerModel {
                        status: StatusModel::Starting,
                        restart_count: 0,
                        shutdown_requested: false,
                        ..old(self)@
                    })
                    &&& spawn_command_of(cmd, old(self)@.config)
                },
                Err(e) => {
                    &&& final(self)@ == old(self)@
                    &&& (if !startable(old(self)@.status) {
                        e is CommunicationError
                    } else {
                        e is ConfigurationError
                    })
                },
            },
    {
        match self.status {
            AIEngineStatus::Stopped => {},
            AIEngineStatus::Error(_) => {},
            _ => {
                return Err(
                    EngineError::CommunicationError(
                        String::from_str("engine is already running or starting"),
                    ),
                );
            },
        }
        match self.config.validate() {
            Ok(()) => {},
            Err(msg) => {
                return Err(EngineError::ConfigurationError(msg));
            },
        }
        if !paths_exist {
            return Err(
                EngineError::ConfigurationError(
                    String::from_str("configured path does not exist"),
                ),
            );
        }
        self.status = AIEngineStatus::Starting;
        self.restart_count = 0;
        self.shutdown_requested = false;
        let environment = crate::config::filter_env(&self.config.environment_variables);
        Ok(
            SpawnCommand {
                program: self.config.python_executable.clone(),
                script: self.config.ai_core_script.clone(),
                working_directory: self.config.working_directory.clone(),
                environment,
            },
        )
    }

    /// Hand out the spawn specification for one restart attempt.  Allowed
    /// only while the supervision tick has announced `Restarting`; unlike
    /// an explicit start, a respawn never touches the restart counter, the
    /// shutdown flag or the status, so the attempt budget keeps counting
    /// across crashes and a stop issued during the backoff sleep stays a
    /// stop.
    pub fn begin_respawn(&self, paths_exist: bool) -> (r: Result<SpawnCommand, EngineError>)
        ensures
            r is Ok <==> (self@.status is Restarting && config_valid(self@.config)
                && paths_exist),
            match r {
                Ok(cmd) => spawn_command_of(cmd, self@.config),
                Err(e) => (if !(self@.status is Restarting) {
                    e is CommunicationError
                } else {
                    e is ConfigurationError
                }),
            },
    {
        match self.status {
            AIEngineStatus::Restarting => {},
            _ => {
                return Err(
                    EngineError::CommunicationError(
                        String::from_str("no restart is in progress"),
                    ),
                );
            },
        }
        match self.config.validate() {
            Ok(()) => {},
            Err(msg) => {
                return Err(EngineError::ConfigurationError(msg));
            },
        }
        if !paths_exist {
            return Err(
                EngineError::ConfigurationError(
                    String::from_str("configured path does not exist"),
                ),
            );
        }
        let environment = crate::config::filter_env(&self.config.environment_variables);
        Ok(
            SpawnCommand {
                program: self.config.python_executable.clone(),
                script: self.config.ai_core_script.clone(),
                working_directory: self.config.working_directory.clone(),
                environment,
            },
        )
    }

    /// The spawn itself failed: terminal error for this start.
    pub fn on_spawn_failed(&mut self, detail: String) -> (e: EngineError)
        ensures
            final(self)@ == (ManagerModel {
                status: StatusModel::Error(
                    "Failed to spawn AI Core process: "@ + detail@,
                ),
                ..old(self)@
            }),
            e == EngineError::ProcessSpawnError(detail),
    {
        let mut msg = String::from_str("Failed to spawn AI Core process: ");
        msg.append(detail.as_str());
        self.status = AIEngineStatus::Error(msg);
        EngineError::ProcessSpawnError(detail)
    }

    /// The worker answered the ready-wait poll: serving begins.  The
    /// answer counts only while a start or restart is in flight; arriving
    /// after a stop or a failure it changes nothing, so a late ready can
    /// never override a stop.
    pub fn on_worker_ready(&mut self)
        ensures
            (old(self)@.status is Starting || old(self)@.status is Restarting) ==> final(self)@
                == (ManagerModel { status: StatusModel::Ready, ..old(self)@ }),
            !(old(self)@.status is Starting || old(self)@.status is Restarting) ==> final(self)@
                == old(self)@,
    {
        match self.status {
            AIEngineStatus::Starting => {
                self.status = AIEngineStatus::Ready;
            },
            AIEngineStatus::Restarting => {
                self.status = AIEngineStatus::Ready;
            },
            _ => {},
        }
    }

    /// The worker did not report readiness within the startup timeout:
    /// the status becomes a terminal error and the caller gets
    /// `StartupFailed`.
    pub fn on_startup_timeout(&mut self) -> (e: EngineError)
        ensures
            final(self)@ == (ManagerModel {
                status: StatusModel::Error("AI Core did not become ready in time"@),
                ..old(self)@
            }),
            e is StartupFailed,
    {
        self.status = AIEngineStatus::Error(
            String::from_str("AI Core did not become ready in time"),
        );
        EngineError::StartupFailed(String::from_str("AI Core did not become ready in time"))
    }

    /// An explicit stop: raise the shutdown flag — so the restart loop
    /// never mistakes this for a crash — and move to `Stopped`.  The
    /// runtime stops the health monitor and terminates the channel.
    pub fn stop(&mut self)
        ensures
            final(self)@ == (ManagerModel {
                status: StatusModel::Stopped,
                shutdown_requested: true,
                ..old(self)@
            }),
    {
        self.shutdown_requested = true;
        self.status = AIEngineStatus::Stopped;
    }

    /// Whether a request or notification may go out now: only `Ready`
    /// accepts traffic; anything else is refused explicitly rather than
    /// queued.
    pub fn request_gate(&self) -> (r: Result<(), EngineError>)
        ensures
            match r {
                Ok(()) => self@.status is Ready,
                Err(e) => !(self@.status is Ready) && e is CommunicationError,
            },
    {
        match self.status {
            AIEngineStatus::Ready => Ok(()),
            _ => Err(
                EngineError::CommunicationError(String::from_str("engine not ready")),
            ),
        }
    }

    /// One tick of the restart-supervision loop, given whether the worker
    /// process is running.  On a detected exit within the attempt budget
    /// the counter rises by one, the status announces `Restarting`, and
    /// the decision carries the backoff delay for this attempt; past the
    /// budget the status parks in a terminal error.  A tick after shutdown
    /// or in a terminal state only ends the loop.  Only this path
    /// respawns.
    pub fn on_supervision_tick(&mut self, process_running: bool) -> (r: RestartDecision)
        ensures
            final(self)@.config == old(self)@.config,
            final(self)@.shutdown_requested == old(self)@.shutdown_requested,
            match r {
                RestartDecision::Idle => process_running && final(self)@ == old(self)@,
                RestartDecision::StopLoop => {
                    &&& (old(self)@.shutdown_requested || old(self)@.status is Stopped || old(
                        self,
                    )@.status is Error)
                    &&& final(self)@ == old(self)@
                },
                RestartDecision::RestartAfter(delay, attempt) => {
                    &&& !process_running
                    &&& !old(self)@.shutdown_requested
                    &&& old(self)@.restart_count < old(self)@.config.max_restart_attempts
                    &&& attempt == old(self)@.restart_count + 1
                    &&& attempt <= old(self)@.config.max_restart_attempts
                    &&& delay as int == backoff_spec(
                        old(self)@.config.restart_delay_base_ms,
                        old(self)@.config.max_restart_delay_ms,
                        attempt,
                    )
                    &&& final(self)@ == (ManagerModel {
                        status: StatusModel::Restarting,
                        restart_count: attempt,
                        ..old(self)@
                    })
                },
                RestartDecision::GiveUp => {
                    &&& !process_running
                    &&& !old(self)@.shutdown_requested
                    &&& old(self)@.restart_count >= old(self)@.config.max_restart_attempts
                    &&& final(self)@ == (ManagerModel {
                        status: StatusModel::Error("max restart attempts exceeded"@),
                        ..old(self)@
                    })
                },
            },
    {
        if self.shutdown_requested {
            return RestartDecision::StopLoop;
        }
        match self.status {
            AIEngineStatus::Stopped => {
                return RestartDecision::StopLoop;
            },
            AIEngineStatus::Error(_) => {
                return RestartDecision::StopLoop;
            },
            _ => {},
        }
        if process_running {
            return RestartDecision::Idle;
        }
        if self.restart_count < self.config.max_restart_attempts {
            let attempt = self.restart_count + 1;
            self.restart_count = attempt;
            self.status = AIEngineStatus::Restarting;
            let delay = backoff_delay_ms(
                self.config.restart_delay_base_ms,
                self.config.max_restart_delay_ms,
                attempt,
            );
            RestartDecision::RestartAfter(delay, attempt)
        } else {
            self.status = AIEngineStatus::Error(
                String::from_str("max restart attempts exceeded"),
            );
            RestartDecision::GiveUp
        }
    }

    /// The health callback's side of the restart policy: an unhealthy
    /// verdict announces `Restarting` within the attempt budget or the
    /// terminal error past it, but never itself respawns and never touches
    /// the counter — the supervision tick owns both, so the two crash
    /// signals cannot double-spawn.  A healthy verdict changes nothing.
    pub fn on_health_report(&mut self, healthy: bool)
        ensures
            final(self)@.config == old(self)@.config,
            final(self)@.restart_count == old(self)@.restart_count,
            final(self)@.shutdown_requested == old(self)@.shutdown_requested,
            healthy ==> final(self)@ == old(self)@,
            !healthy ==> final(self)@.status == (if old(self)@.shutdown_requested || !(old(
                self,
            )@.status is Ready) {
                old(self)@.status
            } else if old(self)@.restart_count < old(self)@.config.max_restart_attempts {
                StatusModel::HealthCheckFailed
            } else {
                StatusModel::Error("max restart attempts exceeded"@)
            }),
    {
        if healthy {
            return ;
        }
        if self.shutdown_requested {
            return ;
        }
        match self.status {
            AIEngineStatus::Ready => {},
            _ => {
                return ;
            },
        }
        if self.restart_count < self.config.max_restart_attempts {
            self.status = AIEngineStatus::HealthCheckFailed;
        } else {
            self.status = AIEngineStatus::Error(
                String::from_str("max restart attempts exceeded"),
            );
        }
    }
}

/// Gate and frame one outbound request: refused explicitly unless the
/// engine is `Ready`, otherwise framed under a fresh id and registered in
/// the channel's table.  The runtime writes the frame and awaits the reply
/// slot under the caller's timeout.
pub fn send_request_frame(
    manager: &AIEngineManager,
    channel: &mut crate::channel::IPCChannel,
    method: String,
    params: Option<String>,
) -> (r: Result<(crate::rpc::RpcMessage, u64), EngineError>)
    requires
        old(channel)@.wf(),
        old(channel)@.next_seq < u64::MAX,
    ensures
        final(channel)@.wf(),
        r is Ok <==> (manager@.status is Ready && (match params {
            Some(q) => crate::codec::payload_ok(q@),
            None => true,
        })),
        match r {
            Ok(p) => {
                &&& manager@.status is Ready
                &&& p.0@.method == method@
                &&& p.0@.id == Some(crate::ids::dec_str(p.1 as int))
                &&& !old(channel)@.pending.contains(p.1)
                &&& final(channel)@.pending == old(channel)@.pending.push(p.1)
            },
            Err(e) => final(channel)@ == old(channel)@ && e is CommunicationError,
        },
{
    match manager.request_gate() {
        Ok(()) => {},
        Err(e) => {
            return Err(e);
        },
    }
    channel.prepare_request(method, params)
}

/// Gate and frame one outbound notification: refused unless `Ready`,
/// otherwise framed without an id, fire and forget.
pub fn send_notification_frame(
    manager: &AIEngineManager,
    channel: &crate::channel::IPCChannel,
    method: String,
    params: Option<String>,
) -> (r: Result<crate::rpc::RpcMessage, EngineError>)
    ensures
        r is Ok <==> (manager@.status is Ready && (match params {
            Some(q) => crate::codec::payload_ok(q@),
            None => true,
        })),
        match r {
            Ok(m) => m@.method == method@ && m@.id is None && m@.params == (match params {
                Some(q) => Some(q@),
                None => None::<Seq<char>>,
            }),
            Err(e) => e is CommunicationError,
        },
{
    match manager.request_gate() {
        Ok(()) => {},
        Err(e) => {
            return Err(e);
        },
    }
    channel.prepare_notification(method, params)
}

/// The ready-wait poll's test on a status reply: whether the result
/// payload reports readiness.
pub fn reply_reports_ready(result: &Option<String>) -> (r: bool)
    ensures
        r == (match result {
            Some(s) => crate::security::contains_sub(s@, "ready"@),
            None => false,
        }),
{
    match result {
        Some(s) => crate::security::str_contains(s.as_str(), "ready"),
        None => false,
    }
}

/// Map a correlated response to what a caller sees: a response-level error
/// passes through verbatim as a JSON-RPC error; otherwise the result
/// payload comes back.
pub fn interpret_response(resp: crate::rpc::RpcResponse) -> (r: Result<Option<String>, EngineError>)
    ensures
        match r {
            Ok(v) => resp@.error is None && (match v {
                Some(s) => resp@.result == Some(s@),
                None => resp@.result is None,
            }),
            Err(e) => resp@.error is Some && (e matches EngineError::JsonRpcError(m) && Some(
                m@,
            ) == resp@.error),
        },
{
    match resp.error {
        Some(e) => Err(EngineError::JsonRpcError(e)),
        None => Ok(resp.result),
    }
}

/// The law of the restart budget: a supervision tick announces a restart
/// only while the counter is below the configured ceiling, each announced
/// attempt number is at most that ceiling, and the crash after the last
/// allowed attempt parks the supervisor in the terminal error instead of
/// another `Restarting`.
pub proof fn lemma_restarts_bounded(
    before: ManagerModel,
    after: ManagerModel,
    r: RestartDecision,
    delay: u64,
    attempt: u32,
)
    requires
        r == RestartDecision::RestartAfter(delay, attempt) ==> {
            &&& before.restart_count < before.config.max_restart_attempts
            &&& attempt == before.restart_count + 1
            &&& after.restart_count == attempt
        },
        r is GiveUp ==> {
            &&& before.restart_count >= before.config.max_restart_attempts
            &&& after.status == StatusModel::Error("max restart attempts exceeded"@)
        },
    ensures
        r == RestartDecision::RestartAfter(delay, attempt) ==> attempt
            <= before.config.max_restart_attempts,
        r == RestartDecision::RestartAfter(delay, attempt) ==> after.restart_count
            <= before.config.max_restart_attempts,
        r is GiveUp ==> !(after.status is Restarting),
{
}

} // verus!
