use ai_engine_core::channel::IPCChannel;
use ai_engine_core::config::AIEngineConfig;
use ai_engine_core::errors::EngineError;
use ai_engine_core::health::{HealthMonitor, ProbeOutcome};
use ai_engine_core::rpc::RpcResponse;
use ai_engine_core::supervisor::{
    backoff_delay_ms, interpret_response, reply_reports_ready, send_notification_frame,
    send_request_frame, AIEngineManager, AIEngineStatus, RestartDecision,
};

fn test_config() -> AIEngineConfig {
    AIEngineConfig::new()
        .with_python_executable("python3".to_string())
        .with_ai_core_script("core/main.py".to_string())
        .with_working_directory(".".to_string())
}

#[test]
fn test_engine_manager_creation_and_status() {
    let config = AIEngineConfig::new();
    let manager = AIEngineManager::new(config);
    assert_eq!(manager.get_status(), AIEngineStatus::Stopped);
}

#[test]
fn test_start_stop_and_status_broadcast() {
    // The start flow with a worker that reports readiness, then a stop:
    // the feed must carry Starting, Ready and Stopped in that order.
    let mut manager = AIEngineManager::new(test_config());
    let mut received = Vec::new();

    manager.begin_start(true).expect("a valid configuration must start");
    received.push(manager.get_status());
    manager.on_worker_ready();
    received.push(manager.get_status());
    assert!(matches!(manager.get_status(), AIEngineStatus::Ready), "Engine should be ready after start");

    manager.stop();
    received.push(manager.get_status());
    assert_eq!(manager.get_status(), AIEngineStatus::Stopped, "Engine should be stopped");

    assert!(received.contains(&AIEngineStatus::Starting), "Should have broadcasted Starting");
    assert!(received.contains(&AIEngineStatus::Ready), "Should have broadcasted Ready");
    assert!(received.contains(&AIEngineStatus::Stopped), "Should have broadcasted Stopped");
}

#[test]
fn startup_reaches_ready_with_feed_order() {
    // A worker that answers the status poll with ready: start reaches
    // Ready, and the feed shows Starting before Ready.
    let mut manager = AIEngineManager::new(test_config());
    let mut feed = Vec::new();
    let cmd = manager.begin_start(true).expect("start must be accepted");
    assert_eq!(cmd.program, "python3");
    assert_eq!(cmd.script, "core/main.py");
    feed.push(manager.get_status());
    manager.on_worker_ready();
    feed.push(manager.get_status());
    assert_eq!(feed, vec![AIEngineStatus::Starting, AIEngineStatus::Ready]);
}

#[test]
fn startup_timeout_fails_with_error_status() {
    // A worker that never answers the status poll: start fails with
    // StartupFailed once the timeout elapses, and the status is an error.
    let mut manager = AIEngineManager::new(test_config().with_startup_timeout(2000));
    manager.begin_start(true).expect("start must be accepted");
    assert_eq!(manager.get_status(), AIEngineStatus::Starting);
    let e = manager.on_startup_timeout();
    assert!(matches!(e, EngineError::StartupFailed(_)));
    assert!(matches!(manager.get_status(), AIEngineStatus::Error(_)));
}

#[test]
fn invalid_config_is_rejected_before_spawn() {
    let mut manager = AIEngineManager::new(
        AIEngineConfig::new().with_python_executable("../evil".to_string()),
    );
    match manager.begin_start(true) {
        Err(EngineError::ConfigurationError(_)) => {},
        other => panic!("expected a configuration error, got {:?}", other),
    }
    assert_eq!(manager.get_status(), AIEngineStatus::Stopped);
}

#[test]
fn missing_paths_are_rejected() {
    let mut manager = AIEngineManager::new(test_config());
    match manager.begin_start(false) {
        Err(EngineError::ConfigurationError(_)) => {},
        other => panic!("expected a configuration error, got {:?}", other),
    }
}

#[test]
fn dangerous_environment_entries_are_dropped() {
    let config = test_config()
        .with_env_var("PATH".to_string(), "/usr/bin".to_string())
        .with_env_var("LD_PRELOAD".to_string(), "/tmp/evil.so".to_string())
        .with_env_var("DYLD_LIBRARY_PATH".to_string(), "/tmp".to_string())
        .with_env_var("API_MODE".to_string(), "local".to_string());
    let mut manager = AIEngineManager::new(config);
    let cmd = manager.begin_start(true).expect("start must be accepted");
    let keys: Vec<&str> = cmd.environment.iter().map(|e| e.0.as_str()).collect();
    assert_eq!(keys, vec!["PATH", "API_MODE"]);
}

#[test]
fn requests_are_gated_on_ready() {
    let mut manager = AIEngineManager::new(test_config());
    assert!(manager.request_gate().is_err());
    manager.begin_start(true).unwrap();
    assert!(manager.request_gate().is_err());
    manager.on_worker_ready();
    assert!(manager.request_gate().is_ok());
    manager.stop();
    match manager.request_gate() {
        Err(EngineError::CommunicationError(m)) => assert_eq!(m, "engine not ready"),
        other => panic!("expected a communication error, got {:?}", other),
    }
}

#[test]
fn backoff_follows_the_doubling_schedule() {
    // min(base * 2^(k-1), cap) for k = 1..max.
    let base = 2000;
    let cap = 60000;
    assert_eq!(backoff_delay_ms(base, cap, 1), 2000);
    assert_eq!(backoff_delay_ms(base, cap, 2), 4000);
    assert_eq!(backoff_delay_ms(base, cap, 3), 8000);
    assert_eq!(backoff_delay_ms(base, cap, 4), 16000);
    assert_eq!(backoff_delay_ms(base, cap, 5), 32000);
    assert_eq!(backoff_delay_ms(base, cap, 6), 60000);
    assert_eq!(backoff_delay_ms(base, cap, 7), 60000);
}

#[test]
fn backoff_handles_extremes_without_overflow() {
    assert_eq!(backoff_delay_ms(0, 60000, 5), 0);
    assert_eq!(backoff_delay_ms(1, 0, 1), 0);
    assert_eq!(backoff_delay_ms(u64::MAX, u64::MAX, 3), u64::MAX);
    assert_eq!(backoff_delay_ms(3, u64::MAX, 64), u64::MAX);
    assert_eq!(backoff_delay_ms(1, 1 << 40, 200), 1 << 40);
}

#[test]
fn crash_is_detected_within_one_tick() {
    // The worker killed externally: the next supervision tick announces
    // Restarting with attempt 1, and a successful respawn reaches Ready.
    let mut manager = AIEngineManager::new(test_config());
    manager.begin_start(true).unwrap();
    manager.on_worker_ready();
    match manager.on_supervision_tick(false) {
        RestartDecision::RestartAfter(delay, attempt) => {
            assert_eq!(attempt, 1);
            assert_eq!(delay, 2000);
        },
        other => panic!("expected a restart, got {:?}", other),
    }
    assert_eq!(manager.get_status(), AIEngineStatus::Restarting);
    manager.on_worker_ready();
    assert_eq!(manager.get_status(), AIEngineStatus::Ready);
}

#[test]
fn restarts_never_exceed_the_budget() {
    // With a budget of two, the first two crashes announce Restarting and
    // the third parks the supervisor in the terminal error.
    let mut manager = AIEngineManager::new(test_config().with_max_restart_attempts(2));
    manager.begin_start(true).unwrap();
    manager.on_worker_ready();

    match manager.on_supervision_tick(false) {
        RestartDecision::RestartAfter(_, 1) => {},
        other => panic!("expected attempt 1, got {:?}", other),
    }
    manager.on_worker_ready();
    match manager.on_supervision_tick(false) {
        RestartDecision::RestartAfter(_, 2) => {},
        other => panic!("expected attempt 2, got {:?}", other),
    }
    manager.on_worker_ready();
    match manager.on_supervision_tick(false) {
        RestartDecision::GiveUp => {},
        other => panic!("expected the supervisor to give up, got {:?}", other),
    }
    match manager.get_status() {
        AIEngineStatus::Error(m) => assert_eq!(m, "max restart attempts exceeded"),
        other => panic!("expected a terminal error, got {:?}", other),
    }
    match manager.on_supervision_tick(false) {
        RestartDecision::StopLoop => {},
        other => panic!("the loop must stop after giving up, got {:?}", other),
    }
}

#[test]
fn ticks_idle_while_running_and_stop_after_shutdown() {
    let mut manager = AIEngineManager::new(test_config());
    manager.begin_start(true).unwrap();
    manager.on_worker_ready();
    assert!(matches!(manager.on_supervision_tick(true), RestartDecision::Idle));
    manager.stop();
    assert!(matches!(manager.on_supervision_tick(false), RestartDecision::StopLoop));
    assert_eq!(manager.restart_count(), 0);
}

#[test]
fn successful_start_resets_the_restart_counter() {
    // After the supervisor gave up, an explicit start leaves the terminal
    // error and begins afresh with a zero counter.
    let mut manager = AIEngineManager::new(test_config().with_max_restart_attempts(1));
    manager.begin_start(true).unwrap();
    manager.on_worker_ready();
    manager.on_supervision_tick(false);
    assert_eq!(manager.restart_count(), 1);
    manager.on_worker_ready();
    assert!(matches!(manager.on_supervision_tick(false), RestartDecision::GiveUp));
    manager.begin_start(true).expect("an explicit start leaves the terminal error");
    assert_eq!(manager.restart_count(), 0);
    assert_eq!(manager.get_status(), AIEngineStatus::Starting);
}

#[test]
fn double_start_is_refused() {
    // Starting an engine that is already starting or serving changes
    // nothing: no second process is spawned.
    let mut manager = AIEngineManager::new(test_config());
    manager.begin_start(true).unwrap();
    assert!(manager.begin_start(true).is_err());
    assert_eq!(manager.get_status(), AIEngineStatus::Starting);
    manager.on_worker_ready();
    assert!(manager.begin_start(true).is_err());
    assert_eq!(manager.get_status(), AIEngineStatus::Ready);
}

#[test]
fn respawn_keeps_the_budget_and_the_stop() {
    // A respawn hands out the spawn specification without touching the
    // counter; repeated crashes therefore still exhaust the budget.  And a
    // stop issued during the backoff sleep makes the respawn refuse.
    let mut manager = AIEngineManager::new(test_config().with_max_restart_attempts(2));
    manager.begin_start(true).unwrap();
    manager.on_worker_ready();

    assert!(matches!(manager.on_supervision_tick(false), RestartDecision::RestartAfter(_, 1)));
    let cmd = manager.begin_respawn(true).expect("a respawn is due");
    assert_eq!(cmd.program, "python3");
    assert_eq!(manager.restart_count(), 1);
    assert_eq!(manager.get_status(), AIEngineStatus::Restarting);
    manager.on_worker_ready();

    assert!(matches!(manager.on_supervision_tick(false), RestartDecision::RestartAfter(_, 2)));
    manager.stop();
    assert!(manager.begin_respawn(true).is_err());
    assert_eq!(manager.get_status(), AIEngineStatus::Stopped);

    // Outside a restart, there is nothing to respawn.
    let fresh = AIEngineManager::new(test_config());
    assert!(fresh.begin_respawn(true).is_err());
}

#[test]
fn readiness_is_read_from_the_reply() {
    assert!(reply_reports_ready(&Some("{\"status\":\"ready\"}".to_string())));
    assert!(reply_reports_ready(&Some("ready".to_string())));
    assert!(!reply_reports_ready(&Some("{\"status\":\"starting\"}".to_string())));
    assert!(!reply_reports_ready(&None));
}

#[test]
fn health_reports_do_not_respawn_or_touch_the_counter() {
    let mut manager = AIEngineManager::new(test_config().with_max_restart_attempts(1));
    manager.begin_start(true).unwrap();
    manager.on_worker_ready();
    manager.on_health_report(false);
    assert_eq!(manager.get_status(), AIEngineStatus::HealthCheckFailed);
    assert_eq!(manager.restart_count(), 0);
    manager.on_health_report(true);
    assert_eq!(manager.get_status(), AIEngineStatus::HealthCheckFailed);
}

#[test]
fn health_monitor_verdicts_follow_the_outcome() {
    let mut monitor = HealthMonitor::new();
    assert!(monitor.start());
    assert!(!monitor.start());

    let v = monitor.on_tick(ProbeOutcome::Responded(12), 1000);
    assert!(v.healthy);
    assert_eq!(v.response_time_ms, 12);
    assert_eq!(v.error, None);
    assert_eq!(v.timestamp_ms, 1000);

    let v = monitor.on_tick(ProbeOutcome::ProcessNotRunning, 2000);
    assert!(!v.healthy);
    assert_eq!(v.error.as_deref(), Some("process not running"));

    let v = monitor.on_tick(ProbeOutcome::TimedOut, 3000);
    assert!(!v.healthy);
    assert_eq!(v.error.as_deref(), Some("health check timed out"));

    let v = monitor.on_tick(ProbeOutcome::RpcError("worker overloaded".to_string()), 4000);
    assert!(!v.healthy);
    assert_eq!(v.error.as_deref(), Some("worker overloaded"));

    let last = monitor.last_result().expect("a verdict was produced");
    assert_eq!(last.timestamp_ms, 4000);
    let stats = monitor.stats();
    assert!(!stats.is_healthy);
    assert_eq!(stats.last_result, "worker overloaded");

    monitor.stop();
    assert!(!monitor.is_running());
}

#[test]
fn health_stats_before_any_probe() {
    let monitor = HealthMonitor::new();
    let stats = monitor.stats();
    assert!(!stats.is_healthy);
    assert_eq!(stats.last_result, "no probe yet");
}

#[test]
fn config_validation_covers_every_rule() {
    assert!(test_config().validate().is_ok());
    assert_eq!(
        AIEngineConfig::new().with_python_executable("a/../b".to_string()).validate().unwrap_err(),
        "Python executable path contains potentially unsafe characters"
    );
    assert_eq!(
        AIEngineConfig::new().with_python_executable("~/py".to_string()).validate().unwrap_err(),
        "Python executable path contains potentially unsafe characters"
    );
    assert_eq!(
        AIEngineConfig::new().with_ai_core_script("../main.py".to_string()).validate().unwrap_err(),
        "AI Core script path contains potentially unsafe characters"
    );
    assert_eq!(
        AIEngineConfig::new().with_working_directory("a/..".to_string()).validate().unwrap_err(),
        "Working directory path contains potentially unsafe characters"
    );
    assert_eq!(
        AIEngineConfig::new().with_startup_timeout(0).validate().unwrap_err(),
        "Startup timeout must be greater than 0"
    );
    assert_eq!(
        AIEngineConfig::new().with_startup_timeout(300001).validate().unwrap_err(),
        "Startup timeout too large (max 300 seconds)"
    );
    assert_eq!(
        AIEngineConfig::new().with_health_check_interval(0).validate().unwrap_err(),
        "Health check interval must be greater than 0"
    );
    assert_eq!(
        AIEngineConfig::new().with_max_restart_attempts(11).validate().unwrap_err(),
        "Maximum restart attempts too high (max 10)"
    );
    assert_eq!(
        AIEngineConfig::new()
            .with_env_var("A\0B".to_string(), "v".to_string())
            .validate()
            .unwrap_err(),
        "Environment variables cannot contain null bytes"
    );
    assert_eq!(
        AIEngineConfig::new()
            .with_env_var("K".repeat(1001), "v".to_string())
            .validate()
            .unwrap_err(),
        "Environment variable key or value too long"
    );
}

#[test]
fn engine_error_messages() {
    assert_eq!(EngineError::ProcessCrashed.message(), "Process crashed");
    assert_eq!(
        EngineError::TimeoutError("request 4".to_string()).message(),
        "Timeout: request 4"
    );
    assert_eq!(
        EngineError::JsonRpcError("bad params".to_string()).message(),
        "JSON-RPC error: bad params"
    );
    assert_eq!(
        EngineError::StartupFailed("no answer".to_string()).message(),
        "Startup failed: no answer"
    );
}

#[test]
fn spawn_failure_is_terminal_for_the_attempt() {
    let mut manager = AIEngineManager::new(test_config());
    manager.begin_start(true).unwrap();
    let e = manager.on_spawn_failed("no such file".to_string());
    assert!(matches!(e, EngineError::ProcessSpawnError(_)));
    assert_eq!(e.message(), "Process spawn failed: no such file");
    match manager.get_status() {
        AIEngineStatus::Error(m) => assert_eq!(m, "Failed to spawn AI Core process: no such file"),
        other => panic!("expected a terminal error, got {:?}", other),
    }
}

#[test]
fn request_frames_pass_through_the_gate() {
    let mut manager = AIEngineManager::new(test_config());
    let mut channel = IPCChannel::new();
    assert!(send_request_frame(&manager, &mut channel, "status".to_string(), None).is_err());
    assert_eq!(channel.pending_count(), 0);

    manager.begin_start(true).unwrap();
    manager.on_worker_ready();
    let (message, seq) =
        send_request_frame(&manager, &mut channel, "status".to_string(), None).unwrap();
    assert_eq!(message.method, "status");
    assert_eq!(message.id.as_deref(), Some(ai_engine_core::ids::render_id(seq).as_str()));
    assert_eq!(channel.pending_count(), 1);

    let note =
        send_notification_frame(&manager, &channel, "shutdown".to_string(), None).unwrap();
    assert_eq!(note.id, None);
    assert_eq!(channel.pending_count(), 1);
}

#[test]
fn worker_errors_pass_through_verbatim() {
    let ok = RpcResponse {
        version: "2.0".to_string(),
        result: Some("{\"rows\":3}".to_string()),
        error: None,
        id: "1".to_string(),
    };
    assert_eq!(interpret_response(ok).unwrap().as_deref(), Some("{\"rows\":3}"));

    let failed = RpcResponse {
        version: "2.0".to_string(),
        result: None,
        error: Some("{\"code\":-1}".to_string()),
        id: "2".to_string(),
    };
    match interpret_response(failed) {
        Err(EngineError::JsonRpcError(m)) => assert_eq!(m, "{\"code\":-1}"),
        other => panic!("expected the worker's error, got {:?}", other),
    }
}

#[test]
fn health_failure_does_not_block_the_restart_path() {
    // An unhealthy verdict reports HealthCheckFailed; when the process is
    // then found dead, the supervision tick still owns the respawn.
    let mut manager = AIEngineManager::new(test_config());
    manager.begin_start(true).unwrap();
    manager.on_worker_ready();
    manager.on_health_report(false);
    assert_eq!(manager.get_status(), AIEngineStatus::HealthCheckFailed);
    match manager.on_supervision_tick(false) {
        RestartDecision::RestartAfter(_, 1) => {},
        other => panic!("expected a restart, got {:?}", other),
    }
    assert_eq!(manager.get_status(), AIEngineStatus::Restarting);
}

#[test]
fn env_vars_overwrite_by_key() {
    // Setting a key twice keeps one entry, carrying the newest value.
    let mut manager = AIEngineManager::new(
        test_config()
            .with_env_var("API_MODE".to_string(), "remote".to_string())
            .with_env_var("PATH".to_string(), "/usr/bin".to_string())
            .with_env_var("API_MODE".to_string(), "local".to_string()),
    );
    let cmd = manager.begin_start(true).expect("start must be accepted");
    let env: Vec<(&str, &str)> =
        cmd.environment.iter().map(|e| (e.0.as_str(), e.1.as_str())).collect();
    assert_eq!(env, vec![("API_MODE", "local"), ("PATH", "/usr/bin")]);
}

#[test]
fn late_ready_cannot_override_a_stop() {
    // The ready answer of a respawn racing an explicit stop: by the time it
    // lands, the engine is stopped, and stays stopped.
    let mut manager = AIEngineManager::new(test_config());
    manager.begin_start(true).unwrap();
    manager.on_worker_ready();
    manager.on_supervision_tick(false);
    manager.stop();
    manager.on_worker_ready();
    assert_eq!(manager.get_status(), AIEngineStatus::Stopped);
}
