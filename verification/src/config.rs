//! Spawn specification and tunables for the supervised engine process.
//!
//! A configuration is supplied once when a supervisor is built and is
//! immutable thereafter.  It is validated before every spawn attempt:
//! paths must be free of traversal sequences, timeouts must lie in bounded
//! ranges, and the restart-attempt ceiling is capped.  Checks that need the
//! file system (path existence) are the embedding runtime's concern.

use vstd::prelude::*;
use vstd::pervasive::VecAdditionalExecFns;

verus! {

/// Mathematical model of a configuration: every string as a sequence of
/// characters, every duration in milliseconds.
pub ghost struct ConfigModel {
    pub python_executable: Seq<char>,
    pub ai_core_script: Seq<char>,
    pub working_directory: Seq<char>,
    pub environment_variables: Seq<(Seq<char>, Seq<char>)>,
    pub startup_timeout_ms: u64,
    pub health_check_interval_ms: u64,
    pub health_check_timeout_ms: u64,
    pub max_restart_attempts: u32,
    pub restart_delay_base_ms: u64,
    pub max_restart_delay_ms: u64,
    pub debug_logging: bool,
    pub log_file_path: Option<Seq<char>>,
}

/// Spawn specification plus tunables for the engine process.
#[derive(Debug, Clone)]
pub struct AIEngineConfig {
    /// Path of the Python executable.
    pub python_executable: String,
    /// Path of the AI core script handed to the executable.
    pub ai_core_script: String,
    /// Working directory of the child process.
    pub working_directory: String,
    /// Environment variables passed to the child process.
    pub environment_variables: Vec<(String, String)>,
    /// How long a freshly spawned process may take to report readiness.
    pub startup_timeout_ms: u64,
    /// Period of the health-probe loop.
    pub health_check_interval_ms: u64,
    /// Timeout of a single health probe.
    pub health_check_timeout_ms: u64,
    /// Ceiling on consecutive restart attempts before giving up.
    pub max_restart_attempts: u32,
    /// Base of the exponential restart backoff.
    pub restart_delay_base_ms: u64,
    /// Cap on the restart backoff delay.
    pub max_restart_delay_ms: u64,
    /// Whether verbose logging is requested from the embedding runtime.
    pub debug_logging: bool,
    /// Optional log file path.
    pub log_file_path: Option<String>,
}

impl View for AIEngineConfig {
    type V = ConfigModel;

    open spec fn view(&self) -> ConfigModel {
        ConfigModel {
            python_executable: self.python_executable@,
            ai_core_script: self.ai_core_script@,
            working_directory: self.working_directory@,
            environment_variables: Seq::new(
                self.environment_variables@.len(),
                |i: int|
                    (
                        self.environment_variables@[i].0@,
                        self.environment_variables@[i].1@,
                    ),
            ),
            startup_timeout_ms: self.startup_timeout_ms,
            health_check_interval_ms: self.health_check_interval_ms,
            health_check_timeout_ms: self.health_check_timeout_ms,
            max_restart_attempts: self.max_restart_attempts,
            restart_delay_base_ms: self.restart_delay_base_ms,
            max_restart_delay_ms: self.max_restart_delay_ms,
            debug_logging: self.debug_logging,
            log_file_path: match self.log_file_path {
                Some(ref p) => Some(p@),
                None => None,
            },
        }
    }
}

/// A character sequence holds two dots in a row: the traversal pattern
/// rejected in every configured path.
pub open spec fn has_dotdot(s: Seq<char>) -> bool {
    exists|i: int| 0 <= i && i + 1 < s.len() && #[trigger] s[i] == '.' && s[i + 1] == '.'
}

/// A character sequence holds the given character.
pub open spec fn has_char(s: Seq<char>, c: char) -> bool {
    exists|i: int| 0 <= i < s.len() && s[i] == c
}

/// One environment entry is acceptable: no null bytes, bounded lengths.
pub open spec fn env_entry_ok(e: (Seq<char>, Seq<char>)) -> bool {
    &&& !has_char(e.0, '\u{0}')
    &&& !has_char(e.1, '\u{0}')
    &&& e.0.len() <= 1000
    &&& e.1.len() <= 10000
}

/// The whole configuration is acceptable.
pub open spec fn config_valid(c: ConfigModel) -> bool {
    &&& !has_dotdot(c.python_executable)
    &&& !has_char(c.python_executable, '~')
    &&& !has_dotdot(c.ai_core_script)
    &&& !has_dotdot(c.working_directory)
    &&& 0 < c.startup_timeout_ms <= 300000
    &&& c.health_check_interval_ms > 0
    &&& c.health_check_timeout_ms > 0
    &&& c.max_restart_attempts <= 10
    &&& forall|i: int|
        0 <= i < c.environment_variables.len() ==> env_entry_ok(
            #[trigger] c.environment_variables[i],
        )
}

/// An environment entry set, map-fashion: the first entry under the key
/// takes the new value; a fresh key is appended.
pub open spec fn env_set(
    es: Seq<(Seq<char>, Seq<char>)>,
    k: Seq<char>,
    v: Seq<char>,
) -> Seq<(Seq<char>, Seq<char>)>
    decreases es.len(),
{
    if es.len() == 0 {
        seq![(k, v)]
    } else if es[0].0 == k {
        seq![(k, v)] + es.skip(1)
    } else {
        seq![es[0]] + env_set(es.skip(1), k, v)
    }
}

/// Setting a key that stands at a known first index updates that entry.
proof fn lemma_env_set_at(es: Seq<(Seq<char>, Seq<char>)>, k: Seq<char>, v: Seq<char>, i: int)
    requires
        0 <= i < es.len(),
        es[i].0 == k,
        forall|j: int| 0 <= j < i ==> (#[trigger] es[j]).0 != k,
    ensures
        env_set(es, k, v) == es.update(i, (k, v)),
    decreases i,
{
    if i == 0 {
        assert(env_set(es, k, v) == seq![(k, v)] + es.skip(1));
        assert(seq![(k, v)] + es.skip(1) =~= es.update(0, (k, v)));
    } else {
        let t = es.skip(1);
        assert(es[0].0 != k);
        assert(t[i - 1] == es[i]);
        assert(forall|j: int| 0 <= j < i - 1 ==> (#[trigger] t[j]) == es[j + 1]);
        lemma_env_set_at(t, k, v, i - 1);
        assert(env_set(es, k, v) == seq![es[0]] + t.update(i - 1, (k, v)));
        assert(seq![es[0]] + t.update(i - 1, (k, v)) =~= es.update(i, (k, v)));
    }
}

/// Setting a key that stands nowhere appends a fresh entry.
proof fn lemma_env_set_absent(es: Seq<(Seq<char>, Seq<char>)>, k: Seq<char>, v: Seq<char>)
    requires
        forall|j: int| 0 <= j < es.len() ==> (#[trigger] es[j]).0 != k,
    ensures
        env_set(es, k, v) == es.push((k, v)),
    decreases es.len(),
{
    if es.len() == 0 {
        assert(env_set(es, k, v) =~= es.push((k, v)));
    } else {
        let t = es.skip(1);
        assert(forall|j: int| 0 <= j < t.len() ==> (#[trigger] t[j]) == es[j + 1]);
        lemma_env_set_absent(t, k, v);
        assert(env_set(es, k, v) == seq![es[0]] + t.push((k, v)));
        assert(seq![es[0]] + t.push((k, v)) =~= es.push((k, v)));
    }
}

/// The message of the first environment entry that breaks a rule, if any:
/// null bytes are reported before lengths, entries in order.
pub open spec fn env_error_msg(es: Seq<(Seq<char>, Seq<char>)>) -> Option<Seq<char>>
    decreases es.len(),
{
    if es.len() == 0 {
        None
    } else if has_char(es[0].0, '\u{0}') || has_char(es[0].1, '\u{0}') {
        Some("Environment variables cannot contain null bytes"@)
    } else if es[0].0.len() > 1000 || es[0].1.len() > 10000 {
        Some("Environment variable key or value too long"@)
    } else {
        env_error_msg(es.skip(1))
    }
}

/// The message of the first configuration rule broken, if any, in the
/// order of [`config_valid`].
pub open spec fn config_error_msg(c: ConfigModel) -> Option<Seq<char>> {
    if has_dotdot(c.python_executable) || has_char(c.python_executable, '~') {
        Some("Python executable path contains potentially unsafe characters"@)
    } else if has_dotdot(c.ai_core_script) {
        Some("AI Core script path contains potentially unsafe characters"@)
    } else if has_dotdot(c.working_directory) {
        Some("Working directory path contains potentially unsafe characters"@)
    } else if c.startup_timeout_ms == 0 {
        Some("Startup timeout must be greater than 0"@)
    } else if c.startup_timeout_ms > 300000 {
        Some("Startup timeout too large (max 300 seconds)"@)
    } else if c.health_check_interval_ms == 0 {
        Some("Health check interval must be greater than 0"@)
    } else if c.health_check_timeout_ms == 0 {
        Some("Health check timeout must be greater than 0"@)
    } else if c.max_restart_attempts > 10 {
        Some("Maximum restart attempts too high (max 10)"@)
    } else {
        env_error_msg(c.environment_variables)
    }
}

/// Scan a string for two consecutive dots.
fn contains_dotdot(s: &str) -> (r: bool)
    ensures
        r == has_dotdot(s@),
{
    let n = s.unicode_len();
    if n < 2 {
        return false;
    }
    let mut i: usize = 0;
    while i + 1 < n
        invariant
            n == s@.len(),
            i + 1 <= n,
            forall|j: int| 0 <= j && j + 1 < i + 1 ==> !(#[trigger] s@[j] == '.' && s@[j + 1] == '.'),
        decreases n - i,
    {
        if s.get_char(i) == '.' && s.get_char(i + 1) == '.' {
            return true;
        }
        i = i + 1;
    }
    false
}

/// Scan a string for one character.
fn contains_char(s: &str, c: char) -> (r: bool)
    ensures
        r == has_char(s@, c),
{
    let n = s.unicode_len();
    let mut i: usize = 0;
    while i < n
        invariant
            n == s@.len(),
            i <= n,
            forall|j: int| 0 <= j < i ==> s@[j] != c,
        decreases n - i,
    {
        if s.get_char(i) == c {
            return true;
        }
        i = i + 1;
    }
    false
}

impl Default for AIEngineConfig {
    /// The same stock configuration that [`AIEngineConfig::new`] builds.
    fn default() -> (r: Self)
        ensures
            r@ == AIEngineConfig::new_spec(),
    {
        AIEngineConfig::new()
    }
}

impl AIEngineConfig {
    /// The stock configuration's model.
    pub open spec fn new_spec() -> ConfigModel {
        ConfigModel {
            python_executable: "python"@,
            ai_core_script: "ai_core/main.py"@,
            working_directory: "."@,
            environment_variables: Seq::empty(),
            startup_timeout_ms: 30000,
            health_check_interval_ms: 10000,
            health_check_timeout_ms: 5000,
            max_restart_attempts: 3,
            restart_delay_base_ms: 2000,
            max_restart_delay_ms: 60000,
            debug_logging: false,
            log_file_path: None,
        }
    }

    /// A fresh configuration with the default spawn specification and
    /// tunables.
    pub fn new() -> (r: Self)
        ensures
            r@ == AIEngineConfig::new_spec(),
    {
        let r = AIEngineConfig {
            python_executable: String::from_str("python"),
            ai_core_script: String::from_str("ai_core/main.py"),
            working_directory: String::from_str("."),
            environment_variables: Vec::new(),
            startup_timeout_ms: 30000,
            health_check_interval_ms: 10000,
            health_check_timeout_ms: 5000,
            max_restart_attempts: 3,
            restart_delay_base_ms: 2000,
            max_restart_delay_ms: 60000,
            debug_logging: false,
            log_file_path: None,
        };
        proof {
            assert(r@.environment_variables =~= Seq::<(Seq<char>, Seq<char>)>::empty());
        }
        r
    }

    /// Replace the Python executable path.
    pub fn with_python_executable(self, path: String) -> (r: Self)
        ensures
            r@ == (ConfigModel { python_executable: path@, ..self@ }),
    {
        AIEngineConfig { python_executable: path, ..self }
    }

    /// Replace the AI core script path.
    pub fn with_ai_core_script(self, path: String) -> (r: Self)
        ensures
            r@ == (ConfigModel { ai_core_script: path@, ..self@ }),
    {
        AIEngineConfig { ai_core_script: path, ..self }
    }

    /// Replace the working directory.
    pub fn with_working_directory(self, path: String) -> (r: Self)
        ensures
            r@ == (ConfigModel { working_directory: path@, ..self@ }),
    {
        AIEngineConfig { working_directory: path, ..self }
    }

    /// Set one environment variable, map-fashion: an entry already under
    /// the key takes the new value, a fresh key is appended.
    pub fn with_env_var(self, key: String, value: String) -> (r: Self)
        ensures
            r@ == (ConfigModel {
                environment_variables: env_set(self@.environment_variables, key@, value@),
                ..self@
            }),
    {
        let ghost pre = self@;
        let ghost envs = pre.environment_variables;
        let n = self.environment_variables.len();
        let mut idx: usize = 0;
        let mut found: bool = false;
        while idx < n
            invariant
                self@ == pre,
                envs == pre.environment_variables,
                n == self.environment_variables@.len(),
                idx <= n,
                forall|j: int| 0 <= j < idx ==> (#[trigger] envs[j]).0 != key@,
                found ==> idx < n && envs[idx as int].0 == key@,
            ensures
                self@ == pre,
                idx <= n,
                forall|j: int| 0 <= j < idx ==> (#[trigger] envs[j]).0 != key@,
                !found ==> forall|j: int| 0 <= j < n ==> (#[trigger] envs[j]).0 != key@,
                found ==> idx < n && envs[idx as int].0 == key@,
            decreases n - idx + (if found {
                0int
            } else {
                1int
            }),
        {
            if found {
                break ;
            }
            proof {
                assert(envs == self@.environment_variables);
                assert(envs[idx as int].0 == self.environment_variables@[idx as int].0@);
            }
            if self.environment_variables[idx].0.eq(&key) {
                found = true;
            } else {
                idx = idx + 1;
            }
        }
        let ghost kv = key@;
        let ghost vv = value@;
        let mut env = self.environment_variables;
        if found {
            proof {
                lemma_env_set_at(envs, kv, vv, idx as int);
            }
            env.set(idx, (key, value));
            let r = AIEngineConfig { environment_variables: env, ..self };
            proof {
                assert(r@.environment_variables =~= envs.update(idx as int, (kv, vv)));
                assert(r@ == (ConfigModel {
                    environment_variables: env_set(pre.environment_variables, kv, vv),
                    ..pre
                }));
            }
            r
        } else {
            proof {
                lemma_env_set_absent(envs, kv, vv);
            }
            env.push((key, value));
            let r = AIEngineConfig { environment_variables: env, ..self };
            proof {
                assert(r@.environment_variables =~= envs.push((kv, vv)));
                assert(r@ == (ConfigModel {
                    environment_variables: env_set(pre.environment_variables, kv, vv),
                    ..pre
                }));
            }
            r
        }
    }

    /// Replace the startup timeout.
    pub fn with_startup_timeout(self, timeout_ms: u64) -> (r: Self)
        ensures
            r@ == (ConfigModel { startup_timeout_ms: timeout_ms, ..self@ }),
    {
        AIEngineConfig { startup_timeout_ms: timeout_ms, ..self }
    }

    /// Replace the health-check interval.
    pub fn with_health_check_interval(self, interval_ms: u64) -> (r: Self)
        ensures
            r@ == (ConfigModel { health_check_interval_ms: interval_ms, ..self@ }),
    {
        AIEngineConfig { health_check_interval_ms: interval_ms, ..self }
    }

    /// Replace the restart-attempt ceiling.
    pub fn with_max_restart_attempts(self, attempts: u32) -> (r: Self)
        ensures
            r@ == (ConfigModel { max_restart_attempts: attempts, ..self@ }),
    {
        AIEngineConfig { max_restart_attempts: attempts, ..self }
    }

    /// Switch verbose logging on or off.
    pub fn with_debug_logging(self, enabled: bool) -> (r: Self)
        ensures
            r@ == (ConfigModel { debug_logging: enabled, ..self@ }),
    {
        AIEngineConfig { debug_logging: enabled, ..self }
    }

    /// Set the log file path.
    pub fn with_log_file(self, path: String) -> (r: Self)
        ensures
            r@ == (ConfigModel { log_file_path: Some(path@), ..self@ }),
    {
        AIEngineConfig { log_file_path: Some(path), ..self }
    }

    /// Check the configuration against the validity rules.  Returns `Ok`
    /// exactly when `config_valid` holds of the model; on failure the
    /// message is exactly [`config_error_msg`]: the first rule broken, in
    /// the order of `config_valid`.
    pub fn validate(&self) -> (r: Result<(), String>)
        ensures
            r is Ok <==> config_valid(self@),
            match r {
                Ok(()) => true,
                Err(m) => Some(m@) == config_error_msg(self@),
            },
    {
        if contains_dotdot(self.python_executable.as_str())
            || contains_char(self.python_executable.as_str(), '~') {
            return Err(String::from_str(
                "Python executable path contains potentially unsafe characters",
            ));
        }
        if contains_dotdot(self.ai_core_script.as_str()) {
            return Err(String::from_str(
                "AI Core script path contains potentially unsafe characters",
            ));
        }
        if contains_dotdot(self.working_directory.as_str()) {
            return Err(String::from_str(
                "Working directory path contains potentially unsafe characters",
            ));
        }
        if self.startup_timeout_ms == 0 {
            return Err(String::from_str("Startup timeout must be greater than 0"));
        }
        if self.startup_timeout_ms > 300000 {
            return Err(String::from_str("Startup timeout too large (max 300 seconds)"));
        }
        if self.health_check_interval_ms == 0 {
            return Err(String::from_str("Health check interval must be greater than 0"));
        }
        if self.health_check_timeout_ms == 0 {
            return Err(String::from_str("Health check timeout must be greater than 0"));
        }
        if self.max_restart_attempts > 10 {
            return Err(String::from_str("Maximum restart attempts too high (max 10)"));
        }
        let ghost envs = self@.environment_variables;
        let n = self.environment_variables.len();
        let mut i: usize = 0;
        proof {
            assert(envs.skip(0) =~= envs);
        }
        while i < n
            invariant
                envs == self@.environment_variables,
                n == self.environment_variables.len(),
                i <= n,
                forall|j: int| 0 <= j < i ==> env_entry_ok(#[trigger] self@.environment_variables[j]),
                config_error_msg(self@) == env_error_msg(envs.skip(i as int)),
            decreases n - i,
        {
            let key = &self.environment_variables[i].0;
            let value = &self.environment_variables[i].1;
            proof {
                assert(self@.environment_variables[i as int].0 == key@);
                assert(self@.environment_variables[i as int].1 == value@);
                assert(envs.skip(i as int)[0] == envs[i as int]);
                assert(envs.skip(i as int).skip(1) =~= envs.skip(i as int + 1));
            }
            if contains_char(key.as_str(), '\0') || contains_char(value.as_str(), '\0') {
                return Err(String::from_str(
                    "Environment variables cannot contain null bytes",
                ));
            }
            if key.as_str().unicode_len() > 1000 || value.as_str().unicode_len() > 10000 {
                return Err(String::from_str(
                    "Environment variable key or value too long",
                ));
            }
            i = i + 1;
        }
        proof {
            assert(envs.skip(n as int) =~= Seq::<(Seq<char>, Seq<char>)>::empty());
        }
        Ok(())
    }
}

/// One sequence begins with another.
pub open spec fn starts_with(s: Seq<char>, p: Seq<char>) -> bool {
    p.len() <= s.len() && s.subrange(0, p.len() as int) == p
}

/// An environment key that must not reach the child process: the
/// dynamic-linker search-path families.
pub open spec fn dangerous_env_key(k: Seq<char>) -> bool {
    starts_with(k, "LD_"@) || starts_with(k, "DYLD_"@)
}

/// The environment with every dangerous entry dropped, order kept.
pub open spec fn keep_env(s: Seq<(Seq<char>, Seq<char>)>) -> Seq<(Seq<char>, Seq<char>)>
    decreases s.len(),
{
    if s.len() == 0 {
        s
    } else if dangerous_env_key(s.last().0) {
        keep_env(s.drop_last())
    } else {
        keep_env(s.drop_last()).push(s.last())
    }
}

/// Every entry kept by [`keep_env`] is harmless and came from the input.
#[verifier::spinoff_prover]
pub proof fn lemma_keep_env_sound(s: Seq<(Seq<char>, Seq<char>)>)
    ensures
        forall|i: int|
            0 <= i < keep_env(s).len() ==> !dangerous_env_key(#[trigger] keep_env(s)[i].0),
        forall|i: int| 0 <= i < keep_env(s).len() ==> s.contains(#[trigger] keep_env(s)[i]),
    decreases s.len(),
{
    if s.len() > 0 {
        lemma_keep_env_sound(s.drop_last());
        assert(forall|i: int|
            0 <= i < s.drop_last().len() ==> s.contains(#[trigger] s.drop_last()[i])) by {
            assert(forall|i: int|
                0 <= i < s.drop_last().len() ==> s.drop_last()[i] == #[trigger] s[i]);
        }
        assert(s.contains(s.last()));
        assert forall|i: int|
            0 <= i < keep_env(s).len() implies s.contains(#[trigger] keep_env(s)[i]) by {
            if !dangerous_env_key(s.last().0) && i == keep_env(s).len() - 1 {
                assert(keep_env(s)[i] == s.last());
            } else {
                assert(keep_env(s)[i] == keep_env(s.drop_last())[i]);
                assert(s.drop_last().contains(keep_env(s)[i]));
                let k = choose|k: int|
                    0 <= k < s.drop_last().len() && s.drop_last()[k] == keep_env(s)[i];
                assert(s[k] == keep_env(s)[i]);
            }
        }
    }
}

/// Whether a string begins with a given prefix.
fn str_starts_with(s: &str, p: &str) -> (r: bool)
    ensures
        r == starts_with(s@, p@),
{
    let n = s.unicode_len();
    let m = p.unicode_len();
    if m > n {
        return false;
    }
    let mut i: usize = 0;
    while i < m
        invariant
            n == s@.len(),
            m == p@.len(),
            m <= n,
            i <= m,
            forall|j: int| 0 <= j < i ==> s@[j] == p@[j],
        decreases m - i,
    {
        if s.get_char(i) != p.get_char(i) {
            proof {
                assert(s@.subrange(0, m as int)[i as int] == s@[i as int]);
            }
            return false;
        }
        i = i + 1;
    }
    proof {
        assert(s@.subrange(0, m as int) =~= p@);
    }
    true
}

/// Drop every environment entry whose key is dangerous, keeping order:
/// what remains is exactly [`keep_env`] of the input.
pub fn filter_env(env: &Vec<(String, String)>) -> (r: Vec<(String, String)>)
    ensures
        Seq::new(r@.len(), |i: int| (r@[i].0@, r@[i].1@)) == keep_env(
            Seq::new(env@.len(), |i: int| (env@[i].0@, env@[i].1@)),
        ),
{
    let ghost all: Seq<(Seq<char>, Seq<char>)> = Seq::new(
        env@.len(),
        |i: int| (env@[i].0@, env@[i].1@),
    );
    let n = env.len();
    let mut out: Vec<(String, String)> = Vec::new();
    let mut i: usize = 0;
    while i < n
        invariant
            n == env@.len(),
            i <= n,
            all == Seq::new(env@.len(), |j: int| (env@[j].0@, env@[j].1@)),
            Seq::new(out@.len(), |j: int| (out@[j].0@, out@[j].1@)) == keep_env(
                all.subrange(0, i as int),
            ),
        decreases n - i,
    {
        let ghost pre = all.subrange(0, i as int);
        let ghost cur = all.subrange(0, i as int + 1);
        proof {
            assert(cur.drop_last() =~= pre);
            assert(cur.last() == all[i as int]);
        }
        let key = &env[i].0;
        let dangerous = str_starts_with(key.as_str(), "LD_") || str_starts_with(
            key.as_str(),
            "DYLD_",
        );
        proof {
            assert(all[i as int].0 == key@);
        }
        if !dangerous {
            let entry = (env[i].0.clone(), env[i].1.clone());
            proof {
                assert(entry.0@ == all[i as int].0 && entry.1@ == all[i as int].1);
            }
            out.push(entry);
            proof {
                assert(Seq::new(out@.len(), |j: int| (out@[j].0@, out@[j].1@)) =~= keep_env(
                    pre,
                ).push(all[i as int]));
            }
        }
        proof {
            assert(Seq::new(out@.len(), |j: int| (out@[j].0@, out@[j].1@)) =~= keep_env(cur));
        }
        i = i + 1;
    }
    proof {
        assert(all.subrange(0, n as int) =~= all);
    }
    out
}

} // verus!
