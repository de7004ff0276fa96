//! Static agent configuration — built from the process environment with safe
//! defaults. This is the startup config (paths, URLs, intervals); runtime
//! behaviour is controlled by the policy received from HQ.
//!
//! Reading the environment is the caller's part: it hands the raw values over
//! in a `ConfigEnv`, and this module decides what they mean.
use vstd::prelude::*;

use crate::identity::{default_role, role_error, validate_role};
use crate::text::{append, decimal, owned, parse_u64, parse_u64_spec, u64_text};

verus! {

/// The raw values of the agent's environment variables (`None` when a
/// variable is unset or not valid Unicode).
pub struct ConfigEnv {
    /// IRONCLAW_BACKEND_URL
    pub backend_url: Option<String>,
    /// IRONCLAW_HEARTBEAT_INTERVAL
    pub heartbeat_interval: Option<String>,
    /// IRONCLAW_MAX_RETRIES
    pub max_retries: Option<String>,
    /// IRONCLAW_RETRY_DELAY
    pub retry_delay: Option<String>,
    /// IRONCLAW_TIMEOUT
    pub timeout: Option<String>,
    /// IRONCLAW_STATE_PATH
    pub state_path: Option<String>,
    /// IRONCLAW_IDENTITY_PATH
    pub identity_path: Option<String>,
    /// IRONCLAW_POLICY_PATH
    pub policy_path: Option<String>,
    /// IRONCLAW_SPOOL_DIR
    pub spool_dir: Option<String>,
    /// IRONCLAW_BUFFER_CAPACITY
    pub buffer_capacity: Option<String>,
    /// IRONCLAW_BATCH_SIZE
    pub batch_size: Option<String>,
    /// IRONCLAW_BATCH_TIMEOUT
    pub batch_timeout: Option<String>,
    /// IRONCLAW_SPOOL_MAX_MB
    pub spool_max_mb: Option<String>,
    /// IRONCLAW_ROLE
    pub role: Option<String>,
    /// IRONCLAW_GROUP
    pub group: Option<String>,
    /// The agent runs on Windows (paths use Windows conventions).
    pub on_windows: bool,
}

/// Backend connectivity settings.
#[derive(Clone, Debug)]
pub struct BackendConfig {
    /// Base URL of the HQ backend.
    pub url: String,
    /// Heartbeat interval in seconds.
    pub heartbeat_interval_secs: u64,
    /// Max retry attempts for HTTP calls.
    pub max_retries: u32,
    /// Base backoff delay in seconds.
    pub retry_delay_secs: u64,
    /// HTTP request timeout in seconds.
    pub timeout_secs: u64,
}

/// File system paths used by the agent.
#[derive(Clone, Debug)]
pub struct PathsConfig {
    /// Path to identity.json
    pub identity_path: String,
    /// Path to policy.json (persisted active policy)
    pub policy_path: String,
    /// Directory for disk spool files
    pub spool_dir: String,
}

/// In-memory and on-disk buffer settings.
#[derive(Clone, Debug)]
pub struct BufferConfig {
    /// Max events held in memory before overflow to disk.
    pub memory_capacity: usize,
    /// Max events per batch sent to the backend.
    pub batch_size: usize,
    /// Max seconds before sending a partial batch.
    pub batch_timeout_secs: u64,
    /// Disk spool toggle: > 0 enables disk overflow, 0 disables it.
    pub spool_max_mb: u64,
}

/// Full agent startup configuration.
#[derive(Clone, Debug)]
pub struct Config {
    pub backend: BackendConfig,
    pub paths: PathsConfig,
    pub buffer: BufferConfig,
    /// Role used only at first enrollment.
    pub initial_role: String,
    /// Group/department this agent belongs to.
    pub group: String,
}

// ---------------------------------------------------------------------------
// Specifications
// ---------------------------------------------------------------------------

/// A numeric setting: the variable's value when it parses as a `u64`,
/// otherwise the default.
pub open spec fn setting_u64(raw: Option<String>, default: u64) -> u64 {
    match raw {
        Some(v) => match parse_u64_spec(v@) {
            Some(n) => n,
            None => default,
        },
        None => default,
    }
}

/// A text setting: the variable's value, or the default.
pub open spec fn setting_text(raw: Option<String>, default: Seq<char>) -> Seq<char> {
    match raw {
        Some(v) => v@,
        None => default,
    }
}

/// A path separator on the platform.
pub open spec fn is_separator(c: char, on_windows: bool) -> bool {
    c == '/' || (on_windows && c == '\\')
}

/// A bare drive such as `C:`.
pub open spec fn is_bare_drive(p: Seq<char>) -> bool {
    p.len() == 2 && p[1] == ':' && (('a' <= p[0] && p[0] <= 'z') || ('A' <= p[0] && p[0] <= 'Z'))
}

/// `PathBuf::join` with a relative file name: a separator goes between the
/// two unless the base is empty, already ends in a separator, or (on
/// Windows) is a bare drive.
pub open spec fn join_spec(base: Seq<char>, name: Seq<char>, on_windows: bool) -> Seq<char> {
    if base.len() == 0 || is_separator(base.last(), on_windows) || (on_windows && is_bare_drive(
        base,
    )) {
        base + name
    } else {
        base + (if on_windows {
            "\\"@
        } else {
            "/"@
        }) + name
    }
}

/// The default state directory.
pub open spec fn default_state_dir_spec(on_windows: bool) -> Seq<char> {
    if on_windows {
        "C:\\ProgramData\\Ironclaw"@
    } else {
        "./ironclaw-state"@
    }
}

/// The state directory in force.
pub open spec fn state_dir_spec(env: &ConfigEnv) -> Seq<char> {
    setting_text(env.state_path, default_state_dir_spec(env.on_windows))
}

/// A path that may be overridden, and otherwise lives in the state directory.
pub open spec fn state_path_spec(env: &ConfigEnv, raw: Option<String>, name: Seq<char>) -> Seq<char> {
    setting_text(raw, join_spec(state_dir_spec(env), name, env.on_windows))
}

/// The initial role: the IRONCLAW_ROLE value when it is set and passes the
/// role rules, otherwise the default role.
pub open spec fn initial_role_spec(env: &ConfigEnv) -> Seq<char> {
    match env.role {
        Some(r) => if role_error(r@) is None {
            r@
        } else {
            "default"@
        },
        None => "default"@,
    }
}

// ---------------------------------------------------------------------------
// Building the configuration
// ---------------------------------------------------------------------------

fn env_u64(raw: &Option<String>, default: u64) -> (r: u64)
    ensures
        r == setting_u64(*raw, default),
{
    match raw {
        Some(v) => match parse_u64(v.as_str()) {
            Some(n) => n,
            None => default,
        },
        None => default,
    }
}

fn env_text(raw: &Option<String>, default: &str) -> (r: String)
    ensures
        r@ == setting_text(*raw, default@),
{
    match raw {
        Some(v) => v.clone(),
        None => owned(default),
    }
}

/// The default state directory of the platform.
pub fn default_state_dir(on_windows: bool) -> (r: String)
    ensures
        r@ == default_state_dir_spec(on_windows),
{
    if on_windows {
        owned("C:\\ProgramData\\Ironclaw")
    } else {
        owned("./ironclaw-state")
    }
}

/// `PathBuf::join` of a base directory and a relative file name.
pub fn join_path(base: &str, name: &str, on_windows: bool) -> (r: String)
    ensures
        r@ == join_spec(base@, name@, on_windows),
{
    let b = crate::text::chars_of(base);
    let mut out = owned(base);
    let n = b.len();
    let no_sep = if n == 0 {
        true
    } else {
        let last = b[n - 1];
        let drive = n == 2 && b[1] == ':' && (('a' <= b[0] && b[0] <= 'z') || ('A' <= b[0] && b[0]
            <= 'Z'));
        last == '/' || (on_windows && last == '\\') || (on_windows && drive)
    };
    if !no_sep {
        if on_windows {
            append(&mut out, "\\");
        } else {
            append(&mut out, "/");
        }
    }
    append(&mut out, name);
    out
}

impl BackendConfig {
    fn from_env(env: &ConfigEnv) -> (r: BackendConfig)
        ensures
            r.url@ == setting_text(env.backend_url, "http://192.168.100.115:8000"@),
            r.heartbeat_interval_secs == setting_u64(env.heartbeat_interval, 60),
            r.max_retries == setting_u64(env.max_retries, 3) as u32,
            r.retry_delay_secs == setting_u64(env.retry_delay, 5),
            r.timeout_secs == setting_u64(env.timeout, 30),
    {
        BackendConfig {
            url: env_text(&env.backend_url, "http://192.168.100.115:8000"),
            heartbeat_interval_secs: env_u64(&env.heartbeat_interval, 60),
            max_retries: env_u64(&env.max_retries, 3) as u32,
            retry_delay_secs: env_u64(&env.retry_delay, 5),
            timeout_secs: env_u64(&env.timeout, 30),
        }
    }

    /// POST /api/v1/agents/register
    pub fn register_url(&self) -> (r: String)
        ensures
            r@ == self.url@ + "/api/v1/agents/register"@,
    {
        let mut s = self.url.clone();
        append(&mut s, "/api/v1/agents/register");
        s
    }

    /// POST /api/v1/agents/{id}/heartbeat
    pub fn heartbeat_url(&self, agent_id: &str) -> (r: String)
        ensures
            r@ == self.url@ + "/api/v1/agents/"@ + agent_id@ + "/heartbeat"@,
    {
        let mut s = self.url.clone();
        append(&mut s, "/api/v1/agents/");
        append(&mut s, agent_id);
        append(&mut s, "/heartbeat");
        s
    }

    /// GET /api/v1/agents/{id}/policy?current_version={version}
    pub fn policy_url(&self, agent_id: &str, current_version: u64) -> (r: String)
        ensures
            r@ == self.url@ + "/api/v1/agents/"@ + agent_id@ + "/policy?current_version="@
                + decimal(current_version as nat),
    {
        let mut s = self.url.clone();
        append(&mut s, "/api/v1/agents/");
        append(&mut s, agent_id);
        append(&mut s, "/policy?current_version=");
        let v = u64_text(current_version);
        append(&mut s, v.as_str());
        s
    }

    /// POST /api/v1/agents/{id}/events
    pub fn events_url(&self, agent_id: &str) -> (r: String)
        ensures
            r@ == self.url@ + "/api/v1/agents/"@ + agent_id@ + "/events"@,
    {
        let mut s = self.url.clone();
        append(&mut s, "/api/v1/agents/");
        append(&mut s, agent_id);
        append(&mut s, "/events");
        s
    }
}

impl PathsConfig {
    fn from_env(env: &ConfigEnv) -> (r: PathsConfig)
        ensures
            r.identity_path@ == state_path_spec(env, env.identity_path, "identity.json"@),
            r.policy_path@ == state_path_spec(env, env.policy_path, "policy.json"@),
            r.spool_dir@ == state_path_spec(env, env.spool_dir, "spool"@),
    {
        let state_dir = match &env.state_path {
            Some(v) => v.clone(),
            None => default_state_dir(env.on_windows),
        };
        let identity_path = match &env.identity_path {
            Some(v) => v.clone(),
            None => join_path(state_dir.as_str(), "identity.json", env.on_windows),
        };
        let policy_path = match &env.policy_path {
            Some(v) => v.clone(),
            None => join_path(state_dir.as_str(), "policy.json", env.on_windows),
        };
        let spool_dir = match &env.spool_dir {
            Some(v) => v.clone(),
            None => join_path(state_dir.as_str(), "spool", env.on_windows),
        };
        PathsConfig { identity_path, policy_path, spool_dir }
    }
}

impl BufferConfig {
    fn from_env(env: &ConfigEnv) -> (r: BufferConfig)
        ensures
            r.memory_capacity == setting_u64(env.buffer_capacity, 10_000) as usize,
            r.batch_size == setting_u64(env.batch_size, 500) as usize,
            r.batch_timeout_secs == setting_u64(env.batch_timeout, 5),
            r.spool_max_mb == setting_u64(env.spool_max_mb, 512),
    {
        BufferConfig {
            memory_capacity: env_u64(&env.buffer_capacity, 10_000) as usize,
            batch_size: env_u64(&env.batch_size, 500) as usize,
            batch_timeout_secs: env_u64(&env.batch_timeout, 5),
            spool_max_mb: env_u64(&env.spool_max_mb, 512),
        }
    }
}

impl Config {
    /// The configuration the environment describes, with safe defaults for
    /// every unset or unparsable value.
    pub fn from_env(env: &ConfigEnv) -> (r: Config)
        ensures
            r.backend.url@ == setting_text(env.backend_url, "http://192.168.100.115:8000"@),
            r.backend.heartbeat_interval_secs == setting_u64(env.heartbeat_interval, 60),
            r.backend.max_retries == setting_u64(env.max_retries, 3) as u32,
            r.backend.retry_delay_secs == setting_u64(env.retry_delay, 5),
            r.backend.timeout_secs == setting_u64(env.timeout, 30),
            r.paths.identity_path@ == state_path_spec(env, env.identity_path, "identity.json"@),
            r.paths.policy_path@ == state_path_spec(env, env.policy_path, "policy.json"@),
            r.paths.spool_dir@ == state_path_spec(env, env.spool_dir, "spool"@),
            r.buffer.memory_capacity == setting_u64(env.buffer_capacity, 10_000) as usize,
            r.buffer.batch_size == setting_u64(env.batch_size, 500) as usize,
            r.buffer.batch_timeout_secs == setting_u64(env.batch_timeout, 5),
            r.buffer.spool_max_mb == setting_u64(env.spool_max_mb, 512),
            r.initial_role@ == initial_role_spec(env),
            r.group@ == setting_text(env.group, "default"@),
    {
        let initial_role = match &env.role {
            Some(v) => match validate_role(v.as_str()) {
                Ok(()) => v.clone(),
                Err(_) => default_role(),
            },
            None => default_role(),
        };
        Config {
            backend: BackendConfig::from_env(env),
            paths: PathsConfig::from_env(env),
            buffer: BufferConfig::from_env(env),
            initial_role,
            group: env_text(&env.group, "default"),
        }
    }
}

} // verus!
