use ironclaw::config::{default_state_dir, join_path, BackendConfig, Config, ConfigEnv};

fn empty_env(on_windows: bool) -> ConfigEnv {
    ConfigEnv {
        backend_url: None,
        heartbeat_interval: None,
        max_retries: None,
        retry_delay: None,
        timeout: None,
        state_path: None,
        identity_path: None,
        policy_path: None,
        spool_dir: None,
        buffer_capacity: None,
        batch_size: None,
        batch_timeout: None,
        spool_max_mb: None,
        role: None,
        group: None,
        on_windows,
    }
}

#[test]
fn defaults_when_nothing_is_set() {
    let c = Config::from_env(&empty_env(false));
    assert_eq!(c.backend.url, "http://192.168.100.115:8000");
    assert_eq!(c.backend.heartbeat_interval_secs, 60);
    assert_eq!(c.backend.max_retries, 3);
    assert_eq!(c.backend.retry_delay_secs, 5);
    assert_eq!(c.backend.timeout_secs, 30);
    assert_eq!(c.paths.identity_path, "./ironclaw-state/identity.json");
    assert_eq!(c.paths.policy_path, "./ironclaw-state/policy.json");
    assert_eq!(c.paths.spool_dir, "./ironclaw-state/spool");
    assert_eq!(c.buffer.memory_capacity, 10_000);
    assert_eq!(c.buffer.batch_size, 500);
    assert_eq!(c.buffer.batch_timeout_secs, 5);
    assert_eq!(c.buffer.spool_max_mb, 512);
    assert_eq!(c.initial_role, "default");
    assert_eq!(c.group, "default");
}

#[test]
fn windows_defaults_use_program_data() {
    let c = Config::from_env(&empty_env(true));
    assert_eq!(c.paths.identity_path, "C:\\ProgramData\\Ironclaw\\identity.json");
    assert_eq!(c.paths.spool_dir, "C:\\ProgramData\\Ironclaw\\spool");
}

#[test]
fn values_from_the_environment_win() {
    let mut env = empty_env(false);
    env.backend_url = Some("https://hq.example".to_string());
    env.heartbeat_interval = Some("15".to_string());
    env.max_retries = Some("7".to_string());
    env.state_path = Some("/var/lib/ironclaw/".to_string());
    env.policy_path = Some("/etc/ironclaw/policy.json".to_string());
    env.buffer_capacity = Some("42".to_string());
    env.spool_max_mb = Some("0".to_string());
    env.role = Some("analyst".to_string());
    env.group = Some("hr".to_string());
    let c = Config::from_env(&env);
    assert_eq!(c.backend.url, "https://hq.example");
    assert_eq!(c.backend.heartbeat_interval_secs, 15);
    assert_eq!(c.backend.max_retries, 7);
    assert_eq!(c.paths.identity_path, "/var/lib/ironclaw/identity.json");
    assert_eq!(c.paths.policy_path, "/etc/ironclaw/policy.json");
    assert_eq!(c.buffer.memory_capacity, 42);
    assert_eq!(c.buffer.spool_max_mb, 0);
    assert_eq!(c.initial_role, "analyst");
    assert_eq!(c.group, "hr");
}

#[test]
fn unparsable_numbers_fall_back_to_defaults() {
    let mut env = empty_env(false);
    env.heartbeat_interval = Some("soon".to_string());
    env.batch_size = Some("-1".to_string());
    env.timeout = Some("".to_string());
    let c = Config::from_env(&env);
    assert_eq!(c.backend.heartbeat_interval_secs, 60);
    assert_eq!(c.buffer.batch_size, 500);
    assert_eq!(c.backend.timeout_secs, 30);
}

#[test]
fn rejected_role_falls_back_to_default_role() {
    let mut env = empty_env(false);
    env.role = Some("not a role".to_string());
    let c = Config::from_env(&env);
    assert_eq!(c.initial_role, "default");
}

#[test]
fn backend_urls() {
    let b = BackendConfig {
        url: "http://hq:8000".to_string(),
        heartbeat_interval_secs: 60,
        max_retries: 3,
        retry_delay_secs: 5,
        timeout_secs: 30,
    };
    assert_eq!(b.register_url(), "http://hq:8000/api/v1/agents/register");
    assert_eq!(b.heartbeat_url("a-1"), "http://hq:8000/api/v1/agents/a-1/heartbeat");
    assert_eq!(
        b.policy_url("a-1", 17),
        "http://hq:8000/api/v1/agents/a-1/policy?current_version=17"
    );
    assert_eq!(b.policy_url("a-1", 0), "http://hq:8000/api/v1/agents/a-1/policy?current_version=0");
    assert_eq!(b.events_url("a-1"), "http://hq:8000/api/v1/agents/a-1/events");
}

#[test]
fn state_dir_per_platform() {
    assert_eq!(default_state_dir(true), "C:\\ProgramData\\Ironclaw");
    assert_eq!(default_state_dir(false), "./ironclaw-state");
}

#[test]
fn join_follows_path_rules() {
    assert_eq!(join_path("/a/b", "c", false), "/a/b/c");
    assert_eq!(join_path("/a/b/", "c", false), "/a/b/c");
    assert_eq!(join_path("", "c", false), "c");
    assert_eq!(join_path("a\\b", "c", false), "a\\b/c");
    assert_eq!(join_path("a\\b", "c", true), "a\\b\\c");
    assert_eq!(join_path("a\\b\\", "c", true), "a\\b\\c");
    assert_eq!(join_path("C:", "c", true), "C:c");
}
