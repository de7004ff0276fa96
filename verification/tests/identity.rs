use ironclaw::identity::{
    default_role, generate_keypair, validate_role, GeneratedKeypair, Identity, OsInfo,
    RegisterRequest, RegisterResponse,
};
use ironclaw::policy::Policy;

#[test]
fn keypair_public_key_matches_secret() {
    // RFC 8032, test 1.
    let secret: [u8; 32] = [
        0x9d, 0x61, 0xb1, 0x9d, 0xef, 0xfd, 0x5a, 0x60, 0xba, 0x84, 0x4a, 0xf4, 0x92, 0xec, 0x2c,
        0xc4, 0x44, 0x49, 0xc5, 0x69, 0x7b, 0x32, 0x69, 0x19, 0x70, 0x3b, 0xac, 0x03, 0x1c, 0xae,
        0x7f, 0x60,
    ];
    let kp = GeneratedKeypair::from_secret(secret);
    assert_eq!(kp.secret_key, secret);
    assert_eq!(kp.public_key_b64, "11qYAYKxCrfVS/7TyWQHOg7hcvPapiMlrwIaaPcHURo=");
    assert_eq!(kp.private_key_b64(), "nWGxne/9WmC6hEr0kuwsxERJxWl7MmkZcDusAxyuf2A=");
}

#[test]
fn generated_keypairs_are_fresh_and_well_formed() {
    let a = generate_keypair().unwrap();
    let b = generate_keypair().unwrap();
    assert_ne!(a.secret_key, b.secret_key);
    assert_eq!(a.public_key_b64.len(), 44);
    assert!(a.public_key_b64.ends_with('='));
    assert_eq!(a.private_key_b64().len(), 44);
    assert_ne!(a.public_key_b64, a.private_key_b64());
}

#[test]
fn registration_request_copies_os_version() {
    let os = OsInfo { os: "windows".to_string(), version: "10.0.19045".to_string(), arch: "x86_64".to_string() };
    let r = RegisterRequest::new("WS01".to_string(), os, "pk".to_string(), "0.1.0".to_string());
    assert_eq!(r.hostname, "WS01");
    assert_eq!(r.os_version, "10.0.19045");
    assert_eq!(r.os_info.arch, "x86_64");
    assert_eq!(r.public_key, "pk");
    assert_eq!(r.agent_version, "0.1.0");
}

#[test]
fn identity_from_registration() {
    let kp = GeneratedKeypair { secret_key: [0u8; 32], public_key_b64: "pub".to_string() };
    let res = RegisterResponse {
        agent_id: "agent-1".to_string(),
        backend_public_key: "backend".to_string(),
        policy: Policy::default(),
    };
    let id = Identity::from_registration(&kp, res);
    assert_eq!(id.agent_id, "agent-1");
    assert_eq!(id.private_key_b64, "AAAAAAAAAAAAAAAAAAAAAAAAAAAAAAAAAAAAAAAAAAA=");
    assert_eq!(id.public_key_b64, "pub");
    assert_eq!(id.backend_public_key_b64, "backend");
    assert_eq!(id.policy.version, 1);
}

#[test]
fn role_rules() {
    assert_eq!(default_role(), "default");
    assert_eq!(validate_role("analyst"), Ok(()));
    assert_eq!(validate_role("hr-team_2"), Ok(()));
    assert_eq!(validate_role(&"a".repeat(64)), Ok(()));
    assert_eq!(validate_role(""), Err("role must not be empty".to_string()));
    assert_eq!(
        validate_role(&"a".repeat(65)),
        Err("role is longer than 64 characters".to_string())
    );
    assert_eq!(
        validate_role("not a role"),
        Err("role may hold only ASCII letters, digits, '-' and '_'".to_string())
    );
}

#[test]
fn generated_public_key_belongs_to_secret() {
    let kp = generate_keypair().unwrap();
    let again = GeneratedKeypair::from_secret(kp.secret_key);
    assert_eq!(again.public_key_b64, kp.public_key_b64);
}
