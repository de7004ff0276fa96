//! Agent identity — keypair, agent_id, backend public key, and the policy in
//! force when it was saved. Loading and saving identity.json, and reading the
//! host's OS details, are the caller's part.
use vstd::prelude::*;

use crate::policy::Policy;
use crate::text::{chars_of, owned};

verus! {

/// The agent's complete identity, persisted after enrollment.
#[derive(Clone, Debug)]
pub struct Identity {
    /// Permanent ID assigned by HQ on registration.
    pub agent_id: String,
    /// Base64-encoded Ed25519 private (signing) key.
    pub private_key_b64: String,
    /// Base64-encoded Ed25519 public key (sent to HQ during registration).
    pub public_key_b64: String,
    /// Base64-encoded public key of the backend.
    pub backend_public_key_b64: String,
    /// The policy that was active when this identity was last saved.
    pub policy: Policy,
}

/// A freshly generated Ed25519 keypair (before enrollment): the 32-byte
/// secret key and the Base64 encoding of its public key.
pub struct GeneratedKeypair {
    pub secret_key: [u8; 32],
    pub public_key_b64: String,
}

/// Registration request body sent to POST /api/v1/agents/register.
#[derive(Clone, Debug)]
pub struct RegisterRequest {
    pub hostname: String,
    pub os_info: OsInfo,
    pub public_key: String,
    pub os_version: String,
    pub agent_version: String,
}

/// OS metadata included in the registration request.
#[derive(Clone, Debug)]
pub struct OsInfo {
    pub os: String,
    pub version: String,
    pub arch: String,
}

/// Response from POST /api/v1/agents/register.
#[derive(Clone, Debug)]
pub struct RegisterResponse {
    pub agent_id: String,
    pub backend_public_key: String,
    pub policy: Policy,
}

// ---------------------------------------------------------------------------
// Roles
// ---------------------------------------------------------------------------

/// A character a role name may hold: an ASCII letter or digit, `-` or `_`.
pub open spec fn role_char_ok(c: char) -> bool {
    ('a' <= c && c <= 'z') || ('A' <= c && c <= 'Z') || ('0' <= c && c <= '9') || c == '-' || c
        == '_'
}

/// What is wrong with a role name, if anything: it must hold 1 to 64
/// characters, each an ASCII letter or digit, `-` or `_`.
pub open spec fn role_error(role: Seq<char>) -> Option<Seq<char>> {
    if role.len() == 0 {
        Some("role must not be empty"@)
    } else if role.len() > 64 {
        Some("role is longer than 64 characters"@)
    } else if exists|i: int| 0 <= i < role.len() && !role_char_ok(#[trigger] role[i]) {
        Some("role may hold only ASCII letters, digits, '-' and '_'"@)
    } else {
        None
    }
}

/// The role of an agent that has none configured, or a rejected one.
pub fn default_role() -> (r: String)
    ensures
        r@ == "default"@,
{
    owned("default")
}

/// Check a role name against the role rules.
pub fn validate_role(role: &str) -> (r: Result<(), String>)
    ensures
        match role_error(role@) {
            None => r is Ok,
            Some(m) => r matches Err(e) && e@ == m,
        },
{
    let c = chars_of(role);
    if c.len() == 0 {
        return Err(owned("role must not be empty"));
    }
    if c.len() > 64 {
        return Err(owned("role is longer than 64 characters"));
    }
    let mut i: usize = 0;
    while i < c.len()
        invariant
            i <= c@.len(),
            c@ == role@,
            0 < c@.len() <= 64,
            forall|j: int| 0 <= j < i ==> role_char_ok(#[trigger] c@[j]),
        decreases c@.len() - i,
    {
        let ch = c[i];
        let ok = ('a' <= ch && ch <= 'z') || ('A' <= ch && ch <= 'Z') || ('0' <= ch && ch <= '9')
            || ch == '-' || ch == '_';
        if !ok {
            assert(!role_char_ok(role@[i as int]));
            return Err(owned("role may hold only ASCII letters, digits, '-' and '_'"));
        }
        i += 1;
    }
    Ok(())
}

// ---------------------------------------------------------------------------
// Encodings and keys
// ---------------------------------------------------------------------------

/// One character of the standard Base64 alphabet.
pub open spec fn b64_char(v: int) -> char {
    if v < 26 {
        (('A' as u32) + v) as char
    } else if v < 52 {
        (('a' as u32) + v - 26) as char
    } else if v < 62 {
        (('0' as u32) + v - 52) as char
    } else if v == 62 {
        '+'
    } else {
        '/'
    }
}

/// Standard Base64 with `=` padding: each group of three bytes becomes four
/// characters; a last group of one or two bytes is padded.
pub open spec fn base64_spec(b: Seq<u8>) -> Seq<char>
    decreases b.len(),
{
    if b.len() == 0 {
        Seq::empty()
    } else {
        let x = b[0] as int;
        if b.len() == 1 {
            seq![b64_char(x / 4), b64_char((x % 4) * 16), '=', '=']
        } else {
            let y = b[1] as int;
            if b.len() == 2 {
                seq![b64_char(x / 4), b64_char((x % 4) * 16 + y / 16), b64_char((y % 16) * 4), '=']
            } else {
                let z = b[2] as int;
                seq![
                    b64_char(x / 4),
                    b64_char((x % 4) * 16 + y / 16),
                    b64_char((y % 16) * 4 + z / 64),
                    b64_char(z % 64),
                ] + base64_spec(b.skip(3))
            }
        }
    }
}

/// `base64::engine::general_purpose::STANDARD.encode`: standard Base64 with
/// padding.
#[verifier::external_body]
fn base64_encode(data: &[u8]) -> (r: String)
    ensures
        r@ == base64_spec(data@),
{
    base64::Engine::encode(&base64::engine::general_purpose::STANDARD, data)
}

/// The Ed25519 public key of a 32-byte secret key.
pub uninterp spec fn ed25519_public_spec(secret: Seq<u8>) -> Seq<u8>;

/// `ed25519_dalek::SigningKey::from_bytes(secret).verifying_key()`: the
/// 32-byte public key belonging to `secret`.
#[verifier::external_body]
fn ed25519_public_key(secret: &[u8; 32]) -> (r: Vec<u8>)
    ensures
        r@ == ed25519_public_spec(secret@),
        r@.len() == 32,
{
    ed25519_dalek::SigningKey::from_bytes(secret).verifying_key().as_bytes().to_vec()
}

/// `rand::Error`, as the OS random source reports a failure.
#[verifier::external_type_specification]
#[verifier::external_body]
pub struct ExRandError(rand::Error);

/// `rand::rngs::OsRng.try_fill_bytes`: 32 bytes from the operating system's
/// secure random source, or the source's error. Nothing is promised of the
/// bytes.
#[verifier::external_body]
fn random_secret_key() -> (r: Result<[u8; 32], rand::Error>) {
    let mut secret = [0u8; 32];
    match <rand::rngs::OsRng as rand::RngCore>::try_fill_bytes(&mut rand::rngs::OsRng, &mut secret) {
        Ok(()) => Ok(secret),
        Err(e) => Err(e),
    }
}

/// Generating a keypair failed.
#[derive(Debug, Clone, Copy, PartialEq, Eq, Structural)]
pub enum KeypairError {
    /// The operating system's secure random source failed.
    RandomSource,
}

/// Generate a new Ed25519 keypair from the OS secure random source (as
/// `SigningKey::generate` does: 32 random bytes are the secret key). Fails
/// only when the random source does.
pub fn generate_keypair() -> (r: Result<GeneratedKeypair, KeypairError>)
    ensures
        r matches Ok(kp) ==> kp.public_key_b64@ == base64_spec(ed25519_public_spec(kp.secret_key@)),
{
    match random_secret_key() {
        Ok(secret) => Ok(GeneratedKeypair::from_secret(secret)),
        Err(_) => Err(KeypairError::RandomSource),
    }
}

impl GeneratedKeypair {
    /// The keypair of a 32-byte Ed25519 secret key, with its public key
    /// Base64-encoded.
    pub fn from_secret(secret_key: [u8; 32]) -> (kp: GeneratedKeypair)
        ensures
            kp.secret_key == secret_key,
            kp.public_key_b64@ == base64_spec(ed25519_public_spec(secret_key@)),
    {
        let public = ed25519_public_key(&secret_key);
        let public_key_b64 = base64_encode(public.as_slice());
        GeneratedKeypair { secret_key, public_key_b64 }
    }

    /// The Base64 encoding of the secret key, as persisted in identity.json.
    pub fn private_key_b64(&self) -> (r: String)
        ensures
            r@ == base64_spec(self.secret_key@),
    {
        base64_encode(&self.secret_key)
    }
}

impl RegisterRequest {
    /// The registration request for this host and keypair.
    pub fn new(hostname: String, os_info: OsInfo, public_key: String, agent_version: String) -> (r:
        RegisterRequest)
        ensures
            r.hostname == hostname,
            r.os_info == os_info,
            r.public_key == public_key,
            r.os_version@ == os_info.version@,
            r.agent_version == agent_version,
    {
        let os_version = os_info.version.clone();
        RegisterRequest { hostname, os_info, public_key, os_version, agent_version }
    }
}

impl Identity {
    /// The identity an accepted registration establishes.
    pub fn from_registration(kp: &GeneratedKeypair, res: RegisterResponse) -> (id: Identity)
        ensures
            id.agent_id == res.agent_id,
            id.private_key_b64@ == base64_spec(kp.secret_key@),
            id.public_key_b64@ == kp.public_key_b64@,
            id.backend_public_key_b64 == res.backend_public_key,
            id.policy == res.policy,
    {
        Identity {
            agent_id: res.agent_id,
            private_key_b64: kp.private_key_b64(),
            public_key_b64: kp.public_key_b64.clone(),
            backend_public_key_b64: res.backend_public_key,
            policy: res.policy,
        }
    }
}

} // verus!
