//! The policy document assigned by HQ: what to collect, rate limits, the hard
//! invariants that can never be switched off, and on-site detection filters.
//! The agent receives it, checks its fingerprint and applies it; it never
//! invents policy fields.
use vstd::prelude::*;

use crate::text::{append, bool_string, bool_text, chars_of, decimal, owned, str_equal, u64_text};

verus! {

/// One hard safety rule.
#[derive(Clone, Copy, Debug, PartialEq, Eq, Structural)]
pub struct InvariantRule {
    pub enabled: bool,
}

/// Hard safety rules — enforced regardless of the rest of the policy.
#[derive(Clone, Copy, Debug, PartialEq, Eq, Structural)]
pub struct PolicyInvariants {
    pub lsass_access: InvariantRule,
    pub unsigned_drivers: InvariantRule,
    pub credential_dumping: InvariantRule,
}

impl PolicyInvariants {
    /// All three rules switched on.
    pub open spec fn all_enabled(self) -> bool {
        &&& self.lsass_access.enabled
        &&& self.unsigned_drivers.enabled
        &&& self.credential_dumping.enabled
    }
}

impl Default for PolicyInvariants {
    fn default() -> (r: Self)
        ensures
            r.all_enabled(),
    {
        PolicyInvariants {
            lsass_access: InvariantRule { enabled: true },
            unsigned_drivers: InvariantRule { enabled: true },
            credential_dumping: InvariantRule { enabled: true },
        }
    }
}

/// File event collection settings.
#[derive(Clone, Debug)]
pub struct FileEventsConfig {
    pub enabled: bool,
    pub path_filters: Vec<String>,
}

impl Default for FileEventsConfig {
    fn default() -> (r: Self)
        ensures
            r.enabled,
            r.path_filters@.len() == 1,
            r.path_filters@[0]@ == "C:\\Windows\\Temp\\*"@,
    {
        let mut path_filters: Vec<String> = Vec::new();
        path_filters.push(owned("C:\\Windows\\Temp\\*"));
        FileEventsConfig { enabled: true, path_filters }
    }
}

/// Telemetry collection configuration.
#[derive(Clone, Debug)]
pub struct PolicyCollection {
    /// Sysmon event IDs to collect.
    pub sysmon_events: Vec<u32>,
    /// Windows Security event IDs to collect.
    pub security_events: Vec<u32>,
    /// Collect PowerShell script block logging.
    pub powershell_logging: bool,
    /// Collect DLL load events (Sysmon event 7).
    pub dll_events_enabled: bool,
    /// File event collection settings.
    pub file_events: FileEventsConfig,
}

impl Default for PolicyCollection {
    fn default() -> (r: Self)
        ensures
            r.sysmon_events@ == seq![1u32, 3, 7, 8, 10, 11, 12, 13, 22, 23],
            r.security_events@ == seq![4624u32, 4625, 4672, 4688, 4720],
            r.powershell_logging,
            !r.dll_events_enabled,
            r.file_events.enabled,
            r.file_events.path_filters@.len() == 1,
            r.file_events.path_filters@[0]@ == "C:\\Windows\\Temp\\*"@,
    {
        PolicyCollection {
            sysmon_events: vec![1, 3, 7, 8, 10, 11, 12, 13, 22, 23],
            security_events: vec![4624, 4625, 4672, 4688, 4720],
            powershell_logging: true,
            dll_events_enabled: false,
            file_events: FileEventsConfig::default(),
        }
    }
}

/// Event rate limits to protect the network and backend.
#[derive(Clone, Copy, Debug, PartialEq, Eq, Structural)]
pub struct PolicyRateLimits {
    pub events_per_second: u32,
    pub network_events_per_second: u32,
}

impl Default for PolicyRateLimits {
    fn default() -> (r: Self)
        ensures
            r.events_per_second == 1000,
            r.network_events_per_second == 200,
    {
        PolicyRateLimits { events_per_second: 1000, network_events_per_second: 200 }
    }
}

/// Lightweight on-site detection filter.
#[derive(Clone, Debug)]
pub struct DetectionFilter {
    pub name: String,
    /// Field to match against (e.g. "cmdline").
    pub match_field: String,
    /// Pattern to search for.
    pub pattern: String,
    /// Action on match ("flag", "block").
    pub action: String,
}

/// The complete policy document assigned by HQ.
#[derive(Clone, Debug)]
pub struct Policy {
    /// Monotonically increasing version number.
    pub version: u64,
    /// Fingerprint of the policy body ("sha256:<hex>"), or empty.
    pub hash: String,
    /// Hard safety rules.
    pub invariants: PolicyInvariants,
    /// What telemetry to collect.
    pub collection: PolicyCollection,
    /// Network and event rate limits.
    pub rate_limits: PolicyRateLimits,
    /// Lightweight on-site detection filters.
    pub detection_filters: Vec<DetectionFilter>,
}

impl Default for Policy {
    fn default() -> (r: Self)
        ensures
            r.version == 1,
            r.hash@ == Seq::<char>::empty(),
            r.invariants.all_enabled(),
            r.collection.sysmon_events@ == seq![1u32, 3, 7, 8, 10, 11, 12, 13, 22, 23],
            r.collection.security_events@ == seq![4624u32, 4625, 4672, 4688, 4720],
            r.collection.powershell_logging,
            !r.collection.dll_events_enabled,
            r.collection.file_events.enabled,
            r.collection.file_events.path_filters@.len() == 1,
            r.collection.file_events.path_filters@[0]@ == "C:\\Windows\\Temp\\*"@,
            r.rate_limits.events_per_second == 1000,
            r.rate_limits.network_events_per_second == 200,
            r.detection_filters@.len() == 0,
    {
        Policy {
            version: 1,
            hash: String::new(),
            invariants: PolicyInvariants::default(),
            collection: PolicyCollection::default(),
            rate_limits: PolicyRateLimits::default(),
            detection_filters: Vec::new(),
        }
    }
}

// ---------------------------------------------------------------------------
// Fingerprints
// ---------------------------------------------------------------------------

/// The SHA-256 digest of `data`, as `sha2::Sha256::digest` computes it.
pub uninterp spec fn sha256_spec(data: Seq<u8>) -> Seq<u8>;

/// `sha2::Sha256::digest`: the SHA-256 digest of `data` (32 bytes).
#[verifier::external_body]
fn sha256_digest(data: &[u8]) -> (r: Vec<u8>)
    ensures
        r@ == sha256_spec(data@),
        r@.len() == 32,
{
    <sha2::Sha256 as sha2::Digest>::digest(data).to_vec()
}

/// One lower-case hexadecimal digit.
pub open spec fn hex_digit(d: int) -> char {
    if d < 10 {
        (('0' as u32) + d) as char
    } else {
        (('a' as u32) + d - 10) as char
    }
}

/// Lower-case hexadecimal, two digits per byte, high nibble first.
pub open spec fn hex_lower(b: Seq<u8>) -> Seq<char>
    decreases b.len(),
{
    if b.len() == 0 {
        Seq::empty()
    } else {
        hex_lower(b.drop_last()) + seq![hex_digit((b.last() / 16) as int), hex_digit((b.last() % 16) as int)]
    }
}

/// A lower-case hexadecimal digit character.
pub open spec fn is_hex_digit(c: char) -> bool {
    ('0' <= c && c <= '9') || ('a' <= c && c <= 'f')
}

/// Hexadecimal text has two digits per byte, each a lower-case hex digit.
pub proof fn lemma_hex_lower_shape(b: Seq<u8>)
    ensures
        hex_lower(b).len() == 2 * b.len(),
        forall|i: int| 0 <= i < hex_lower(b).len() ==> is_hex_digit(#[trigger] hex_lower(b)[i]),
    decreases b.len(),
{
    if b.len() > 0 {
        lemma_hex_lower_shape(b.drop_last());
        let x = b.last();
        assert(x / 16 < 16 && x % 16 < 16);
        let tail = seq![hex_digit((x / 16) as int), hex_digit((x % 16) as int)];
        assert(is_hex_digit(tail[0]) && is_hex_digit(tail[1]));
        assert forall|i: int| 0 <= i < hex_lower(b).len() implies is_hex_digit(
            #[trigger] hex_lower(b)[i],
        ) by {
            if i < hex_lower(b.drop_last()).len() {
                assert(hex_lower(b)[i] == hex_lower(b.drop_last())[i]);
            } else {
                assert(hex_lower(b)[i] == tail[i - hex_lower(b.drop_last()).len()]);
            }
        }
    }
}

/// `hex::encode`: `data` in lower-case hexadecimal, two digits per byte.
#[verifier::external_body]
fn hex_encode(data: &[u8]) -> (r: String)
    ensures
        r@ == hex_lower(data@),
{
    hex::encode(data)
}

/// The fingerprint of a policy whose canonical serialization is `canonical`.
pub open spec fn fingerprint_spec(canonical: Seq<u8>) -> Seq<char> {
    "sha256:"@ + hex_lower(sha256_spec(canonical))
}

/// The message of a rejected fingerprint.
pub open spec fn mismatch_message(received: Seq<char>, computed: Seq<char>) -> Seq<char> {
    "Policy hash mismatch: received '"@ + received + "', computed '"@ + computed + "'"@
}

/// What `validate_hash` answers for a declared hash and a canonical body.
pub open spec fn validate_hash_spec(hash: Seq<char>, canonical: Seq<u8>) -> Result<(), Seq<char>> {
    if hash.len() == 0 {
        Ok(())
    } else if fingerprint_spec(canonical) == hash {
        Ok(())
    } else {
        Err(mismatch_message(hash, fingerprint_spec(canonical)))
    }
}

// ---------------------------------------------------------------------------
// Change summaries
// ---------------------------------------------------------------------------

/// A line naming one changed field.
pub open spec fn change_line(name: Seq<char>, before: Seq<char>, after: Seq<char>) -> Seq<char> {
    name + ": "@ + before + " → "@ + after
}

/// How `{:?}` writes a list of numbers: "[1, 3, 7]".
pub open spec fn debug_list(items: Seq<u32>) -> Seq<char> {
    "["@ + list_body(items) + "]"@
}

/// The items of a list, separated by ", ".
pub open spec fn list_body(items: Seq<u32>) -> Seq<char>
    decreases items.len(),
{
    if items.len() == 0 {
        Seq::empty()
    } else if items.len() == 1 {
        decimal(items[0] as nat)
    } else {
        list_body(items.drop_last()) + ", "@ + decimal(items.last() as nat)
    }
}

/// A line when `changed`, nothing otherwise.
pub open spec fn line_if(changed: bool, line: Seq<char>) -> Seq<Seq<char>> {
    if changed {
        seq![line]
    } else {
        Seq::empty()
    }
}

/// The human-readable summary of what changes from `a` to `b`.
pub open spec fn diff_spec(a: &Policy, b: &Policy) -> Seq<Seq<char>> {
    line_if(
        a.version != b.version,
        change_line("version"@, decimal(a.version as nat), decimal(b.version as nat)),
    ) + line_if(
        a.collection.dll_events_enabled != b.collection.dll_events_enabled,
        change_line(
            "dll_events_enabled"@,
            bool_text(a.collection.dll_events_enabled),
            bool_text(b.collection.dll_events_enabled),
        ),
    ) + line_if(
        a.collection.powershell_logging != b.collection.powershell_logging,
        change_line(
            "powershell_logging"@,
            bool_text(a.collection.powershell_logging),
            bool_text(b.collection.powershell_logging),
        ),
    ) + line_if(
        a.rate_limits.events_per_second != b.rate_limits.events_per_second,
        change_line(
            "events_per_second"@,
            decimal(a.rate_limits.events_per_second as nat),
            decimal(b.rate_limits.events_per_second as nat),
        ),
    ) + line_if(
        a.collection.sysmon_events@ != b.collection.sysmon_events@,
        change_line(
            "sysmon_events"@,
            debug_list(a.collection.sysmon_events@),
            debug_list(b.collection.sysmon_events@),
        ),
    )
}

/// The characters of each string in a list.
pub open spec fn texts(v: Seq<String>) -> Seq<Seq<char>> {
    v.map_values(|s: String| s@)
}

/// Append `b` to `a`.
fn change_line_exec(name: &str, before: &str, after: &str) -> (r: String)
    ensures
        r@ == change_line(name@, before@, after@),
{
    let mut s = owned(name);
    append(&mut s, ": ");
    append(&mut s, before);
    append(&mut s, " → ");
    append(&mut s, after);
    s
}

fn debug_list_exec(items: &Vec<u32>) -> (r: String)
    ensures
        r@ == debug_list(items@),
{
    let mut body = String::new();
    let mut i: usize = 0;
    while i < items.len()
        invariant
            i <= items@.len(),
            body@ == list_body(items@.take(i as int)),
        decreases items@.len() - i,
    {
        let d = u64_text(items[i] as u64);
        if i > 0 {
            append(&mut body, ", ");
        }
        append(&mut body, d.as_str());
        assert(items@.take(i + 1).drop_last() =~= items@.take(i as int));
        i += 1;
    }
    assert(items@.take(items@.len() as int) =~= items@);
    let mut s = owned("[");
    append(&mut s, body.as_str());
    append(&mut s, "]");
    s
}

fn same_ids(a: &Vec<u32>, b: &Vec<u32>) -> (r: bool)
    ensures
        r == (a@ == b@),
{
    if a.len() != b.len() {
        return false;
    }
    let mut i: usize = 0;
    while i < a.len()
        invariant
            a@.len() == b@.len(),
            i <= a@.len(),
            forall|j: int| 0 <= j < i ==> a@[j] == b@[j],
        decreases a@.len() - i,
    {
        if a[i] != b[i] {
            return false;
        }
        i += 1;
    }
    assert(a@ =~= b@);
    true
}

impl Policy {
    /// The fingerprint ("sha256:<hex>") of this policy, given its canonical
    /// serialization `canonical_json`: the JSON of the policy with its hash
    /// field cleared.
    pub fn compute_hash(&self, canonical_json: &[u8]) -> (r: String)
        ensures
            r@ == fingerprint_spec(canonical_json@),
            r@ == "sha256:"@ + hex_lower(sha256_spec(canonical_json@)),
            r@.len() == 71,
            forall|i: int| 7 <= i < 71 ==> is_hex_digit(#[trigger] r@[i]),
    {
        let digest = sha256_digest(canonical_json);
        proof {
            lemma_hex_lower_shape(digest@);
            reveal_strlit("sha256:");
        }
        let hex = hex_encode(digest.as_slice());
        let mut s = owned("sha256:");
        append(&mut s, hex.as_str());
        assert forall|i: int| 7 <= i < 71 implies is_hex_digit(#[trigger] s@[i]) by {
            assert(s@[i] == hex@[i - 7]);
        }
        s
    }

    /// Check the declared hash against the fingerprint of the policy's
    /// canonical serialization (`canonical_json`: the JSON of the policy with
    /// its hash field cleared). An empty declared hash always passes.
    pub fn validate_hash(&self, canonical_json: &[u8]) -> (r: Result<(), String>)
        ensures
            match (r, validate_hash_spec(self.hash@, canonical_json@)) {
                (Ok(()), Ok(())) => true,
                (Err(m), Err(n)) => m@ == n,
                _ => false,
            },
    {
        if self.hash.as_str().is_empty() {
            return Ok(());
        }
        let computed = self.compute_hash(canonical_json);
        if !str_equal(computed.as_str(), self.hash.as_str()) {
            let mut m = owned("Policy hash mismatch: received '");
            append(&mut m, self.hash.as_str());
            append(&mut m, "', computed '");
            append(&mut m, computed.as_str());
            append(&mut m, "'");
            return Err(m);
        }
        Ok(())
    }

    /// Enforce invariants: the hard rules can never be disabled, whatever
    /// the incoming policy says.
    pub fn enforce_invariants(&mut self)
        ensures
            final(self).invariants.all_enabled(),
            final(self).version == old(self).version,
            final(self).hash == old(self).hash,
            final(self).collection == old(self).collection,
            final(self).rate_limits == old(self).rate_limits,
            final(self).detection_filters == old(self).detection_filters,
    {
        self.invariants.lsass_access.enabled = true;
        self.invariants.unsigned_drivers.enabled = true;
        self.invariants.credential_dumping.enabled = true;
    }

    /// A human-readable summary of the changes from `self` to `other`, one
    /// line per changed field (version, DLL events, PowerShell logging,
    /// events per second, Sysmon event IDs).
    pub fn diff_summary(&self, other: &Policy) -> (changes: Vec<String>)
        ensures
            texts(changes@) == diff_spec(self, other),
    {
        let mut changes: Vec<String> = Vec::new();
        let ghost s0 = texts(changes@);
        assert(s0 =~= Seq::<Seq<char>>::empty());
        if self.version != other.version {
            let a = u64_text(self.version);
            let b = u64_text(other.version);
            changes.push(change_line_exec("version", a.as_str(), b.as_str()));
        }
        let ghost s1 = texts(changes@);
        assert(s1 =~= line_if(
            self.version != other.version,
            change_line("version"@, decimal(self.version as nat), decimal(other.version as nat)),
        ));
        if self.collection.dll_events_enabled != other.collection.dll_events_enabled {
            let a = bool_string(self.collection.dll_events_enabled);
            let b = bool_string(other.collection.dll_events_enabled);
            changes.push(change_line_exec("dll_events_enabled", a.as_str(), b.as_str()));
        }
        let ghost s2 = texts(changes@);
        assert(s2 =~= s1 + line_if(
            self.collection.dll_events_enabled != other.collection.dll_events_enabled,
            change_line(
                "dll_events_enabled"@,
                bool_text(self.collection.dll_events_enabled),
                bool_text(other.collection.dll_events_enabled),
            ),
        ));
        if self.collection.powershell_logging != other.collection.powershell_logging {
            let a = bool_string(self.collection.powershell_logging);
            let b = bool_string(other.collection.powershell_logging);
            changes.push(change_line_exec("powershell_logging", a.as_str(), b.as_str()));
        }
        let ghost s3 = texts(changes@);
        assert(s3 =~= s2 + line_if(
            self.collection.powershell_logging != other.collection.powershell_logging,
            change_line(
                "powershell_logging"@,
                bool_text(self.collection.powershell_logging),
                bool_text(other.collection.powershell_logging),
            ),
        ));
        if self.rate_limits.events_per_second != other.rate_limits.events_per_second {
            let a = u64_text(self.rate_limits.events_per_second as u64);
            let b = u64_text(other.rate_limits.events_per_second as u64);
            changes.push(change_line_exec("events_per_second", a.as_str(), b.as_str()));
        }
        let ghost s4 = texts(changes@);
        assert(s4 =~= s3 + line_if(
            self.rate_limits.events_per_second != other.rate_limits.events_per_second,
            change_line(
                "events_per_second"@,
                decimal(self.rate_limits.events_per_second as nat),
                decimal(other.rate_limits.events_per_second as nat),
            ),
        ));
        let same = same_ids(&self.collection.sysmon_events, &other.collection.sysmon_events);
        if !same {
            let a = debug_list_exec(&self.collection.sysmon_events);
            let b = debug_list_exec(&other.collection.sysmon_events);
            changes.push(change_line_exec("sysmon_events", a.as_str(), b.as_str()));
        }
        assert(texts(changes@) =~= s4 + line_if(
            self.collection.sysmon_events@ != other.collection.sysmon_events@,
            change_line(
                "sysmon_events"@,
                debug_list(self.collection.sysmon_events@),
                debug_list(other.collection.sysmon_events@),
            ),
        ));
        changes
    }
}

/// Response from the policy fetch endpoint.
#[derive(Clone, Debug)]
pub struct PolicyFetchResponse {
    pub status: String,
    pub policy: Option<Policy>,
}

impl PolicyFetchResponse {
    /// The agent already holds the current policy.
    pub fn is_current(&self) -> (r: bool)
        ensures
            r == (self.status@ == "current"@),
    {
        str_equal(self.status.as_str(), "current")
    }
}

// ---------------------------------------------------------------------------
// Laws
// ---------------------------------------------------------------------------

/// A policy compared with itself reports no changes.
pub proof fn law_diff_of_same_is_empty(p: &Policy)
    ensures
        diff_spec(p, p) == Seq::<Seq<char>>::empty(),
{
    assert(diff_spec(p, p) =~= Seq::<Seq<char>>::empty());
}

/// The summary is empty exactly when the five summarized fields agree.
pub proof fn law_diff_empty_iff_same(a: &Policy, b: &Policy)
    ensures
        diff_spec(a, b).len() == 0 <==> (a.version == b.version
            && a.collection.dll_events_enabled == b.collection.dll_events_enabled
            && a.collection.powershell_logging == b.collection.powershell_logging
            && a.rate_limits.events_per_second == b.rate_limits.events_per_second
            && a.collection.sysmon_events@ == b.collection.sysmon_events@),
{
}

/// A policy whose declared hash is its own fingerprint passes validation, and
/// so does one with no declared hash.
pub proof fn law_own_fingerprint_validates(hash: Seq<char>, canonical: Seq<u8>)
    requires
        hash.len() == 0 || hash == fingerprint_spec(canonical),
    ensures
        validate_hash_spec(hash, canonical) is Ok,
{
}

/// A declared hash that is not empty and differs from the fingerprint is
/// always rejected.
pub proof fn law_wrong_fingerprint_rejected(hash: Seq<char>, canonical: Seq<u8>)
    requires
        hash.len() > 0,
        hash != fingerprint_spec(canonical),
    ensures
        validate_hash_spec(hash, canonical) is Err,
{
}

/// The fingerprint is the SHA-256 digest of the whole canonical body, in
/// lower-case hex after "sha256:", for bodies of every length; so a policy
/// declaring exactly that fingerprint passes validation.
pub proof fn law_fingerprint_is_digest_of_whole_body(hash: Seq<char>, canonical: Seq<u8>)
    ensures
        fingerprint_spec(canonical) == "sha256:"@ + hex_lower(sha256_spec(canonical)),
        hash == "sha256:"@ + hex_lower(sha256_spec(canonical)) ==> validate_hash_spec(
            hash,
            canonical,
        ) is Ok,
{
}

} // verus!
