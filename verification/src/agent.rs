//! The agent's decisions: which incoming events the policy's detection
//! filters drop, how a policy update or a role assignment from HQ is applied,
//! how registration is retried, and how a drained batch is split under the
//! shipping budget. The tasks that do the network and disk work around these
//! decisions are the caller's part.
use vstd::prelude::*;

use crate::config::BackendConfig;
use crate::event::{lookup, payload_text, Event, PayloadValue, PayloadValueView};
use crate::policy::{diff_spec, texts, validate_hash_spec, DetectionFilter, Policy};
use crate::text::{
    append, chars_of, contains_str, decimal, has_substring, owned, str_equal, to_lowercase,
    u64_text, unicode_lower,
};

verus! {

// ---------------------------------------------------------------------------
// Detection filters
// ---------------------------------------------------------------------------

/// The text of a payload value (`as_str`), or "" for a non-string value.
pub open spec fn value_text(v: PayloadValueView) -> Seq<char> {
    match v {
        PayloadValueView::Text(s) => s,
        _ => Seq::empty(),
    }
}

/// The raw payload text a filter on `field` looks at: the command line
/// ("CommandLine", or "cmdline" when there is no "CommandLine" entry) for
/// "cmdline"/"CommandLine", the image path for "image"/"Image", and nothing
/// for any other field.
pub open spec fn filter_field_spec(p: Seq<(Seq<char>, PayloadValueView)>, field: Seq<char>) -> Option<
    Seq<char>,
> {
    if field == "cmdline"@ || field == "CommandLine"@ {
        match lookup(p, "CommandLine"@) {
            Some(v) => Some(value_text(v)),
            None => Some(payload_text(p, "cmdline"@)),
        }
    } else if field == "image"@ || field == "Image"@ {
        Some(payload_text(p, "Image"@))
    } else {
        None
    }
}

/// A filter matches when the lower-cased field value is not empty and
/// contains the lower-cased pattern.
pub open spec fn filter_hits(p: Seq<(Seq<char>, PayloadValueView)>, f: DetectionFilter) -> bool {
    match filter_field_spec(p, f.match_field@) {
        Some(raw) => unicode_lower(raw).len() > 0 && has_substring(
            unicode_lower(raw),
            unicode_lower(f.pattern@),
        ),
        None => false,
    }
}

/// A filter drops the event when it matches and its action is "block"
/// ("flag" and any other action only log).
pub open spec fn filter_blocks(p: Seq<(Seq<char>, PayloadValueView)>, f: DetectionFilter) -> bool {
    filter_hits(p, f) && f.action@ == "block"@
}

/// Some filter of the list drops the event.
pub open spec fn blocked_by(p: Seq<(Seq<char>, PayloadValueView)>, filters: Seq<DetectionFilter>) -> bool {
    exists|i: int| 0 <= i < filters.len() && #[trigger] filter_blocks(p, filters[i])
}

fn value_as_text(v: &PayloadValue) -> (r: String)
    ensures
        r@ == value_text(v@),
{
    match v {
        PayloadValue::Text(s) => s.clone(),
        _ => String::new(),
    }
}

fn filter_field(event: &Event, field: &str) -> (r: Option<String>)
    ensures
        match r {
            Some(s) => filter_field_spec(event.payload@, field@) == Some(s@),
            None => filter_field_spec(event.payload@, field@) is None,
        },
{
    if str_equal(field, "cmdline") || str_equal(field, "CommandLine") {
        match event.payload.get("CommandLine") {
            Some(v) => Some(value_as_text(v)),
            None => Some(event.payload.text("cmdline")),
        }
    } else if str_equal(field, "image") || str_equal(field, "Image") {
        Some(event.payload.text("Image"))
    } else {
        None
    }
}

fn filter_matches(event: &Event, filter: &DetectionFilter) -> (r: bool)
    ensures
        r == filter_hits(event.payload@, *filter),
{
    match filter_field(event, filter.match_field.as_str()) {
        Some(raw) => {
            let value = to_lowercase(raw.as_str());
            if value.as_str().is_empty() {
                return false;
            }
            let pattern = to_lowercase(filter.pattern.as_str());
            let chars = chars_of(value.as_str());
            contains_str(chars.as_slice(), pattern.as_str())
        },
        None => false,
    }
}

/// Evaluate the policy's detection filters against an event: `true` when the
/// event is to be dropped, because a filter with the "block" action matched.
pub fn apply_detection_filters(event: &Event, filters: &[DetectionFilter]) -> (drop: bool)
    ensures
        drop == blocked_by(event.payload@, filters@),
{
    let mut i: usize = 0;
    while i < filters.len()
        invariant
            i <= filters@.len(),
            forall|j: int| 0 <= j < i ==> !#[trigger] filter_blocks(event.payload@, filters@[j]),
        decreases filters@.len() - i,
    {
        let f = &filters[i];
        if filter_matches(event, f) && str_equal(f.action.as_str(), "block") {
            assert(filter_blocks(event.payload@, filters@[i as int]));
            return true;
        }
        i += 1;
    }
    false
}

/// `after` is `before` tagged with the agent ID `agent_id`, all else kept.
pub open spec fn tagged(before: Event, after: Event, agent_id: Seq<char>) -> bool {
    &&& after.agent_id@ == agent_id
    &&& after.event_type == before.event_type
    &&& after.source == before.source
    &&& after.event_id == before.event_id
    &&& after.payload == before.payload
    &&& after.risk_flags == before.risk_flags
    &&& after.risk_score == before.risk_score
    &&& after.invariant_violation == before.invariant_violation
    &&& after.host == before.host
    &&& after.user == before.user
    &&& after.process == before.process
    &&& after.parent_process == before.parent_process
    &&& after.file == before.file
    &&& after.network == before.network
    &&& after.dns == before.dns
}

/// The intake step for one collected event: dropped (`None`) when a blocking
/// detection filter matches it, otherwise tagged with this agent's ID and
/// handed on to the buffer.
pub fn intake(event: Event, filters: &[DetectionFilter], agent_id: &str) -> (r: Option<Event>)
    ensures
        r is None <==> blocked_by(event.payload@, filters@),
        r matches Some(e) ==> tagged(event, e, agent_id@),
{
    if apply_detection_filters(&event, filters) {
        return None;
    }
    let mut ev = event;
    ev.agent_id = owned(agent_id);
    Some(ev)
}

// ---------------------------------------------------------------------------
// Policy updates
// ---------------------------------------------------------------------------

/// `after` is the update as applied: its content, with every hard invariant
/// switched on.
pub open spec fn applied(update: Policy, after: Policy) -> bool {
    &&& after.version == update.version
    &&& after.hash == update.hash
    &&& after.collection == update.collection
    &&& after.rate_limits == update.rate_limits
    &&& after.detection_filters == update.detection_filters
    &&& after.invariants.all_enabled()
}

/// Apply a policy received from HQ (in a heartbeat reply or from GET
/// /policy), given its canonical serialization. A policy whose declared hash
/// does not match is refused and the current policy stays in force;
/// otherwise it replaces the current one, with the hard invariants enforced,
/// and the lines describing what changed are returned.
pub fn apply_policy_update(current: &mut Policy, update: Policy, canonical_json: &[u8]) -> (r: Result<
    Vec<String>,
    String,
>)
    ensures
        match validate_hash_spec(update.hash@, canonical_json@) {
            Err(m) => r matches Err(e) && e@ == m && *final(current) == *old(current),
            Ok(()) => r matches Ok(d) && texts(d@) == diff_spec(old(current), &update) && applied(
                update,
                *final(current),
            ),
        },
{
    match update.validate_hash(canonical_json) {
        Err(e) => Err(e),
        Ok(()) => {
            let diff = current.diff_summary(&update);
            *current = update;
            current.enforce_invariants();
            Ok(diff)
        },
    }
}

/// Where the policy to apply after a heartbeat comes from.
#[derive(Debug, Clone, Copy, PartialEq, Eq, Structural)]
pub enum PolicyFollowUp {
    /// Apply the policy the heartbeat reply carried.
    FromHeartbeat,
    /// The role changed and no policy came with the reply: fetch it with
    /// GET /policy.
    Fetch,
    /// Nothing to do.
    Nothing,
}

/// The policy step after a successful heartbeat: a policy in the reply is
/// applied directly; without one, a role change forces a fetch.
pub fn policy_follow_up(reply_has_policy: bool, role_changed: bool) -> (r: PolicyFollowUp)
    ensures
        reply_has_policy ==> r == PolicyFollowUp::FromHeartbeat,
        !reply_has_policy && role_changed ==> r == PolicyFollowUp::Fetch,
        !reply_has_policy && !role_changed ==> r == PolicyFollowUp::Nothing,
{
    if reply_has_policy {
        PolicyFollowUp::FromHeartbeat
    } else if role_changed {
        PolicyFollowUp::Fetch
    } else {
        PolicyFollowUp::Nothing
    }
}

// ---------------------------------------------------------------------------
// Role assignments
// ---------------------------------------------------------------------------

/// What a role assignment from HQ calls for.
#[derive(Debug)]
pub enum RoleDecision {
    /// The role failed validation: nothing changes, and this is the error.
    Rejected(String),
    /// The agent already has this role.
    Unchanged,
    /// Switch to the new role and persist the identity.
    Change,
}

/// Decide on a role assignment, given the current role and the outcome of
/// validating the new one.
pub fn decide_role_change(current_role: &str, new_role: &str, validation: Result<(), String>) -> (d:
    RoleDecision)
    ensures
        match validation {
            Err(e) => d matches RoleDecision::Rejected(m) && m@ == "backend sent invalid role: "@
                + e@,
            Ok(()) => if current_role@ == new_role@ {
                d is Unchanged
            } else {
                d is Change
            },
        },
{
    match validation {
        Err(e) => {
            let mut m = owned("backend sent invalid role: ");
            append(&mut m, e.as_str());
            RoleDecision::Rejected(m)
        },
        Ok(()) => {
            if str_equal(current_role, new_role) {
                RoleDecision::Unchanged
            } else {
                RoleDecision::Change
            }
        },
    }
}

/// The message of a role change that could not be persisted.
pub open spec fn persist_failure_message(old_role: Seq<char>, new_role: Seq<char>, e: Seq<char>) -> Seq<
    char,
> {
    "persistence failed for role '"@ + old_role + "' -> '"@ + new_role + "': "@ + e
        + ". Reverted in-memory."@
}

/// Finish a role change once persisting the identity with the new role has
/// been tried: the role in force afterwards, and the answer (`Ok(true)`: the
/// role changed). When persisting failed the old role is restored, so disk
/// and memory agree.
pub fn finish_role_change(old_role: &str, new_role: &str, persisted: Result<(), String>) -> (r: (
    String,
    Result<bool, String>,
))
    ensures
        persisted is Ok ==> r.0@ == new_role@ && r.1 == Ok::<bool, String>(true),
        persisted is Err ==> r.0@ == old_role@,
        persisted matches Err(e) ==> (r.1 matches Err(m) && m@ == persist_failure_message(
            old_role@,
            new_role@,
            e@,
        )),
{
    match persisted {
        Ok(()) => (owned(new_role), Ok(true)),
        Err(e) => {
            let mut m = owned("persistence failed for role '");
            append(&mut m, old_role);
            append(&mut m, "' -> '");
            append(&mut m, new_role);
            append(&mut m, "': ");
            append(&mut m, e.as_str());
            append(&mut m, ". Reverted in-memory.");
            (owned(old_role), Err(m))
        },
    }
}

// ---------------------------------------------------------------------------
// Registration retries
// ---------------------------------------------------------------------------

/// The retry state of enrollment: the delay before the next attempt and the
/// number of retries made so far.
#[derive(Debug, Clone, Copy, PartialEq, Eq, Structural)]
pub struct RegistrationRetry {
    pub backoff_secs: u64,
    pub retries: u32,
}

/// What to do after a failed registration attempt.
#[derive(Debug)]
pub enum RetryStep {
    /// Sleep this many seconds, then try again.
    Wait(u64),
    /// Give up with this error.
    GiveUp(String),
}

/// The message of an enrollment that gave up.
pub open spec fn give_up_message(retries: u32, e: Seq<char>) -> Seq<char> {
    "Registration failed after "@ + decimal(retries as nat) + " retries: "@ + e
}

/// The delay before retry `k` (counting from zero) of an enrollment whose
/// first delay is `base`: it doubles after each retry.
pub open spec fn backoff_after(base: int, k: nat) -> int
    decreases k,
{
    if k == 0 {
        base
    } else {
        2 * backoff_after(base, (k - 1) as nat)
    }
}

impl RegistrationRetry {
    /// The state before the first attempt: the configured base delay, no
    /// retries yet.
    pub fn new(config: &BackendConfig) -> (r: RegistrationRetry)
        ensures
            r.backoff_secs == config.retry_delay_secs,
            r.retries == 0,
    {
        RegistrationRetry { backoff_secs: config.retry_delay_secs, retries: 0 }
    }

    /// A registration attempt failed with `error`: give up once `max_retries`
    /// retries have been made, otherwise wait the current delay, double it
    /// and count the retry.
    pub fn on_failure(&mut self, max_retries: u32, error: &str) -> (step: RetryStep)
        requires
            old(self).retries < max_retries ==> old(self).backoff_secs * 2 <= u64::MAX,
        ensures
            old(self).retries >= max_retries ==> (step matches RetryStep::GiveUp(m) && m@
                == give_up_message(old(self).retries, error@)),
            old(self).retries >= max_retries ==> *final(self) == *old(self),
            old(self).retries < max_retries ==> step == RetryStep::Wait(old(self).backoff_secs)
                && final(self).backoff_secs == old(self).backoff_secs * 2 && final(self).retries
                == old(self).retries + 1,
    {
        if self.retries >= max_retries {
            let mut m = owned("Registration failed after ");
            let n = u64_text(self.retries as u64);
            append(&mut m, n.as_str());
            append(&mut m, " retries: ");
            append(&mut m, error);
            return RetryStep::GiveUp(m);
        }
        let wait = self.backoff_secs;
        self.backoff_secs = self.backoff_secs * 2;
        self.retries = self.retries + 1;
        RetryStep::Wait(wait)
    }
}

// ---------------------------------------------------------------------------
// Shipping under the rate limit
// ---------------------------------------------------------------------------

/// What the shipper does with a drained batch.
pub enum ShipPlan {
    /// Nothing was drained.
    Idle,
    /// The budget is spent: return the whole batch to the buffer.
    Hold(Vec<Event>),
    /// Ship the first events now; return the rest to the buffer.
    Ship { to_ship: Vec<Event>, remainder: Vec<Event> },
}

/// The number of events shipped from a batch of `len` under `budget`.
pub open spec fn ship_count(len: int, budget: int) -> int {
    if budget < len {
        budget
    } else {
        len
    }
}

/// Split a drained batch under the token budget (the whole tokens
/// available): at most `budget` events go out, in order; the rest go back.
pub fn plan_shipment(batch: Vec<Event>, budget: usize) -> (p: ShipPlan)
    ensures
        batch@.len() == 0 ==> p is Idle,
        batch@.len() > 0 && budget == 0 ==> (p matches ShipPlan::Hold(b) && b@ == batch@),
        batch@.len() > 0 && budget > 0 ==> (p matches ShipPlan::Ship { to_ship, remainder }
            && to_ship@ == batch@.take(ship_count(batch@.len() as int, budget as int))
            && remainder@ == batch@.skip(ship_count(batch@.len() as int, budget as int))),
{
    if batch.len() == 0 {
        return ShipPlan::Idle;
    }
    if budget == 0 {
        return ShipPlan::Hold(batch);
    }
    let n = if budget < batch.len() {
        budget
    } else {
        batch.len()
    };
    let mut to_ship = batch;
    let remainder = to_ship.split_off(n);
    ShipPlan::Ship { to_ship, remainder }
}

// ---------------------------------------------------------------------------
// Start-up
// ---------------------------------------------------------------------------

/// The policy file found at start-up.
pub enum StoredPolicy {
    /// There is no policy file.
    Missing,
    /// The file exists but does not hold a policy.
    Unreadable,
    /// The file holds this policy.
    Parsed(Policy),
}

/// The policy to start with: the stored one when the file holds a policy,
/// otherwise the one saved with the identity. The flag says whether the
/// identity's policy is to be written out because there was no file yet.
pub fn startup_policy(stored: StoredPolicy, identity_policy: Policy) -> (r: (Policy, bool))
    ensures
        match stored {
            StoredPolicy::Parsed(p) => r.0 == p && !r.1,
            StoredPolicy::Unreadable => r.0 == identity_policy && !r.1,
            StoredPolicy::Missing => r.0 == identity_policy && r.1,
        },
{
    match stored {
        StoredPolicy::Parsed(p) => (p, false),
        StoredPolicy::Unreadable => (identity_policy, false),
        StoredPolicy::Missing => (identity_policy, true),
    }
}

// ---------------------------------------------------------------------------
// Laws
// ---------------------------------------------------------------------------

/// Shipping loses and duplicates nothing: the events shipped followed by the
/// events returned are the drained batch, and no more than the budget is
/// shipped.
pub proof fn law_shipment_conserves_events(batch: Seq<Event>, budget: int)
    requires
        batch.len() > 0,
        budget > 0,
    ensures
        batch.take(ship_count(batch.len() as int, budget)) + batch.skip(
            ship_count(batch.len() as int, budget),
        ) == batch,
        batch.take(ship_count(batch.len() as int, budget)).len() <= budget,
        batch.take(ship_count(batch.len() as int, budget)).len() > 0,
{
    let n = ship_count(batch.len() as int, budget);
    assert(batch.take(n) + batch.skip(n) =~= batch);
}

/// Whatever invariant settings a policy update carries, once it is applied
/// every hard rule is on (lsass access, unsigned drivers, credential
/// dumping).
pub proof fn law_applied_policy_keeps_invariants(update: Policy, after: Policy)
    requires
        applied(update, after),
    ensures
        after.invariants.lsass_access.enabled,
        after.invariants.unsigned_drivers.enabled,
        after.invariants.credential_dumping.enabled,
{
}

/// The `k`-th retry waits the base delay doubled `k` times.
pub proof fn law_backoff_doubles(base: int, k: nat)
    ensures
        backoff_after(base, k) == base * vstd::arithmetic::power2::pow2(k) as int,
    decreases k,
{
    if k == 0 {
        vstd::arithmetic::power::lemma_pow0(2);
        vstd::arithmetic::power2::lemma_pow2(0);
    } else {
        law_backoff_doubles(base, (k - 1) as nat);
        vstd::arithmetic::power2::lemma_pow2_unfold(k);
        assert(base * (2 * vstd::arithmetic::power2::pow2((k - 1) as nat)) == 2 * (base
            * vstd::arithmetic::power2::pow2((k - 1) as nat))) by (nonlinear_arith);
    }
}

/// The events a stream leaves after the filters: those that no blocking
/// filter live at their arrival matches, in arrival order.
pub open spec fn unblocked(events: Seq<Event>, filters: Seq<Seq<DetectionFilter>>) -> Seq<Event>
    decreases events.len(),
{
    if events.len() == 0 {
        Seq::empty()
    } else {
        let rest = unblocked(events.drop_last(), filters.drop_last());
        if blocked_by(events.last().payload@, filters.last()) {
            rest
        } else {
            rest.push(events.last())
        }
    }
}

/// The events handed on, in order, from the results of intake steps.
pub open spec fn handed_on(outs: Seq<Option<Event>>) -> Seq<Event>
    decreases outs.len(),
{
    if outs.len() == 0 {
        Seq::empty()
    } else {
        let rest = handed_on(outs.drop_last());
        match outs.last() {
            Some(e) => rest.push(e),
            None => rest,
        }
    }
}

/// Over a stream of events, each taken through `intake` with the filters
/// live when it arrives: what reaches the buffer is exactly the events no
/// blocking filter matched, in arrival order, each tagged with the agent's
/// ID; a blocked event is never buffered.
pub proof fn law_intake_stream(
    events: Seq<Event>,
    filters: Seq<Seq<DetectionFilter>>,
    outs: Seq<Option<Event>>,
    agent_id: Seq<char>,
)
    requires
        events.len() == filters.len(),
        events.len() == outs.len(),
        forall|i: int|
            0 <= i < events.len() ==> (#[trigger] outs[i] is None <==> blocked_by(
                events[i].payload@,
                filters[i],
            )),
        forall|i: int|
            0 <= i < events.len() ==> (#[trigger] outs[i] matches Some(e) ==> tagged(
                events[i],
                e,
                agent_id,
            )),
    ensures
        handed_on(outs).len() == unblocked(events, filters).len(),
        forall|j: int|
            0 <= j < handed_on(outs).len() ==> tagged(
                #[trigger] unblocked(events, filters)[j],
                handed_on(outs)[j],
                agent_id,
            ),
    decreases events.len(),
{
    if events.len() > 0 {
        let n = events.len() - 1;
        let ev2 = events.drop_last();
        let f2 = filters.drop_last();
        let o2 = outs.drop_last();
        assert forall|i: int| 0 <= i < ev2.len() implies (#[trigger] o2[i] is None <==> blocked_by(
            ev2[i].payload@,
            f2[i],
        )) by {
            assert(o2[i] == outs[i]);
        }
        assert forall|i: int| 0 <= i < ev2.len() implies (#[trigger] o2[i] matches Some(e)
            ==> tagged(ev2[i], e, agent_id)) by {
            assert(o2[i] == outs[i]);
        }
        law_intake_stream(ev2, f2, o2, agent_id);
        assert(outs.last() == outs[n]);
        assert(events.last() == events[n]);
        assert(filters.last() == filters[n]);
        let u = unblocked(events, filters);
        let h = handed_on(outs);
        assert forall|j: int| 0 <= j < h.len() implies tagged(#[trigger] u[j], h[j], agent_id) by {
            if j < handed_on(o2).len() {
                assert(u[j] == unblocked(ev2, f2)[j]);
                assert(h[j] == handed_on(o2)[j]);
            }
        }
    }
}

} // verus!
