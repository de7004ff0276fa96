//! The telemetry collectors' decisions. Each collector polls one Windows
//! event-log channel for records newer than the last one it has seen, parses
//! them, filters them by the live policy and forwards the survivors. Polling,
//! sleeping and sending are the caller's part; what to query, what to forward
//! and how far the read position advances are decided here.
use vstd::prelude::*;

use crate::event::{
    insert_spec, lemma_insert_then_lookup, lookup, payload_text, Event, Payload, PayloadValue,
    PayloadValueView,
};
use crate::event::EventType;
use crate::eventlog::{
    header_spec, parse_event_xml, parse_would_panic, parsed_from, payload_spec, scan_payload,
    XmlHeader,
};
use crate::glob::{glob_match, glob_spec};
use crate::policy::PolicyCollection;
use crate::text::{decimal, owned, unicode_lower, u64_text};

verus! {

pub type Entries = Seq<(Seq<char>, PayloadValueView)>;

/// Sysmon event IDs that represent file-system activity.
pub open spec fn file_event_ids() -> Seq<u32> {
    seq![2u32, 11, 15, 23]
}

/// Whether `id` is a Sysmon file-system event ID.
pub fn is_file_event_id(id: u32) -> (r: bool)
    ensures
        r == file_event_ids().contains(id),
{
    let r = id == 2 || id == 11 || id == 15 || id == 23;
    proof {
        if r {
            if id == 2 {
                assert(file_event_ids()[0] == id);
            } else if id == 11 {
                assert(file_event_ids()[1] == id);
            } else if id == 15 {
                assert(file_event_ids()[2] == id);
            } else {
                assert(file_event_ids()[3] == id);
            }
        }
    }
    r
}

/// The record ID carried in a parsed event's payload.
pub open spec fn record_id_spec(p: Entries) -> Option<u64> {
    match lookup(p, "event_record_id"@) {
        Some(PayloadValueView::Unsigned(n)) => Some(n),
        Some(PayloadValueView::Signed(n)) => if n >= 0 { Some(n as u64) } else { None },
        _ => None,
    }
}

/// The read position after seeing a record: the larger of the two.
pub open spec fn advance(last: u64, rec: Option<u64>) -> u64 {
    match rec {
        Some(r) => if r > last { r } else { last },
        None => last,
    }
}

fn record_id(p: &Payload) -> (r: Option<u64>)
    ensures
        r == record_id_spec(p@),
{
    match p.get("event_record_id") {
        Some(PayloadValue::Unsigned(n)) => Some(*n),
        Some(PayloadValue::Signed(n)) => if *n >= 0 { Some(*n as u64) } else { None },
        _ => None,
    }
}

fn advance_exec(last: u64, rec: Option<u64>) -> (r: u64)
    ensures
        r == advance(last, rec),
        r >= last,
{
    match rec {
        Some(r) => if r > last { r } else { last },
        None => last,
    }
}

/// The query every collector issues: the records after `last_record_id`.
pub fn record_query(last_record_id: u64) -> (q: String)
    ensures
        q@ == "*[System[EventRecordID > "@ + decimal(last_record_id as nat) + "]]"@,
{
    let mut q = owned("*[System[EventRecordID > ");
    let n = u64_text(last_record_id);
    q.append(n.as_str());
    q.append("]]");
    q
}


// ---------------------------------------------------------------------------
// One polling round
// ---------------------------------------------------------------------------

/// The records a round forwards from the rendered records `xs`, in order:
/// those whose header is well-formed and that `accept` takes.
pub open spec fn forwarded_records(
    xs: Seq<Seq<char>>,
    accept: spec_fn(Seq<char>, XmlHeader) -> bool,
) -> Seq<Seq<char>>
    decreases xs.len(),
{
    if xs.len() == 0 {
        Seq::empty()
    } else {
        let rest = forwarded_records(xs.drop_last(), accept);
        let x = xs.last();
        match header_spec(x) {
            Some(h) => if accept(x, h) {
                rest.push(x)
            } else {
                rest
            },
            None => rest,
        }
    }
}

/// The read position after a round over `xs`: every record that parses
/// moves it, forwarded or not.
pub open spec fn position_after(xs: Seq<Seq<char>>, last: u64) -> u64
    decreases xs.len(),
{
    if xs.len() == 0 {
        last
    } else {
        let p = position_after(xs.drop_last(), last);
        let x = xs.last();
        match header_spec(x) {
            Some(h) => advance(p, record_id_spec(payload_spec(x, h))),
            None => p,
        }
    }
}

/// `events` are the records of `xs` that `accept` takes, each parsed as the
/// Windows collectors parse (agent "windows-agent", `default_type`,
/// `source`), in order.
pub open spec fn round_events(
    events: Seq<Event>,
    xs: Seq<Seq<char>>,
    accept: spec_fn(Seq<char>, XmlHeader) -> bool,
    default_type: EventType,
    source: Seq<char>,
) -> bool {
    let fw = forwarded_records(xs, accept);
    &&& events.len() == fw.len()
    &&& forall|j: int|
        0 <= j < events.len() ==> parsed_from(
            #[trigger] events[j],
            fw[j],
            header_spec(fw[j])->0,
            "windows-agent"@,
            default_type,
            source,
        )
}

/// No rendered record is one the parser would have to cut inside a
/// character.
pub open spec fn parseable(xmls: Seq<String>) -> bool {
    forall|i: int| 0 <= i < xmls.len() ==> !parse_would_panic(#[trigger] xmls[i]@)
}

/// What the Sysmon collector forwards.
pub open spec fn sysmon_accept(active: Seq<u32>, patterns: Seq<Seq<char>>) -> spec_fn(
    Seq<char>,
    XmlHeader,
) -> bool {
    |x: Seq<char>, h: XmlHeader| sysmon_forwards(Some(h.event_id), payload_spec(x, h), active, patterns)
}

/// What the Security log collector forwards.
pub open spec fn security_accept(ids: Seq<u32>) -> spec_fn(Seq<char>, XmlHeader) -> bool {
    |x: Seq<char>, h: XmlHeader| ids.contains(h.event_id)
}

/// What the PowerShell collector forwards: script block logging only.
pub open spec fn powershell_accept() -> spec_fn(Seq<char>, XmlHeader) -> bool {
    |x: Seq<char>, h: XmlHeader| h.event_id == 4104
}

/// One step of a round: the record `x` after the prefix `xs`.
proof fn lemma_round_step(
    xs: Seq<Seq<char>>,
    x: Seq<char>,
    accept: spec_fn(Seq<char>, XmlHeader) -> bool,
    last: u64,
)
    ensures
        forwarded_records(xs.push(x), accept) == match header_spec(x) {
            Some(h) => if accept(x, h) {
                forwarded_records(xs, accept).push(x)
            } else {
                forwarded_records(xs, accept)
            },
            None => forwarded_records(xs, accept),
        },
        position_after(xs.push(x), last) == match header_spec(x) {
            Some(h) => advance(position_after(xs, last), record_id_spec(payload_spec(x, h))),
            None => position_after(xs, last),
        },
{
    assert(xs.push(x).drop_last() =~= xs);
    assert(xs.push(x).last() == x);
}

// ---------------------------------------------------------------------------
// Sysmon
// ---------------------------------------------------------------------------

/// Reads the Microsoft-Windows-Sysmon/Operational channel.
pub struct SysmonCollector;

/// The Sysmon IDs to collect: the policy's list without DLL loads (7) unless
/// they are enabled, and without the file-system IDs unless file events are.
pub open spec fn sysmon_active_spec(ids: Seq<u32>, dll_enabled: bool, file_enabled: bool) -> Seq<u32> {
    ids.filter(|id: u32| (dll_enabled || id != 7) && (file_enabled || !file_event_ids().contains(id)))
}

/// The path a file event is judged by: `TargetFilename` when present (a
/// non-string value reads as empty), otherwise `Image`.
pub open spec fn filter_path_spec(p: Entries) -> Seq<char> {
    match lookup(p, "TargetFilename"@) {
        Some(PayloadValueView::Text(s)) => s,
        Some(_) => Seq::empty(),
        None => payload_text(p, "Image"@),
    }
}

/// Some configured pattern matches the event's file path.
pub open spec fn path_filters_match_spec(p: Entries, patterns: Seq<Seq<char>>) -> bool {
    let path = filter_path_spec(p);
    path.len() > 0 && exists|i: int|
        0 <= i < patterns.len() && #[trigger] glob_spec(
            unicode_lower(patterns[i]),
            unicode_lower(path),
        )
}

/// Whether a Sysmon event passes the policy filters.
pub open spec fn sysmon_forwards(
    event_id: Option<u32>,
    p: Entries,
    active: Seq<u32>,
    patterns: Seq<Seq<char>>,
) -> bool {
    match event_id {
        None => true,
        Some(eid) => {
            &&& active.contains(eid)
            &&& !(file_event_ids().contains(eid) && patterns.len() > 0
                && !path_filters_match_spec(p, patterns))
        },
    }
}

/// The characters of each string in a list.
pub open spec fn texts(v: Seq<String>) -> Seq<Seq<char>> {
    v.map_values(|s: String| s@)
}

/// Whether any of `patterns` matches the event's file path (TargetFilename,
/// falling back to Image).
pub fn event_matches_path_filters(event: &Event, patterns: &Vec<String>) -> (r: bool)
    ensures
        r == path_filters_match_spec(event.payload@, texts(patterns@)),
{
    let path = match event.payload.get("TargetFilename") {
        Some(PayloadValue::Text(s)) => s.clone(),
        Some(_) => String::new(),
        None => event.payload.text("Image"),
    };
    if path.as_str().is_empty() {
        return false;
    }
    let mut i: usize = 0;
    while i < patterns.len()
        invariant
            i <= patterns@.len(),
            path@ == filter_path_spec(event.payload@),
            path@.len() > 0,
            forall|j: int|
                0 <= j < i ==> !#[trigger] glob_spec(
                    unicode_lower(texts(patterns@)[j]),
                    unicode_lower(path@),
                ),
        decreases patterns@.len() - i,
    {
        if glob_match(patterns[i].as_str(), path.as_str()) {
            assert(glob_spec(unicode_lower(texts(patterns@)[i as int]), unicode_lower(path@)));
            return true;
        }
        i += 1;
    }
    false
}

pub(crate) fn contains_id(ids: &Vec<u32>, id: u32) -> (r: bool)
    ensures
        r == ids@.contains(id),
{
    let mut i: usize = 0;
    while i < ids.len()
        invariant
            i <= ids@.len(),
            forall|j: int| 0 <= j < i ==> ids@[j] != id,
        decreases ids@.len() - i,
    {
        if ids[i] == id {
            return true;
        }
        i += 1;
    }
    false
}

impl SysmonCollector {
    pub fn new() -> Self {
        SysmonCollector
    }

    /// Human-readable name of this collector.
    pub fn name(&self) -> (r: &'static str)
        ensures
            r@ == "windows_sysmon"@,
    {
        "windows_sysmon"
    }

    /// The event log channel this collector reads.
    pub fn channel(&self) -> (r: &'static str)
        ensures
            r@ == "Microsoft-Windows-Sysmon/Operational"@,
    {
        "Microsoft-Windows-Sysmon/Operational"
    }

    /// The Sysmon IDs the policy asks for: its list, minus DLL loads unless
    /// enabled, minus file-system IDs unless file events are enabled. An
    /// empty result means this round queries nothing.
    pub fn active_event_ids(collection: &PolicyCollection) -> (ids: Vec<u32>)
        ensures
            ids@ == sysmon_active_spec(
                collection.sysmon_events@,
                collection.dll_events_enabled,
                collection.file_events.enabled,
            ),
    {
        let src = &collection.sysmon_events;
        let dll = collection.dll_events_enabled;
        let files = collection.file_events.enabled;
        let ghost keep = |id: u32| (dll || id != 7) && (files || !file_event_ids().contains(id));
        let mut ids: Vec<u32> = Vec::new();
        let mut i: usize = 0;
        while i < src.len()
            invariant
                i <= src@.len(),
                ids@ == src@.take(i as int).filter(keep),
                keep == (|id: u32| (dll || id != 7) && (files || !file_event_ids().contains(id))),
            decreases src@.len() - i,
        {
            let id = src[i];
            proof {
                reveal_with_fuel(Seq::<u32>::filter, 1);
            }
            if (dll || id != 7) && (files || !is_file_event_id(id)) {
                ids.push(id);
            }
            assert(src@.take(i + 1).drop_last() =~= src@.take(i as int));
            i += 1;
        }
        assert(src@.take(src@.len() as int) =~= src@);
        ids
    }

    /// Decide about one parsed Sysmon event: whether to forward it, and the
    /// read position afterwards (the record ID is taken into account whether
    /// the event is forwarded or skipped).
    pub fn accept_event(
        event: &Event,
        active_ids: &Vec<u32>,
        path_filters: &Vec<String>,
        last_record_id: u64,
    ) -> (r: (bool, u64))
        ensures
            r.0 == sysmon_forwards(
                event.event_id,
                event.payload@,
                active_ids@,
                texts(path_filters@),
            ),
            r.1 == advance(last_record_id, record_id_spec(event.payload@)),
    {
        let rec = record_id(&event.payload);
        let next = advance_exec(last_record_id, rec);
        if let Some(eid) = event.event_id {
            if !contains_id(active_ids, eid) {
                return (false, next);
            }
            if is_file_event_id(eid) && path_filters.len() > 0 && !event_matches_path_filters(
                event,
                path_filters,
            ) {
                return (false, next);
            }
        }
        (true, next)
    }
}

impl SysmonCollector {
    /// Whether a round queries the channel at all: only when some Sysmon ID
    /// is active.
    pub fn should_query(collection: &PolicyCollection) -> (r: bool)
        ensures
            r == (sysmon_active_spec(
                collection.sysmon_events@,
                collection.dll_events_enabled,
                collection.file_events.enabled,
            ).len() > 0),
    {
        Self::active_event_ids(collection).len() > 0
    }

    /// One polling round over the rendered records `xmls`, in order: each
    /// record is parsed and, when the policy lets it through, forwarded; the
    /// read position moves past every parsed record.
    pub fn process_records(
        xmls: &Vec<String>,
        active_ids: &Vec<u32>,
        path_filters: &Vec<String>,
        last_record_id: u64,
    ) -> (r: (Vec<Event>, u64))
        requires
            parseable(xmls@),
        ensures
            round_events(
                r.0@,
                texts(xmls@),
                sysmon_accept(active_ids@, texts(path_filters@)),
                EventType::Process,
                "sysmon"@,
            ),
            r.1 == position_after(texts(xmls@), last_record_id),
    {
        let ghost xs = texts(xmls@);
        let ghost accept = sysmon_accept(active_ids@, texts(path_filters@));
        let mut events: Vec<Event> = Vec::new();
        let mut last = last_record_id;
        let mut i: usize = 0;
        while i < xmls.len()
            invariant
                i <= xmls@.len(),
                xs == texts(xmls@),
                accept == sysmon_accept(active_ids@, texts(path_filters@)),
                parseable(xmls@),
                round_events(events@, xs.take(i as int), accept, EventType::Process, "sysmon"@),
                last == position_after(xs.take(i as int), last_record_id),
            decreases xmls@.len() - i,
        {
            let ghost x = xs[i as int];
            proof {
                assert(xs.take(i + 1) =~= xs.take(i as int).push(x));
                lemma_round_step(xs.take(i as int), x, accept, last_record_id);
                assert(!parse_would_panic(xmls@[i as int]@));
            }
            let ghost before = events@;
            match parse_event_xml(xmls[i].as_str(), "windows-agent", EventType::Process, "sysmon") {
                Some(e) => {
                    let (forward, next) = Self::accept_event(&e, active_ids, path_filters, last);
                    last = next;
                    if forward {
                        events.push(e);
                    }
                },
                None => {},
            }
            proof {
                let fw = forwarded_records(xs.take(i + 1), accept);
                assert forall|j: int| 0 <= j < events@.len() implies parsed_from(
                    #[trigger] events@[j],
                    fw[j],
                    header_spec(fw[j])->0,
                    "windows-agent"@,
                    EventType::Process,
                    "sysmon"@,
                ) by {
                    if j < before.len() {
                        assert(events@[j] == before[j]);
                    }
                }
            }
            i += 1;
        }
        assert(xs.take(xmls@.len() as int) =~= xs);
        (events, last)
    }
}

// ---------------------------------------------------------------------------
// Security log and PowerShell
// ---------------------------------------------------------------------------

/// Reads the Security channel; event IDs come from the policy.
pub struct SecurityLogCollector;

impl SecurityLogCollector {
    pub fn new() -> Self {
        SecurityLogCollector
    }

    /// Human-readable name of this collector.
    pub fn name(&self) -> (r: &'static str)
        ensures
            r@ == "windows_security_log"@,
    {
        "windows_security_log"
    }

    /// The event log channel this collector reads.
    pub fn channel(&self) -> (r: &'static str)
        ensures
            r@ == "Security"@,
    {
        "Security"
    }

    /// Decide about one parsed Security event: forward it unless it carries
    /// an ID the policy does not list; advance the read position either way.
    pub fn accept_event(event: &Event, enabled_ids: &Vec<u32>, last_record_id: u64) -> (r: (bool, u64))
        ensures
            r.0 == match event.event_id {
                Some(eid) => enabled_ids@.contains(eid),
                None => true,
            },
            r.1 == advance(last_record_id, record_id_spec(event.payload@)),
    {
        let next = advance_exec(last_record_id, record_id(&event.payload));
        match event.event_id {
            Some(eid) => (contains_id(enabled_ids, eid), next),
            None => (true, next),
        }
    }
}

/// Reads Microsoft-Windows-PowerShell/Operational (script block logging).
pub struct PowerShellCollector;

impl PowerShellCollector {
    pub fn new() -> Self {
        PowerShellCollector
    }

    /// Human-readable name of this collector.
    pub fn name(&self) -> (r: &'static str)
        ensures
            r@ == "windows_powershell"@,
    {
        "windows_powershell"
    }

    /// The event log channel this collector reads.
    pub fn channel(&self) -> (r: &'static str)
        ensures
            r@ == "Microsoft-Windows-PowerShell/Operational"@,
    {
        "Microsoft-Windows-PowerShell/Operational"
    }

    /// Decide about one parsed PowerShell event: only script blocks (4104)
    /// are forwarded; the read position advances either way.
    pub fn accept_event(event: &Event, last_record_id: u64) -> (r: (bool, u64))
        ensures
            r.0 == (event.event_id == Some(4104u32)),
            r.1 == advance(last_record_id, record_id_spec(event.payload@)),
    {
        let next = advance_exec(last_record_id, record_id(&event.payload));
        (event.event_id == Some(4104u32), next)
    }
}

impl SecurityLogCollector {
    /// Whether a round queries the channel at all: only when the policy
    /// lists some security event ID.
    pub fn should_query(collection: &PolicyCollection) -> (r: bool)
        ensures
            r == (collection.security_events@.len() > 0),
    {
        collection.security_events.len() > 0
    }

    /// One polling round over the rendered records `xmls`, in order: each
    /// record is parsed and, when the policy lets it through, forwarded; the
    /// read position moves past every parsed record.
    pub fn process_records(
        xmls: &Vec<String>,
        enabled_ids: &Vec<u32>,
        last_record_id: u64,
    ) -> (r: (Vec<Event>, u64))
        requires
            parseable(xmls@),
        ensures
            round_events(r.0@, texts(xmls@), security_accept(enabled_ids@), EventType::Auth, "security_log"@),
            r.1 == position_after(texts(xmls@), last_record_id),
    {
        let ghost xs = texts(xmls@);
        let ghost accept = security_accept(enabled_ids@);
        let mut events: Vec<Event> = Vec::new();
        let mut last = last_record_id;
        let mut i: usize = 0;
        while i < xmls.len()
            invariant
                i <= xmls@.len(),
                xs == texts(xmls@),
                accept == security_accept(enabled_ids@),
                parseable(xmls@),
                round_events(events@, xs.take(i as int), accept, EventType::Auth, "security_log"@),
                last == position_after(xs.take(i as int), last_record_id),
            decreases xmls@.len() - i,
        {
            let ghost x = xs[i as int];
            proof {
                assert(xs.take(i + 1) =~= xs.take(i as int).push(x));
                lemma_round_step(xs.take(i as int), x, accept, last_record_id);
                assert(!parse_would_panic(xmls@[i as int]@));
            }
            let ghost before = events@;
            match parse_event_xml(xmls[i].as_str(), "windows-agent", EventType::Auth, "security_log") {
                Some(e) => {
                    let (forward, next) = Self::accept_event(&e, enabled_ids, last);
                    last = next;
                    if forward {
                        events.push(e);
                    }
                },
                None => {},
            }
            proof {
                let fw = forwarded_records(xs.take(i + 1), accept);
                assert forall|j: int| 0 <= j < events@.len() implies parsed_from(
                    #[trigger] events@[j],
                    fw[j],
                    header_spec(fw[j])->0,
                    "windows-agent"@,
                    EventType::Auth,
                    "security_log"@,
                ) by {
                    if j < before.len() {
                        assert(events@[j] == before[j]);
                    }
                }
            }
            i += 1;
        }
        assert(xs.take(xmls@.len() as int) =~= xs);
        (events, last)
    }
}

impl PowerShellCollector {
    /// Whether a round queries the channel at all: only with script block
    /// logging on.
    pub fn should_query(collection: &PolicyCollection) -> (r: bool)
        ensures
            r == collection.powershell_logging,
    {
        collection.powershell_logging
    }

    /// One polling round over the rendered records `xmls`, in order: each
    /// record is parsed and, when the policy lets it through, forwarded; the
    /// read position moves past every parsed record.
    pub fn process_records(
        xmls: &Vec<String>,
        last_record_id: u64,
    ) -> (r: (Vec<Event>, u64))
        requires
            parseable(xmls@),
        ensures
            round_events(r.0@, texts(xmls@), powershell_accept(), EventType::PowerShell, "powershell"@),
            r.1 == position_after(texts(xmls@), last_record_id),
    {
        let ghost xs = texts(xmls@);
        let ghost accept = powershell_accept();
        let mut events: Vec<Event> = Vec::new();
        let mut last = last_record_id;
        let mut i: usize = 0;
        while i < xmls.len()
            invariant
                i <= xmls@.len(),
                xs == texts(xmls@),
                accept == powershell_accept(),
                parseable(xmls@),
                round_events(events@, xs.take(i as int), accept, EventType::PowerShell, "powershell"@),
                last == position_after(xs.take(i as int), last_record_id),
            decreases xmls@.len() - i,
        {
            let ghost x = xs[i as int];
            proof {
                assert(xs.take(i + 1) =~= xs.take(i as int).push(x));
                lemma_round_step(xs.take(i as int), x, accept, last_record_id);
                assert(!parse_would_panic(xmls@[i as int]@));
            }
            let ghost before = events@;
            match parse_event_xml(xmls[i].as_str(), "windows-agent", EventType::PowerShell, "powershell") {
                Some(e) => {
                    let (forward, next) = Self::accept_event(&e, last);
                    last = next;
                    if forward {
                        events.push(e);
                    }
                },
                None => {},
            }
            proof {
                let fw = forwarded_records(xs.take(i + 1), accept);
                assert forall|j: int| 0 <= j < events@.len() implies parsed_from(
                    #[trigger] events@[j],
                    fw[j],
                    header_spec(fw[j])->0,
                    "windows-agent"@,
                    EventType::PowerShell,
                    "powershell"@,
                ) by {
                    if j < before.len() {
                        assert(events@[j] == before[j]);
                    }
                }
            }
            i += 1;
        }
        assert(xs.take(xmls@.len() as int) =~= xs);
        (events, last)
    }
}

// ---------------------------------------------------------------------------
// Laws
// ---------------------------------------------------------------------------

/// A collector's read position never moves backwards.
pub proof fn law_read_position_monotone(last: u64, rec: Option<u64>)
    ensures
        advance(last, rec) >= last,
        rec matches Some(r) ==> advance(last, rec) >= r,
{
}

/// A Sysmon event whose ID the active list lacks is never forwarded, and no
/// DLL load is forwarded while DLL events are disabled.
pub proof fn law_sysmon_policy_respected(
    eid: u32,
    p: Entries,
    ids: Seq<u32>,
    dll_enabled: bool,
    file_enabled: bool,
    patterns: Seq<Seq<char>>,
)
    requires
        !ids.contains(eid) || (eid == 7 && !dll_enabled) || (file_event_ids().contains(eid)
            && !file_enabled),
    ensures
        !sysmon_forwards(Some(eid), p, sysmon_active_spec(ids, dll_enabled, file_enabled), patterns),
{
    let active = sysmon_active_spec(ids, dll_enabled, file_enabled);
    let keep = |id: u32| (dll_enabled || id != 7) && (file_enabled || !file_event_ids().contains(id));
    assert(active == ids.filter(keep));
    if active.contains(eid) {
        let i = choose|i: int| 0 <= i < active.len() && active[i] == eid;
        #[allow(deprecated)]
        ids.filter_lemma(keep);
        assert(keep(active[i]));
        ids.lemma_filter_contains_rev(keep, eid);
    }
}

/// A collector's read position moves past every record it parses: the
/// payload of an event parsed from `x` carries the record's EventRecordID,
/// so taking the event into account (forwarded or skipped) leaves the read
/// position at or beyond that record.
pub proof fn law_parsed_record_is_tracked(x: Seq<char>, last: u64)
    requires
        header_spec(x) is Some,
    ensures
        record_id_spec(payload_spec(x, header_spec(x)->0)) == Some(header_spec(x)->0.record_id),
        advance(last, record_id_spec(payload_spec(x, header_spec(x)->0))) >= header_spec(
            x,
        )->0.record_id,
{
    let h = header_spec(x)->0;
    let data = scan_payload(x, 0, Seq::empty())->0;
    let rid = PayloadValueView::Unsigned(h.record_id);
    let p1 = insert_spec(data, "event_record_id"@, rid);
    let p2 = insert_spec(p1, "computer"@, PayloadValueView::Text(h.computer));
    let p3 = insert_spec(p2, "system_time"@, PayloadValueView::Text(h.system_time));
    reveal_strlit("event_record_id");
    reveal_strlit("computer");
    reveal_strlit("system_time");
    assert("event_record_id"@.len() != "computer"@.len());
    assert("event_record_id"@.len() != "system_time"@.len());
    lemma_insert_then_lookup(data, p1, "event_record_id"@, rid, "computer"@);
    lemma_insert_then_lookup(p1, p2, "computer"@, PayloadValueView::Text(h.computer), "event_record_id"@);
    lemma_insert_then_lookup(
        p2,
        p3,
        "system_time"@,
        PayloadValueView::Text(h.system_time),
        "event_record_id"@,
    );
    assert(p3 == payload_spec(x, h));
}

/// Path filters apply to every file-system Sysmon ID (2, 11, 15 and 23):
/// with at least one filter configured, such an event whose path (its
/// TargetFilename, or else its Image) matches none of the filters is not
/// forwarded, whatever the active ID list.
pub proof fn law_file_events_need_a_matching_path(
    eid: u32,
    p: Entries,
    active: Seq<u32>,
    patterns: Seq<Seq<char>>,
)
    requires
        eid == 2 || eid == 11 || eid == 15 || eid == 23,
        patterns.len() > 0,
        forall|i: int|
            0 <= i < patterns.len() ==> !#[trigger] glob_spec(
                unicode_lower(patterns[i]),
                unicode_lower(filter_path_spec(p)),
            ),
    ensures
        !sysmon_forwards(Some(eid), p, active, patterns),
{
    if eid == 2 {
        assert(file_event_ids()[0] == eid);
    } else if eid == 11 {
        assert(file_event_ids()[1] == eid);
    } else if eid == 15 {
        assert(file_event_ids()[2] == eid);
    } else {
        assert(file_event_ids()[3] == eid);
    }
}

} // verus!
