//! The telemetry event and its payload: the record every collector produces,
//! the classifier annotates and the buffer carries to the shipper.
//!
//! The payload is the flat name → value map that Windows event XML yields
//! (`<Data Name="...">` fields plus a few bookkeeping entries). It is kept as
//! an ordered list of entries; a key names at most the first entry that holds
//! it, and `insert` replaces that entry in place.
use vstd::prelude::*;

use crate::risk::{InvariantViolation, RiskFlag};
use crate::text::{owned, parse_u64, parse_u64_spec, str_equal};

verus! {

/// Canonical event categories.
#[derive(Clone, Copy, Debug, PartialEq, Eq, Structural)]
pub enum EventType {
    Process,
    Network,
    Dns,
    Auth,
    PowerShell,
    DriverLoad,
    FileSystem,
    ProcessCreate,
    FileCreateTime,
    NetworkConnect,
    ProcessTerminate,
    ImageLoad,
    RemoteThread,
    RawDiskAccess,
    ProcessAccess,
    FileCreate,
    RegistryCreateDelete,
    RegistryValueSet,
    FileStreamCreate,
    Pipe,
    WmiActivity,
    DnsQuery,
    FileDelete,
    ClipboardAccess,
}

/// One payload value.
#[derive(Clone, Debug)]
pub enum PayloadValue {
    Text(String),
    Unsigned(u64),
    Signed(i64),
    Bool(bool),
    Null,
}

/// The mathematical content of a payload value.
pub enum PayloadValueView {
    Text(Seq<char>),
    Unsigned(u64),
    Signed(i64),
    Bool(bool),
    Null,
}

impl View for PayloadValue {
    type V = PayloadValueView;

    open spec fn view(&self) -> PayloadValueView {
        match self {
            PayloadValue::Text(s) => PayloadValueView::Text(s@),
            PayloadValue::Unsigned(n) => PayloadValueView::Unsigned(*n),
            PayloadValue::Signed(n) => PayloadValueView::Signed(*n),
            PayloadValue::Bool(b) => PayloadValueView::Bool(*b),
            PayloadValue::Null => PayloadValueView::Null,
        }
    }
}

/// A named payload value.
#[derive(Clone, Debug)]
pub struct PayloadEntry {
    pub key: String,
    pub value: PayloadValue,
}

/// The event payload: named values in insertion order.
#[derive(Clone, Debug)]
pub struct Payload {
    pub entries: Vec<PayloadEntry>,
}

impl View for Payload {
    type V = Seq<(Seq<char>, PayloadValueView)>;

    open spec fn view(&self) -> Seq<(Seq<char>, PayloadValueView)> {
        self.entries@.map_values(|e: PayloadEntry| (e.key@, e.value@))
    }
}

/// The value stored under `key`: that of the first entry holding the key.
pub open spec fn lookup(entries: Seq<(Seq<char>, PayloadValueView)>, key: Seq<char>) -> Option<
    PayloadValueView,
>
    decreases entries.len(),
{
    if entries.len() == 0 {
        None
    } else if entries[0].0 == key {
        Some(entries[0].1)
    } else {
        lookup(entries.drop_first(), key)
    }
}

/// The index of the first entry holding `key`.
pub open spec fn key_index(entries: Seq<(Seq<char>, PayloadValueView)>, key: Seq<char>) -> Option<
    int,
>
    decreases entries.len(),
{
    if entries.len() == 0 {
        None
    } else if entries[0].0 == key {
        Some(0)
    } else {
        match key_index(entries.drop_first(), key) {
            Some(i) => Some(i + 1),
            None => None,
        }
    }
}

/// The string stored under `key`, or the empty string when the key is
/// missing or holds something other than a string.
pub open spec fn payload_text(entries: Seq<(Seq<char>, PayloadValueView)>, key: Seq<char>) -> Seq<
    char,
> {
    match lookup(entries, key) {
        Some(PayloadValueView::Text(s)) => s,
        _ => Seq::empty(),
    }
}

/// The non-empty string stored under `key`, if any.
pub open spec fn payload_nonempty_text(
    entries: Seq<(Seq<char>, PayloadValueView)>,
    key: Seq<char>,
) -> Option<Seq<char>> {
    match lookup(entries, key) {
        Some(PayloadValueView::Text(s)) => if s.len() > 0 { Some(s) } else { None },
        _ => None,
    }
}

/// The unsigned number stored under `key`: a non-negative integer, or a
/// string that parses as one.
pub open spec fn payload_number(entries: Seq<(Seq<char>, PayloadValueView)>, key: Seq<char>) -> Option<
    u64,
> {
    match lookup(entries, key) {
        Some(PayloadValueView::Unsigned(n)) => Some(n),
        Some(PayloadValueView::Signed(n)) => if n >= 0 { Some(n as u64) } else { None },
        Some(PayloadValueView::Text(s)) => parse_u64_spec(s),
        _ => None,
    }
}

/// Looking a key up finds the entry at its first index.
pub proof fn lemma_lookup_key_index(entries: Seq<(Seq<char>, PayloadValueView)>, key: Seq<char>)
    ensures
        match key_index(entries, key) {
            Some(i) => 0 <= i < entries.len() && entries[i].0 == key && lookup(entries, key)
                == Some(entries[i].1) && forall|j: int| 0 <= j < i ==> entries[j].0 != key,
            None => lookup(entries, key) is None && forall|j: int|
                0 <= j < entries.len() ==> entries[j].0 != key,
        },
    decreases entries.len(),
{
    if entries.len() > 0 && entries[0].0 != key {
        lemma_lookup_key_index(entries.drop_first(), key);
        match key_index(entries.drop_first(), key) {
            Some(i) => {
                assert forall|j: int| 0 <= j < i + 1 implies entries[j].0 != key by {
                    if j > 0 {
                        assert(entries[j] == entries.drop_first()[j - 1]);
                    }
                }
            },
            None => {
                assert forall|j: int| 0 <= j < entries.len() implies entries[j].0 != key by {
                    if j > 0 {
                        assert(entries[j] == entries.drop_first()[j - 1]);
                    }
                }
            },
        }
    }
}

/// Lookup over a list in which no entry before index `i` holds `key`, and
/// entry `i` does, finds entry `i`.
pub proof fn lemma_lookup_first(entries: Seq<(Seq<char>, PayloadValueView)>, key: Seq<char>, i: int)
    requires
        0 <= i < entries.len(),
        entries[i].0 == key,
        forall|j: int| 0 <= j < i ==> entries[j].0 != key,
    ensures
        lookup(entries, key) == Some(entries[i].1),
        key_index(entries, key) == Some(i),
    decreases entries.len(),
{
    if i > 0 {
        lemma_lookup_first(entries.drop_first(), key, i - 1);
    }
}

/// Lookup over a list in which no entry holds `key` finds nothing.
pub proof fn lemma_lookup_absent(entries: Seq<(Seq<char>, PayloadValueView)>, key: Seq<char>)
    requires
        forall|j: int| 0 <= j < entries.len() ==> entries[j].0 != key,
    ensures
        lookup(entries, key) is None,
        key_index(entries, key) is None,
    decreases entries.len(),
{
    if entries.len() > 0 {
        lemma_lookup_absent(entries.drop_first(), key);
    }
}

/// What a payload reads back after `insert(key, value)`: the new value under
/// `key`, the old values under every other key.
pub proof fn lemma_insert_then_lookup(
    before: Seq<(Seq<char>, PayloadValueView)>,
    after: Seq<(Seq<char>, PayloadValueView)>,
    key: Seq<char>,
    value: PayloadValueView,
    other: Seq<char>,
)
    requires
        after == insert_spec(before, key, value),
    ensures
        lookup(after, key) == Some(value),
        other != key ==> lookup(after, other) == lookup(before, other),
{
    lemma_lookup_key_index(before, key);
    lemma_lookup_key_index(before, other);
    match key_index(before, key) {
        Some(i) => {
            lemma_lookup_first(after, key, i);
            if other != key {
                match key_index(before, other) {
                    Some(j) => lemma_lookup_first(after, other, j),
                    None => lemma_lookup_absent(after, other),
                }
            }
        },
        None => {
            lemma_lookup_first(after, key, before.len() as int);
            if other != key {
                match key_index(before, other) {
                    Some(j) => lemma_lookup_first(after, other, j),
                    None => lemma_lookup_absent(after, other),
                }
            }
        },
    }
}

/// The entry list after inserting `value` under `key`: the first entry
/// holding `key` is replaced, or the pair is appended when none does.
pub open spec fn insert_spec(
    entries: Seq<(Seq<char>, PayloadValueView)>,
    key: Seq<char>,
    value: PayloadValueView,
) -> Seq<(Seq<char>, PayloadValueView)> {
    match key_index(entries, key) {
        Some(i) => entries.update(i, (key, value)),
        None => entries.push((key, value)),
    }
}

impl Payload {
    /// An empty payload.
    pub fn new() -> (p: Payload)
        ensures
            p@ == Seq::<(Seq<char>, PayloadValueView)>::empty(),
    {
        let p = Payload { entries: Vec::new() };
        assert(p@ =~= Seq::<(Seq<char>, PayloadValueView)>::empty());
        p
    }

    /// The position of the first entry holding `key`.
    pub fn position(&self, key: &str) -> (r: Option<usize>)
        ensures
            match r {
                Some(i) => key_index(self@, key@) == Some(i as int),
                None => key_index(self@, key@) is None,
            },
    {
        let mut i: usize = 0;
        while i < self.entries.len()
            invariant
                i <= self.entries@.len(),
                forall|j: int| 0 <= j < i ==> self@[j].0 != key@,
            decreases self.entries@.len() - i,
        {
            if str_equal(self.entries[i].key.as_str(), key) {
                proof {
                    lemma_lookup_first(self@, key@, i as int);
                }
                return Some(i);
            }
            i += 1;
        }
        proof {
            lemma_lookup_absent(self@, key@);
        }
        None
    }

    /// The value stored under `key` (`serde_json::Value::get` on an object).
    pub fn get(&self, key: &str) -> (r: Option<&PayloadValue>)
        ensures
            match r {
                Some(v) => lookup(self@, key@) == Some(v@),
                None => lookup(self@, key@) is None,
            },
    {
        proof {
            lemma_lookup_key_index(self@, key@);
        }
        match self.position(key) {
            Some(i) => Some(&self.entries[i].value),
            None => None,
        }
    }

    /// Store `value` under `key`, replacing the first entry that holds the
    /// key, or appending a new entry.
    pub fn insert(&mut self, key: &str, value: PayloadValue)
        ensures
            final(self)@ == insert_spec(old(self)@, key@, value@),
    {
        let k = owned(key);
        proof {
            lemma_lookup_key_index(self@, key@);
        }
        match self.position(key) {
            Some(i) => {
                self.entries.set(i, PayloadEntry { key: k, value });
                assert(self@ =~= insert_spec(old(self)@, key@, value@));
            },
            None => {
                self.entries.push(PayloadEntry { key: k, value });
                assert(self@ =~= insert_spec(old(self)@, key@, value@));
            },
        }
    }

    /// Store a string under `key`.
    pub fn insert_text(&mut self, key: &str, value: &str)
        ensures
            final(self)@ == insert_spec(old(self)@, key@, PayloadValueView::Text(value@)),
    {
        self.insert(key, PayloadValue::Text(owned(value)));
    }

    /// Store an unsigned number under `key`.
    pub fn insert_unsigned(&mut self, key: &str, value: u64)
        ensures
            final(self)@ == insert_spec(old(self)@, key@, PayloadValueView::Unsigned(value)),
    {
        self.insert(key, PayloadValue::Unsigned(value));
    }

    /// The string stored under `key`, or "" (a missing key or a non-string
    /// value reads as empty).
    pub fn text(&self, key: &str) -> (r: String)
        ensures
            r@ == payload_text(self@, key@),
    {
        match self.get(key) {
            Some(PayloadValue::Text(s)) => s.clone(),
            _ => String::new(),
        }
    }

    /// The non-empty string stored under `key`, if any.
    pub fn nonempty_text(&self, key: &str) -> (r: Option<String>)
        ensures
            match r {
                Some(s) => payload_nonempty_text(self@, key@) == Some(s@),
                None => payload_nonempty_text(self@, key@) is None,
            },
    {
        match self.get(key) {
            Some(PayloadValue::Text(s)) => {
                if s.as_str().is_empty() {
                    None
                } else {
                    Some(s.clone())
                }
            },
            _ => None,
        }
    }

    /// The unsigned number stored under `key`: a non-negative integer, or a
    /// string that parses as one.
    pub fn number(&self, key: &str) -> (r: Option<u64>)
        ensures
            r == payload_number(self@, key@),
    {
        match self.get(key) {
            Some(PayloadValue::Unsigned(n)) => Some(*n),
            Some(PayloadValue::Signed(n)) => if *n >= 0 { Some(*n as u64) } else { None },
            Some(PayloadValue::Text(s)) => parse_u64(s.as_str()),
            _ => None,
        }
    }
}

/// The host an event was recorded on.
#[derive(Clone, Debug)]
pub struct HostInfo {
    pub name: String,
}

/// The account an event is attributed to.
#[derive(Clone, Debug)]
pub struct UserInfo {
    pub name: String,
    pub domain: Option<String>,
}

/// A process taking part in an event.
#[derive(Clone, Debug)]
pub struct ProcessInfo {
    pub pid: Option<u32>,
    pub name: Option<String>,
    pub path: Option<String>,
    pub command_line: Option<String>,
    pub hash_sha256: Option<String>,
}

/// A file touched by an event.
#[derive(Clone, Debug)]
pub struct FileInfo {
    pub name: Option<String>,
    pub path: Option<String>,
}

/// The endpoints of a network connection.
#[derive(Clone, Debug)]
pub struct NetworkInfo {
    pub src_ip: Option<String>,
    pub src_port: Option<u16>,
    pub dst_ip: Option<String>,
    pub dst_port: Option<u16>,
    pub protocol: Option<String>,
}

/// A DNS query and its answer.
#[derive(Clone, Debug)]
pub struct DnsInfo {
    pub query: Option<String>,
    pub query_type: Option<String>,
    pub response: Option<String>,
}

/// The characters of an optional string.
pub open spec fn opt_text(o: Option<String>) -> Option<Seq<char>> {
    match o {
        Some(s) => Some(s@),
        None => None,
    }
}

/// The content of a host record.
pub struct HostView {
    pub name: Seq<char>,
}

/// The content of a user record.
pub struct UserView {
    pub name: Seq<char>,
    pub domain: Option<Seq<char>>,
}

/// The content of a process record.
pub struct ProcessView {
    pub pid: Option<u32>,
    pub name: Option<Seq<char>>,
    pub path: Option<Seq<char>>,
    pub command_line: Option<Seq<char>>,
    pub hash_sha256: Option<Seq<char>>,
}

/// The content of a file record.
pub struct FileView {
    pub name: Option<Seq<char>>,
    pub path: Option<Seq<char>>,
}

/// The content of a network record.
pub struct NetworkView {
    pub src_ip: Option<Seq<char>>,
    pub src_port: Option<u16>,
    pub dst_ip: Option<Seq<char>>,
    pub dst_port: Option<u16>,
    pub protocol: Option<Seq<char>>,
}

/// The content of a DNS record.
pub struct DnsView {
    pub query: Option<Seq<char>>,
    pub query_type: Option<Seq<char>>,
    pub response: Option<Seq<char>>,
}

impl View for HostInfo {
    type V = HostView;

    open spec fn view(&self) -> HostView {
        HostView { name: self.name@ }
    }
}

impl View for UserInfo {
    type V = UserView;

    open spec fn view(&self) -> UserView {
        UserView { name: self.name@, domain: opt_text(self.domain) }
    }
}

impl View for ProcessInfo {
    type V = ProcessView;

    open spec fn view(&self) -> ProcessView {
        ProcessView {
            pid: self.pid,
            name: opt_text(self.name),
            path: opt_text(self.path),
            command_line: opt_text(self.command_line),
            hash_sha256: opt_text(self.hash_sha256),
        }
    }
}

impl View for FileInfo {
    type V = FileView;

    open spec fn view(&self) -> FileView {
        FileView { name: opt_text(self.name), path: opt_text(self.path) }
    }
}

impl View for NetworkInfo {
    type V = NetworkView;

    open spec fn view(&self) -> NetworkView {
        NetworkView {
            src_ip: opt_text(self.src_ip),
            src_port: self.src_port,
            dst_ip: opt_text(self.dst_ip),
            dst_port: self.dst_port,
            protocol: opt_text(self.protocol),
        }
    }
}

impl View for DnsInfo {
    type V = DnsView;

    open spec fn view(&self) -> DnsView {
        DnsView {
            query: opt_text(self.query),
            query_type: opt_text(self.query_type),
            response: opt_text(self.response),
        }
    }
}

/// The view of an optional record.
pub open spec fn opt_view<T: View>(o: Option<T>) -> Option<T::V> {
    match o {
        Some(x) => Some(x@),
        None => None,
    }
}

/// One telemetry event.
#[derive(Debug)]
pub struct Event {
    pub agent_id: String,
    pub event_type: EventType,
    pub source: String,
    pub event_id: Option<u32>,
    pub payload: Payload,
    pub risk_flags: Vec<RiskFlag>,
    pub risk_score: u8,
    pub invariant_violation: Option<InvariantViolation>,
    pub host: Option<HostInfo>,
    pub user: Option<UserInfo>,
    pub process: Option<ProcessInfo>,
    pub parent_process: Option<ProcessInfo>,
    pub file: Option<FileInfo>,
    pub network: Option<NetworkInfo>,
    pub dns: Option<DnsInfo>,
}

impl Event {
    /// A fresh, unclassified event with no structured fields.
    pub fn new(
        agent_id: &str,
        event_type: EventType,
        source: &str,
        event_id: Option<u32>,
        payload: Payload,
    ) -> (e: Event)
        ensures
            e.agent_id@ == agent_id@,
            e.event_type == event_type,
            e.source@ == source@,
            e.event_id == event_id,
            e.payload == payload,
            e.risk_flags@ == Seq::<RiskFlag>::empty(),
            e.risk_score == 0,
            e.invariant_violation is None,
            e.host is None,
            e.user is None,
            e.process is None,
            e.parent_process is None,
            e.file is None,
            e.network is None,
            e.dns is None,
    {
        Event {
            agent_id: owned(agent_id),
            event_type,
            source: owned(source),
            event_id,
            payload,
            risk_flags: Vec::new(),
            risk_score: 0,
            invariant_violation: None,
            host: None,
            user: None,
            process: None,
            parent_process: None,
            file: None,
            network: None,
            dns: None,
        }
    }
}

} // verus!
