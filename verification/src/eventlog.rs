//! Parsing of Windows event-log XML renderings into events.
//!
//! The parser reads the `<System>` header (EventID, SystemTime,
//! EventRecordID, Computer), collects every `<Data Name="...">value</Data>`
//! field into the payload, maps Sysmon event IDs to canonical event types and
//! fills the structured process / file / network / DNS / host / user records.
//!
//! Positions are found by plain substring search, exactly as the agent has
//! always done it; the grammar is therefore the one described by the spec
//! functions below, not full XML.
use vstd::prelude::*;

use crate::event::{
    insert_spec, lookup, opt_view, payload_nonempty_text, DnsInfo, DnsView, Event, EventType,
    FileInfo, FileView, HostInfo, HostView, NetworkInfo, NetworkView, Payload, PayloadValue,
    PayloadValueView, ProcessInfo, ProcessView, UserInfo, UserView,
};
use crate::text::{
    occurs_at, chars_of, find_char, find_char_from, find_chars, find_from, has_prefix, lemma_find_char_from,
    lemma_find_from, parse_u16_chars, parse_u16_spec, parse_u32_chars, parse_u32_spec,
    parse_u64_chars, parse_u64_spec, starts_with_str, str_equal, sub_chars, sub_string,
};

verus! {

pub type Entries = Seq<(Seq<char>, PayloadValueView)>;

// ---------------------------------------------------------------------------
// UTF-8 lengths (the original indexes characters by byte offsets once)
// ---------------------------------------------------------------------------

/// The number of bytes UTF-8 uses for `c`.
pub open spec fn utf8_char_len(c: char) -> int {
    if (c as u32) < 0x80 {
        1
    } else if (c as u32) < 0x800 {
        2
    } else if (c as u32) < 0x10000 {
        3
    } else {
        4
    }
}

/// The number of bytes UTF-8 uses for `s`.
pub open spec fn utf8_len(s: Seq<char>) -> int
    decreases s.len(),
{
    if s.len() == 0 {
        0
    } else {
        utf8_len(s.drop_last()) + utf8_char_len(s.last())
    }
}

proof fn lemma_utf8_len_at_least(s: Seq<char>)
    ensures
        utf8_len(s) >= s.len(),
    decreases s.len(),
{
    if s.len() > 0 {
        lemma_utf8_len_at_least(s.drop_last());
    }
}

/// The character at character index `utf8_len(x[..ts]) - 1`, if there is one.
pub open spec fn quote_at_byte_offset(x: Seq<char>, ts: int) -> Option<char> {
    let qb = utf8_len(x.take(ts)) - 1;
    if 0 <= qb < x.len() {
        Some(x[qb])
    } else {
        None
    }
}

fn quote_at_byte_offset_exec(x: &[char], ts: usize) -> (r: Option<char>)
    requires
        1 <= ts <= x@.len(),
    ensures
        r == quote_at_byte_offset(x@, ts as int),
{
    let n = x.len();
    let mut bytes: u128 = 0;
    let mut i: usize = 0;
    while i < ts
        invariant
            i <= ts <= x@.len(),
            n == x@.len(),
            bytes == utf8_len(x@.take(i as int)),
            bytes <= n,
        decreases ts - i,
    {
        let c = x[i];
        let w: u128 = if (c as u32) < 0x80 {
            1
        } else if (c as u32) < 0x800 {
            2
        } else if (c as u32) < 0x10000 {
            3
        } else {
            4
        };
        assert(x@.take(i + 1).drop_last() =~= x@.take(i as int));
        bytes = bytes + w;
        i += 1;
        if bytes > n as u128 {
            proof {
                lemma_utf8_len_grows(x@, i as int, ts as int);
            }
            return None;
        }
    }
    proof {
        lemma_utf8_len_at_least(x@.take(ts as int));
    }
    let qb = (bytes - 1) as usize;
    Some(x[qb])
}

proof fn lemma_utf8_len_grows(x: Seq<char>, i: int, j: int)
    requires
        0 <= i <= j <= x.len(),
    ensures
        utf8_len(x.take(i)) <= utf8_len(x.take(j)),
    decreases j - i,
{
    if i < j {
        assert(x.take(j).drop_last() =~= x.take(j - 1));
        lemma_utf8_len_grows(x, i, j - 1);
    }
}

// ---------------------------------------------------------------------------
// The grammar
// ---------------------------------------------------------------------------

/// The text between the first `open` and the first `close` after it.
pub open spec fn tag_value(x: Seq<char>, open: Seq<char>, close: Seq<char>) -> Option<Seq<char>> {
    match find_from(x, open, 0) {
        None => None,
        Some(p) => match find_from(x, close, p + open.len()) {
            None => None,
            Some(e) => Some(x.subrange(p + open.len(), e)),
        },
    }
}

/// Where the SystemTime attribute value starts (after `SystemTime="` or,
/// failing that, `SystemTime='`).
pub open spec fn time_start(x: Seq<char>) -> Option<int> {
    match find_from(x, "SystemTime=\""@, 0) {
        Some(p) => Some(p + 12),
        None => match find_from(x, "SystemTime='"@, 0) {
            Some(p) => Some(p + 12),
            None => None,
        },
    }
}

/// The SystemTime attribute value. The closing quote is looked up as the
/// character at the byte offset of the value start, minus one, read as a
/// character index.
pub open spec fn system_time(x: Seq<char>) -> Option<Seq<char>> {
    match time_start(x) {
        None => None,
        Some(ts) => match quote_at_byte_offset(x, ts) {
            None => None,
            Some(q) => match find_char_from(x, q, ts) {
                None => None,
                Some(te) => Some(x.subrange(ts, te)),
            },
        },
    }
}

/// The `<System>` header fields.
pub struct XmlHeader {
    pub event_id: u32,
    pub system_time: Seq<char>,
    pub record_id: u64,
    pub computer: Seq<char>,
}

/// The header, when every part of it is present and well-formed.
pub open spec fn header_spec(x: Seq<char>) -> Option<XmlHeader> {
    match tag_value(x, "<EventID>"@, "</EventID>"@) {
        None => None,
        Some(ids) => match parse_u32_spec(ids) {
            None => None,
            Some(eid) => match system_time(x) {
                None => None,
                Some(ts) => match tag_value(x, "<EventRecordID>"@, "</EventRecordID>"@) {
                    None => None,
                    Some(rs) => match parse_u64_spec(rs) {
                        None => None,
                        Some(rec) => match tag_value(x, "<Computer>"@, "</Computer>"@) {
                            None => None,
                            Some(c) => Some(
                                XmlHeader {
                                    event_id: eid,
                                    system_time: ts,
                                    record_id: rec,
                                    computer: c,
                                },
                            ),
                        },
                    },
                },
            },
        },
    }
}

/// The next `<Data Name=` opener at or after `pos`: where the name starts and
/// which quote closes it. The double-quoted form is preferred wherever it is.
pub open spec fn data_opener(x: Seq<char>, pos: int) -> Option<(int, char)> {
    match find_from(x, "<Data Name=\""@, pos) {
        Some(i) => Some((i + 12, '"')),
        None => match find_from(x, "<Data Name='"@, pos) {
            Some(i) => Some((i + 12, '\'')),
            None => None,
        },
    }
}

/// The payload collected by the `<Data>` scan from `pos` on, starting from
/// `acc`; `None` where the agent's scan would slice inside a character (the
/// closing quote of a name is the last character, or is followed by a
/// non-ASCII character).
pub open spec fn scan_payload(x: Seq<char>, pos: int, acc: Entries) -> Option<Entries>
    decreases x.len() - pos,
{
    if pos < 0 || pos >= x.len() {
        Some(acc)
    } else {
        match data_opener(x, pos) {
            None => Some(acc),
            Some((ns, q)) => match find_char_from(x, q, ns) {
                None => Some(acc),
                Some(qe) => {
                    if qe + 1 >= x.len() || (x[qe + 1] as u32) >= 0x80 {
                        None
                    } else {
                        match find_from(x, "</Data>"@, qe + 2) {
                            None => Some(acc),
                            Some(ve) => {
                                proof {
                                    lemma_scan_progress(x, pos, ns, q, qe, ve);
                                }
                                scan_payload(
                                    x,
                                    ve + 7,
                                    insert_spec(
                                        acc,
                                        x.subrange(ns, qe),
                                        PayloadValueView::Text(x.subrange(qe + 2, ve)),
                                    ),
                                )
                            },
                        }
                    }
                },
            },
        }
    }
}

pub proof fn lemma_scan_progress(x: Seq<char>, pos: int, ns: int, q: char, qe: int, ve: int)
    requires
        0 <= pos,
        data_opener(x, pos) == Some((ns, q)),
        find_char_from(x, q, ns) == Some(qe),
        find_from(x, "</Data>"@, qe + 2) == Some(ve),
    ensures
        pos < ve + 7 <= x.len(),
{
    reveal_strlit("</Data>");
    lemma_find_from(x, "<Data Name=\""@, pos);
    lemma_find_from(x, "<Data Name='"@, pos);
    lemma_find_char_from(x, q, ns);
    lemma_find_from(x, "</Data>"@, qe + 2);
}

/// The agent's parser would panic on `x`: the header parses but the `<Data>`
/// scan slices inside a character.
pub open spec fn parse_would_panic(x: Seq<char>) -> bool {
    header_spec(x) is Some && scan_payload(x, 0, Seq::empty()) is None
}

/// The payload of a parsed event: the data fields, then the record ID, the
/// computer name and the system time.
pub open spec fn payload_spec(x: Seq<char>, h: XmlHeader) -> Entries {
    let data = scan_payload(x, 0, Seq::empty())->0;
    let p1 = insert_spec(data, "event_record_id"@, PayloadValueView::Unsigned(h.record_id));
    let p2 = insert_spec(p1, "computer"@, PayloadValueView::Text(h.computer));
    insert_spec(p2, "system_time"@, PayloadValueView::Text(h.system_time))
}

/// The canonical event type of a Sysmon event ID.
pub open spec fn sysmon_type_spec(eid: u32, default_type: EventType) -> EventType {
    if eid == 1 {
        EventType::ProcessCreate
    } else if eid == 2 {
        EventType::FileCreateTime
    } else if eid == 3 {
        EventType::NetworkConnect
    } else if eid == 5 {
        EventType::ProcessTerminate
    } else if eid == 6 {
        EventType::DriverLoad
    } else if eid == 7 {
        EventType::ImageLoad
    } else if eid == 8 {
        EventType::RemoteThread
    } else if eid == 9 {
        EventType::RawDiskAccess
    } else if eid == 10 {
        EventType::ProcessAccess
    } else if eid == 11 {
        EventType::FileCreate
    } else if eid == 12 || eid == 14 {
        EventType::RegistryCreateDelete
    } else if eid == 13 {
        EventType::RegistryValueSet
    } else if eid == 15 {
        EventType::FileStreamCreate
    } else if eid == 17 || eid == 18 {
        EventType::Pipe
    } else if eid == 19 || eid == 20 || eid == 21 {
        EventType::WmiActivity
    } else if eid == 22 {
        EventType::DnsQuery
    } else if eid == 23 {
        EventType::FileDelete
    } else if eid == 24 {
        EventType::ClipboardAccess
    } else {
        default_type
    }
}

/// The event type: Sysmon IDs are mapped, every other source keeps the default.
pub open spec fn event_type_spec(eid: u32, default_type: EventType, source: Seq<char>) -> EventType {
    if source == "sysmon"@ {
        sysmon_type_spec(eid, default_type)
    } else {
        default_type
    }
}

// ---------------------------------------------------------------------------
// Field helpers
// ---------------------------------------------------------------------------

/// The index of the last `c` in `s`.
pub open spec fn last_index_of(s: Seq<char>, c: char) -> Option<int>
    decreases s.len(),
{
    if s.len() == 0 {
        None
    } else if s.last() == c {
        Some(s.len() - 1)
    } else {
        last_index_of(s.drop_last(), c)
    }
}

/// The last component of a Windows path: what follows the last backslash.
pub open spec fn basename_spec(s: Seq<char>) -> Seq<char> {
    match last_index_of(s, '\\') {
        Some(i) => s.subrange(i + 1, s.len() as int),
        None => s,
    }
}

pub open spec fn opt_basename(o: Option<Seq<char>>) -> Option<Seq<char>> {
    match o {
        Some(p) => Some(basename_spec(p)),
        None => None,
    }
}

/// `char::is_whitespace`: the Unicode White_Space property.
pub open spec fn is_white_space(c: char) -> bool {
    let v = c as u32;
    (0x09 <= v && v <= 0x0d) || v == 0x20 || v == 0x85 || v == 0xa0 || v == 0x1680 || (0x2000
        <= v && v <= 0x200a) || v == 0x2028 || v == 0x2029 || v == 0x202f || v == 0x205f || v
        == 0x3000
}

pub open spec fn trim_start(s: Seq<char>) -> Seq<char>
    decreases s.len(),
{
    if s.len() > 0 && is_white_space(s[0]) {
        trim_start(s.drop_first())
    } else {
        s
    }
}

pub open spec fn trim_end(s: Seq<char>) -> Seq<char>
    decreases s.len(),
{
    if s.len() > 0 && is_white_space(s.last()) {
        trim_end(s.drop_last())
    } else {
        s
    }
}

/// `str::trim`: white space removed from both ends.
pub open spec fn trim(s: Seq<char>) -> Seq<char> {
    trim_end(trim_start(s))
}

/// The SHA-256 digest in a Sysmon `Hashes` field ("MD5=..,SHA256=<hex>,..."):
/// the first comma-separated part, from `start` on, that after trimming
/// begins with `SHA256=` or `sha256=`, without that prefix.
pub open spec fn sha256_from(s: Seq<char>, start: int) -> Option<Seq<char>>
    decreases s.len() - start,
{
    if start < 0 || start > s.len() {
        None
    } else {
        let end = match find_char_from(s, ',', start) {
            Some(e) => e,
            None => s.len() as int,
        };
        let t = trim(s.subrange(start, end));
        if has_prefix(t, "SHA256="@) || has_prefix(t, "sha256="@) {
            Some(t.skip(7))
        } else if end < s.len() {
            proof {
                lemma_find_char_from(s, ',', start);
            }
            sha256_from(s, end + 1)
        } else {
            None
        }
    }
}

/// A process ID read from the non-empty string under `key`.
pub open spec fn pid_spec(p: Entries, key: Seq<char>) -> Option<u32> {
    match payload_nonempty_text(p, key) {
        Some(s) => parse_u32_spec(s),
        None => None,
    }
}

/// A port read from `key`: an integer narrowed to 16 bits, or a string that
/// parses as a 16-bit number.
pub open spec fn port_spec(p: Entries, key: Seq<char>) -> Option<u16> {
    match lookup(p, key) {
        Some(PayloadValueView::Unsigned(n)) => Some((n % 65536) as u16),
        Some(PayloadValueView::Signed(n)) => if n >= 0 {
            Some(((n as int) % 65536) as u16)
        } else {
            None
        },
        Some(PayloadValueView::Text(s)) => parse_u16_spec(s),
        _ => None,
    }
}

/// The process record of most event kinds: ID, image name and path.
pub open spec fn basic_process(p: Entries) -> ProcessView {
    ProcessView {
        pid: pid_spec(p, "ProcessId"@),
        name: opt_basename(payload_nonempty_text(p, "Image"@)),
        path: payload_nonempty_text(p, "Image"@),
        command_line: None,
        hash_sha256: None,
    }
}

/// The structured records of an event.
pub struct Records {
    pub process: Option<ProcessView>,
    pub parent_process: Option<ProcessView>,
    pub file: Option<FileView>,
    pub network: Option<NetworkView>,
    pub dns: Option<DnsView>,
}

/// The structured records for event ID `eid` read from payload `p`.
pub open spec fn records_spec(eid: u32, p: Entries) -> Records {
    if eid == 1 {
        Records {
            process: Some(
                ProcessView {
                    command_line: payload_nonempty_text(p, "CommandLine"@),
                    hash_sha256: match lookup(p, "Hashes"@) {
                        Some(PayloadValueView::Text(h)) => sha256_from(h, 0),
                        _ => None,
                    },
                    ..basic_process(p)
                },
            ),
            parent_process: Some(
                ProcessView {
                    pid: pid_spec(p, "ParentProcessId"@),
                    name: opt_basename(payload_nonempty_text(p, "ParentImage"@)),
                    path: payload_nonempty_text(p, "ParentImage"@),
                    command_line: payload_nonempty_text(p, "ParentCommandLine"@),
                    hash_sha256: None,
                },
            ),
            file: None,
            network: None,
            dns: None,
        }
    } else if eid == 5 {
        Records {
            process: Some(basic_process(p)),
            parent_process: None,
            file: None,
            network: None,
            dns: None,
        }
    } else if eid == 3 {
        Records {
            process: Some(basic_process(p)),
            parent_process: None,
            file: None,
            network: Some(
                NetworkView {
                    src_ip: payload_nonempty_text(p, "SourceIp"@),
                    src_port: port_spec(p, "SourcePort"@),
                    dst_ip: payload_nonempty_text(p, "DestinationIp"@),
                    dst_port: port_spec(p, "DestinationPort"@),
                    protocol: payload_nonempty_text(p, "Protocol"@),
                },
            ),
            dns: None,
        }
    } else if eid == 22 {
        Records {
            process: Some(basic_process(p)),
            parent_process: None,
            file: None,
            network: None,
            dns: Some(
                DnsView {
                    query: payload_nonempty_text(p, "QueryName"@),
                    query_type: payload_nonempty_text(p, "QueryType"@),
                    response: payload_nonempty_text(p, "QueryResults"@),
                },
            ),
        }
    } else if eid == 2 || eid == 11 || eid == 15 || eid == 23 {
        Records {
            process: Some(basic_process(p)),
            parent_process: None,
            file: Some(
                FileView {
                    name: opt_basename(payload_nonempty_text(p, "TargetFilename"@)),
                    path: payload_nonempty_text(p, "TargetFilename"@),
                },
            ),
            network: None,
            dns: None,
        }
    } else {
        Records {
            process: if payload_nonempty_text(p, "Image"@) is Some {
                Some(
                    ProcessView {
                        command_line: payload_nonempty_text(p, "CommandLine"@),
                        ..basic_process(p)
                    },
                )
            } else {
                None
            },
            parent_process: None,
            file: None,
            network: None,
            dns: None,
        }
    }
}

/// The host record: the non-empty computer name.
pub open spec fn host_spec(p: Entries) -> Option<HostView> {
    match payload_nonempty_text(p, "computer"@) {
        Some(name) => Some(HostView { name }),
        None => None,
    }
}

/// The user record: `DOMAIN\name` is split at the first backslash.
pub open spec fn user_spec(p: Entries) -> Option<UserView> {
    match payload_nonempty_text(p, "User"@) {
        None => None,
        Some(raw) => match find_char_from(raw, '\\', 0) {
            Some(i) => Some(
                UserView {
                    domain: Some(raw.subrange(0, i)),
                    name: raw.subrange(i + 1, raw.len() as int),
                },
            ),
            None => Some(UserView { name: raw, domain: None }),
        },
    }
}

// ---------------------------------------------------------------------------
// Executable parts
// ---------------------------------------------------------------------------

fn tag_span(x: &[char], open: &str, close: &str) -> (r: Option<(usize, usize)>)
    ensures
        match r {
            Some((a, b)) => a <= b <= x@.len() && tag_value(x@, open@, close@) == Some(
                x@.subrange(a as int, b as int),
            ),
            None => tag_value(x@, open@, close@) is None,
        },
{
    let _n = x.len();
    let o = chars_of(open);
    let c = chars_of(close);
    match find_chars(x, o.as_slice(), 0) {
        None => None,
        Some(p) => {
            proof {
                lemma_find_from(x@, open@, 0);
            }
            assert(occurs_at(x@, o@, p as int));
            let a = p + o.len();
            match find_chars(x, c.as_slice(), a) {
                None => None,
                Some(e) => {
                    proof {
                        lemma_find_from(x@, close@, a as int);
                    }
                    assert(occurs_at(x@, c@, e as int));
                    Some((a, e))
                },
            }
        },
    }
}

fn system_time_span(x: &[char]) -> (r: Option<(usize, usize)>)
    ensures
        match r {
            Some((a, b)) => a <= b <= x@.len() && system_time(x@) == Some(
                x@.subrange(a as int, b as int),
            ),
            None => system_time(x@) is None,
        },
{
    let _n = x.len();
    let dq = chars_of("SystemTime=\"");
    let sq = chars_of("SystemTime='");
    proof {
        reveal_strlit("SystemTime=\"");
        reveal_strlit("SystemTime='");
        lemma_find_from(x@, "SystemTime=\""@, 0);
        lemma_find_from(x@, "SystemTime='"@, 0);
    }
    let ts = match find_chars(x, dq.as_slice(), 0) {
        Some(p) => {
            assert(occurs_at(x@, dq@, p as int));
            p + 12
        },
        None => match find_chars(x, sq.as_slice(), 0) {
            Some(p) => {
                assert(occurs_at(x@, sq@, p as int));
                p + 12
            },
            None => return None,
        },
    };
    let q = match quote_at_byte_offset_exec(x, ts) {
        Some(q) => q,
        None => return None,
    };
    match find_char(x, q, ts) {
        None => None,
        Some(te) => {
            proof {
                lemma_find_char_from(x@, q, ts as int);
            }
            Some((ts, te))
        },
    }
}

fn data_opener_exec(x: &[char], pos: usize) -> (r: Option<(usize, char)>)
    ensures
        match r {
            Some((ns, q)) => data_opener(x@, pos as int) == Some((ns as int, q)) && ns <= x@.len(),
            None => data_opener(x@, pos as int) is None,
        },
{
    let _n = x.len();
    let dq = chars_of("<Data Name=\"");
    let sq = chars_of("<Data Name='");
    proof {
        reveal_strlit("<Data Name=\"");
        reveal_strlit("<Data Name='");
        lemma_find_from(x@, "<Data Name=\""@, pos as int);
        lemma_find_from(x@, "<Data Name='"@, pos as int);
    }
    match find_chars(x, dq.as_slice(), pos) {
        Some(i) => {
            assert(occurs_at(x@, dq@, i as int));
            Some((i + 12, '"'))
        },
        None => match find_chars(x, sq.as_slice(), pos) {
            Some(i) => {
                assert(occurs_at(x@, sq@, i as int));
                Some((i + 12, '\''))
            },
            None => None,
        },
    }
}

/// The `<Data>` fields of `x`, or `None` where the agent's scan would slice
/// inside a character.
fn scan_data(x: &[char]) -> (r: Option<Payload>)
    ensures
        match r {
            Some(p) => scan_payload(x@, 0, Seq::empty()) == Some(p@),
            None => scan_payload(x@, 0, Seq::empty()) is None,
        },
{
    let mut payload = Payload::new();
    let mut pos: usize = 0;
    let close = chars_of("</Data>");
    proof {
        reveal_strlit("</Data>");
    }
    while pos < x.len()
        invariant
            pos <= x@.len() + 7,
            close@ == "</Data>"@,
            scan_payload(x@, 0, Seq::empty()) == scan_payload(x@, pos as int, payload@),
        decreases x@.len() - pos,
    {
        let (ns, q) = match data_opener_exec(x, pos) {
            Some(o) => o,
            None => return Some(payload),
        };
        let qe = match find_char(x, q, ns) {
            Some(e) => e,
            None => return Some(payload),
        };
        proof {
            lemma_find_char_from(x@, q, ns as int);
        }
        if qe + 1 >= x.len() || (x[qe + 1] as u32) >= 0x80 {
            return None;
        }
        let vs = qe + 2;
        let ve = match find_chars(x, close.as_slice(), vs) {
            Some(e) => e,
            None => return Some(payload),
        };
        proof {
            lemma_find_from(x@, "</Data>"@, vs as int);
            lemma_scan_progress(x@, pos as int, ns as int, q, qe as int, ve as int);
        }
        let name = sub_string(x, ns, qe);
        let value = sub_string(x, vs, ve);
        payload.insert(name.as_str(), PayloadValue::Text(value));
        pos = ve + 7;
    }
    Some(payload)
}

/// The last component of a Windows path.
pub fn win_basename(path: &str) -> (r: String)
    ensures
        r@ == basename_spec(path@),
{
    let c = chars_of(path);
    let mut i = c.len();
    assert(c@.take(c@.len() as int) =~= c@);
    while i > 0
        invariant
            i <= c@.len(),
            c@ == path@,
            last_index_of(c@, '\\') == last_index_of(c@.take(i as int), '\\'),
        decreases i,
    {
        assert(c@.take(i as int).drop_last() =~= c@.take(i - 1));
        assert(c@.take(i as int).last() == c@[i - 1]);
        if c[i - 1] == '\\' {
            return sub_string(c.as_slice(), i, c.len());
        }
        i -= 1;
    }
    path.to_owned()
}

fn opt_basename_exec(o: &Option<String>) -> (r: Option<String>)
    ensures
        crate::event::opt_text(r) == opt_basename(crate::event::opt_text(*o)),
{
    match o {
        Some(p) => Some(win_basename(p.as_str())),
        None => None,
    }
}

fn is_white_space_exec(c: char) -> (r: bool)
    ensures
        r == is_white_space(c),
{
    let v = c as u32;
    (0x09 <= v && v <= 0x0d) || v == 0x20 || v == 0x85 || v == 0xa0 || v == 0x1680 || (0x2000
        <= v && v <= 0x200a) || v == 0x2028 || v == 0x2029 || v == 0x202f || v == 0x205f || v
        == 0x3000
}

/// The bounds of `x[a..b]` with white space trimmed from both ends.
fn trim_span(x: &[char], a: usize, b: usize) -> (r: (usize, usize))
    requires
        a <= b <= x@.len(),
    ensures
        a <= r.0 <= r.1 <= b,
        x@.subrange(r.0 as int, r.1 as int) == trim(x@.subrange(a as int, b as int)),
{
    let mut s = a;
    while s < b && is_white_space_exec(x[s])
        invariant
            a <= s <= b <= x@.len(),
            trim_start(x@.subrange(a as int, b as int)) == trim_start(
                x@.subrange(s as int, b as int),
            ),
        decreases b - s,
    {
        assert(x@.subrange(s as int, b as int).drop_first() =~= x@.subrange(s + 1, b as int));
        s += 1;
    }
    assert(trim_start(x@.subrange(s as int, b as int)) == x@.subrange(s as int, b as int));
    let mut e = b;
    while e > s && is_white_space_exec(x[e - 1])
        invariant
            a <= s <= e <= b <= x@.len(),
            trim(x@.subrange(a as int, b as int)) == trim_end(x@.subrange(s as int, e as int)),
        decreases e - s,
    {
        assert(x@.subrange(s as int, e as int).drop_last() =~= x@.subrange(s as int, e - 1));
        e -= 1;
    }
    (s, e)
}

/// `extract_sha256`: the SHA-256 digest in a Sysmon `Hashes` field.
pub fn extract_sha256(hashes: &str) -> (r: Option<String>)
    ensures
        crate::event::opt_text(r) == sha256_from(hashes@, 0),
{
    let s = chars_of(hashes);
    let mut start: usize = 0;
    loop
        invariant
            start <= s@.len(),
            s@ == hashes@,
            sha256_from(s@, 0) == sha256_from(s@, start as int),
        decreases s@.len() - start,
    {
        let end = match find_char(s.as_slice(), ',', start) {
            Some(e) => e,
            None => s.len(),
        };
        proof {
            lemma_find_char_from(s@, ',', start as int);
        }
        let (ta, tb) = trim_span(s.as_slice(), start, end);
        let t = sub_chars(s.as_slice(), ta, tb);
        if starts_with_str(t.as_slice(), "SHA256=") || starts_with_str(t.as_slice(), "sha256=") {
            proof {
                reveal_strlit("SHA256=");
                reveal_strlit("sha256=");
            }
            return Some(sub_string(t.as_slice(), 7, t.len()));
        }
        if end >= s.len() {
            return None;
        }
        start = end + 1;
    }
}

fn pid_exec(p: &Payload, key: &str) -> (r: Option<u32>)
    ensures
        r == pid_spec(p@, key@),
{
    match p.nonempty_text(key) {
        Some(s) => {
            let c = chars_of(s.as_str());
            parse_u32_chars(c.as_slice())
        },
        None => None,
    }
}

fn port_exec(p: &Payload, key: &str) -> (r: Option<u16>)
    ensures
        r == port_spec(p@, key@),
{
    match p.get(key) {
        Some(PayloadValue::Unsigned(n)) => Some((*n % 65536) as u16),
        Some(PayloadValue::Signed(n)) => if *n >= 0 {
            Some((*n % 65536) as u16)
        } else {
            None
        },
        Some(PayloadValue::Text(s)) => {
            let c = chars_of(s.as_str());
            parse_u16_chars(c.as_slice())
        },
        _ => None,
    }
}

fn basic_process_exec(p: &Payload) -> (r: ProcessInfo)
    ensures
        r@ == basic_process(p@),
{
    let path = p.nonempty_text("Image");
    ProcessInfo {
        pid: pid_exec(p, "ProcessId"),
        name: opt_basename_exec(&path),
        path,
        command_line: None,
        hash_sha256: None,
    }
}

fn user_exec(p: &Payload) -> (r: Option<UserInfo>)
    ensures
        opt_view(r) == user_spec(p@),
{
    match p.nonempty_text("User") {
        None => None,
        Some(raw) => {
            let c = chars_of(raw.as_str());
            match find_char(c.as_slice(), '\\', 0) {
                Some(i) => {
                    proof {
                        lemma_find_char_from(c@, '\\', 0);
                    }
                    Some(
                        UserInfo {
                            domain: Some(sub_string(c.as_slice(), 0, i)),
                            name: sub_string(c.as_slice(), i + 1, c.len()),
                        },
                    )
                },
                None => Some(UserInfo { name: raw, domain: None }),
            }
        },
    }
}

fn host_exec(p: &Payload) -> (r: Option<HostInfo>)
    ensures
        opt_view(r) == host_spec(p@),
{
    match p.nonempty_text("computer") {
        Some(name) => Some(HostInfo { name }),
        None => None,
    }
}

fn sysmon_type(eid: u32, default_type: EventType) -> (r: EventType)
    ensures
        r == sysmon_type_spec(eid, default_type),
{
    match eid {
        1 => EventType::ProcessCreate,
        2 => EventType::FileCreateTime,
        3 => EventType::NetworkConnect,
        5 => EventType::ProcessTerminate,
        6 => EventType::DriverLoad,
        7 => EventType::ImageLoad,
        8 => EventType::RemoteThread,
        9 => EventType::RawDiskAccess,
        10 => EventType::ProcessAccess,
        11 => EventType::FileCreate,
        12 => EventType::RegistryCreateDelete,
        13 => EventType::RegistryValueSet,
        14 => EventType::RegistryCreateDelete,
        15 => EventType::FileStreamCreate,
        17 | 18 => EventType::Pipe,
        19 | 20 | 21 => EventType::WmiActivity,
        22 => EventType::DnsQuery,
        23 => EventType::FileDelete,
        24 => EventType::ClipboardAccess,
        _ => default_type,
    }
}

/// Whether the agent's XML parser would panic on `xml`.
pub fn parse_would_panic_exec(xml: &str) -> (r: bool)
    ensures
        r == parse_would_panic(xml@),
{
    let x = chars_of(xml);
    match parse_header(x.as_slice()) {
        None => false,
        Some(_) => scan_data(x.as_slice()).is_none(),
    }
}

/// The parsed header pieces, as spans and numbers.
struct HeaderParts {
    event_id: u32,
    ts: (usize, usize),
    record_id: u64,
    computer: (usize, usize),
}

fn parse_header(x: &[char]) -> (r: Option<HeaderParts>)
    ensures
        match r {
            Some(h) => {
                &&& h.ts.0 <= h.ts.1 <= x@.len()
                &&& h.computer.0 <= h.computer.1 <= x@.len()
                &&& header_spec(x@) == Some(
                    XmlHeader {
                        event_id: h.event_id,
                        system_time: x@.subrange(h.ts.0 as int, h.ts.1 as int),
                        record_id: h.record_id,
                        computer: x@.subrange(h.computer.0 as int, h.computer.1 as int),
                    },
                )
            },
            None => header_spec(x@) is None,
        },
{
    let (ia, ib) = match tag_span(x, "<EventID>", "</EventID>") {
        Some(s) => s,
        None => return None,
    };
    let ids = sub_chars(x, ia, ib);
    let event_id = match parse_u32_chars(ids.as_slice()) {
        Some(v) => v,
        None => return None,
    };
    let ts = match system_time_span(x) {
        Some(s) => s,
        None => return None,
    };
    let (ra, rb) = match tag_span(x, "<EventRecordID>", "</EventRecordID>") {
        Some(s) => s,
        None => return None,
    };
    let rs = sub_chars(x, ra, rb);
    let record_id = match parse_u64_chars(rs.as_slice()) {
        Some(v) => v,
        None => return None,
    };
    let computer = match tag_span(x, "<Computer>", "</Computer>") {
        Some(s) => s,
        None => return None,
    };
    Some(HeaderParts { event_id, ts, record_id, computer })
}

/// The structured records of an event, read from its payload.
pub fn records_for(eid: u32, p: &Payload) -> (r: (
    Option<ProcessInfo>,
    Option<ProcessInfo>,
    Option<FileInfo>,
    Option<NetworkInfo>,
    Option<DnsInfo>,
))
    ensures
        opt_view(r.0) == records_spec(eid, p@).process,
        opt_view(r.1) == records_spec(eid, p@).parent_process,
        opt_view(r.2) == records_spec(eid, p@).file,
        opt_view(r.3) == records_spec(eid, p@).network,
        opt_view(r.4) == records_spec(eid, p@).dns,
{
    if eid == 1 {
        let mut proc_info = basic_process_exec(p);
        proc_info.command_line = p.nonempty_text("CommandLine");
        proc_info.hash_sha256 = match p.get("Hashes") {
            Some(PayloadValue::Text(h)) => extract_sha256(h.as_str()),
            _ => None,
        };
        let parent_path = p.nonempty_text("ParentImage");
        let parent = ProcessInfo {
            pid: pid_exec(p, "ParentProcessId"),
            name: opt_basename_exec(&parent_path),
            path: parent_path,
            command_line: p.nonempty_text("ParentCommandLine"),
            hash_sha256: None,
        };
        (Some(proc_info), Some(parent), None, None, None)
    } else if eid == 5 {
        (Some(basic_process_exec(p)), None, None, None, None)
    } else if eid == 3 {
        let net = NetworkInfo {
            src_ip: p.nonempty_text("SourceIp"),
            src_port: port_exec(p, "SourcePort"),
            dst_ip: p.nonempty_text("DestinationIp"),
            dst_port: port_exec(p, "DestinationPort"),
            protocol: p.nonempty_text("Protocol"),
        };
        (Some(basic_process_exec(p)), None, None, Some(net), None)
    } else if eid == 22 {
        let dns = DnsInfo {
            query: p.nonempty_text("QueryName"),
            query_type: p.nonempty_text("QueryType"),
            response: p.nonempty_text("QueryResults"),
        };
        (Some(basic_process_exec(p)), None, None, None, Some(dns))
    } else if eid == 2 || eid == 11 || eid == 15 || eid == 23 {
        let path = p.nonempty_text("TargetFilename");
        let file = FileInfo { name: opt_basename_exec(&path), path };
        (Some(basic_process_exec(p)), None, Some(file), None, None)
    } else {
        let proc_info = if p.nonempty_text("Image").is_some() {
            let mut pi = basic_process_exec(p);
            pi.command_line = p.nonempty_text("CommandLine");
            Some(pi)
        } else {
            None
        };
        (proc_info, None, None, None, None)
    }
}

/// `e` is the event parsed from the XML rendering `x` (whose header `h`
/// is well-formed) for `agent_id`, with `default_type` and `source`.
pub open spec fn parsed_from(
    e: Event,
    x: Seq<char>,
    h: XmlHeader,
    agent_id: Seq<char>,
    default_type: EventType,
    source: Seq<char>,
) -> bool {
    let p = payload_spec(x, h);
    let rec = records_spec(h.event_id, p);
    &&& e.agent_id@ == agent_id
    &&& e.source@ == source
    &&& e.event_id == Some(h.event_id)
    &&& e.event_type == event_type_spec(h.event_id, default_type, source)
    &&& e.payload@ == p
    &&& e.risk_flags@ == Seq::<crate::risk::RiskFlag>::empty()
    &&& e.risk_score == 0
    &&& e.invariant_violation is None
    &&& opt_view(e.host) == host_spec(p)
    &&& opt_view(e.user) == user_spec(p)
    &&& opt_view(e.process) == rec.process
    &&& opt_view(e.parent_process) == rec.parent_process
    &&& opt_view(e.file) == rec.file
    &&& opt_view(e.network) == rec.network
    &&& opt_view(e.dns) == rec.dns
}

/// Parse one event-log XML rendering into an event, or `None` when the
/// header is missing or malformed.
pub fn parse_event_xml(xml: &str, agent_id: &str, default_type: EventType, source: &str) -> (r:
    Option<Event>)
    requires
        !parse_would_panic(xml@),
    ensures
        match header_spec(xml@) {
            None => r is None,
            Some(h) => r matches Some(e) && parsed_from(e, xml@, h, agent_id@, default_type, source@),
        },
{
    let x = chars_of(xml);
    let h = match parse_header(x.as_slice()) {
        Some(h) => h,
        None => return None,
    };
    let mut payload = match scan_data(x.as_slice()) {
        Some(p) => p,
        None => return None,
    };
    let timestamp = sub_string(x.as_slice(), h.ts.0, h.ts.1);
    let computer = sub_string(x.as_slice(), h.computer.0, h.computer.1);
    payload.insert("event_record_id", PayloadValue::Unsigned(h.record_id));
    payload.insert("computer", PayloadValue::Text(computer));
    payload.insert("system_time", PayloadValue::Text(timestamp));

    let etype = if str_equal(source, "sysmon") {
        sysmon_type(h.event_id, default_type)
    } else {
        default_type
    };
    let host = host_exec(&payload);
    let user = user_exec(&payload);
    let (process, parent_process, file, network, dns) = records_for(h.event_id, &payload);
    let mut event = Event::new(agent_id, etype, source, Some(h.event_id), payload);
    event.host = host;
    event.user = user;
    event.process = process;
    event.parent_process = parent_process;
    event.file = file;
    event.network = network;
    event.dns = dns;
    Some(event)
}

/// The EventRecordID of an event-log XML rendering (how the collectors seed
/// their read position from the newest record).
pub fn record_id_of(xml: &str) -> (r: Option<u64>)
    ensures
        r == match tag_value(xml@, "<EventRecordID>"@, "</EventRecordID>"@) {
            Some(s) => parse_u64_spec(s),
            None => None,
        },
{
    let x = chars_of(xml);
    match tag_span(x.as_slice(), "<EventRecordID>", "</EventRecordID>") {
        Some((a, b)) => {
            let s = sub_chars(x.as_slice(), a, b);
            parse_u64_chars(s.as_slice())
        },
        None => None,
    }
}

/// A Sysmon record's canonical event type follows the fixed Sysmon ID
/// table: 1 process creation, 2 file creation time, 3 network connection, 5
/// process termination, 6 driver load, 7 image load, 8 remote thread, 9 raw
/// disk access, 10 process access, 11 file creation, 12 and 14 registry
/// key create/delete, 13 registry value set, 15 file stream, 17 and 18
/// pipes, 19 to 21 WMI, 22 DNS query, 23 file deletion, 24 clipboard; any
/// other ID keeps the default type, as does every record of another source.
pub proof fn law_sysmon_event_types(
    e: Event,
    x: Seq<char>,
    h: XmlHeader,
    agent_id: Seq<char>,
    default_type: EventType,
    source: Seq<char>,
)
    requires
        parsed_from(e, x, h, agent_id, default_type, source),
    ensures
        source != "sysmon"@ ==> e.event_type == default_type,
        source == "sysmon"@ ==> {
            let id = h.event_id;
            &&& id == 1 ==> e.event_type == EventType::ProcessCreate
            &&& id == 2 ==> e.event_type == EventType::FileCreateTime
            &&& id == 3 ==> e.event_type == EventType::NetworkConnect
            &&& id == 5 ==> e.event_type == EventType::ProcessTerminate
            &&& id == 6 ==> e.event_type == EventType::DriverLoad
            &&& id == 7 ==> e.event_type == EventType::ImageLoad
            &&& id == 8 ==> e.event_type == EventType::RemoteThread
            &&& id == 9 ==> e.event_type == EventType::RawDiskAccess
            &&& id == 10 ==> e.event_type == EventType::ProcessAccess
            &&& id == 11 ==> e.event_type == EventType::FileCreate
            &&& id == 12 ==> e.event_type == EventType::RegistryCreateDelete
            &&& id == 13 ==> e.event_type == EventType::RegistryValueSet
            &&& id == 14 ==> e.event_type == EventType::RegistryCreateDelete
            &&& id == 15 ==> e.event_type == EventType::FileStreamCreate
            &&& (id == 17 || id == 18) ==> e.event_type == EventType::Pipe
            &&& (id == 19 || id == 20 || id == 21) ==> e.event_type == EventType::WmiActivity
            &&& id == 22 ==> e.event_type == EventType::DnsQuery
            &&& id == 23 ==> e.event_type == EventType::FileDelete
            &&& id == 24 ==> e.event_type == EventType::ClipboardAccess
            &&& (id == 0 || id == 4 || id == 16 || id > 24) ==> e.event_type == default_type
        },
{
}

} // verus!
