//! Cross-platform event simulator for demo and testing: synthetic events
//! drawn at random, driven by the live policy. It respects the same policy
//! flags as the real collectors (DLL events only when enabled, and so on).
//!
//! The random draws are made here through `rand`; what the draws become is
//! decided by `build_event`, which is exact for every draw. Sending the
//! events on a timer is the caller's part.
use vstd::prelude::*;

use crate::collector::contains_id;
use crate::event::{
    insert_spec, lemma_insert_then_lookup, lookup, Event, EventType, Payload, PayloadValue,
    PayloadValueView,
};
use crate::policy::{hex_digit, Policy, PolicyCollection};
use crate::text::{decimal, owned, string_from_chars, u64_text};

verus! {

/// `rand::rngs::ThreadRng`, the thread-local generator the simulator draws
/// from.
#[verifier::external_type_specification]
#[verifier::external_body]
pub struct ExThreadRng(rand::rngs::ThreadRng);

/// `Rng::gen_range(low..high)`: a value in `[low, high)` (the range must not
/// be empty, or it panics).
#[verifier::external_body]
fn gen_range_u64(rng: &mut rand::rngs::ThreadRng, low: u64, high: u64) -> (r: u64)
    requires
        low < high,
    ensures
        low <= r < high,
{
    rand::Rng::gen_range(rng, low..high)
}

/// `Rng::gen::<u64>()`: any `u64`; nothing is promised of it.
#[verifier::external_body]
fn gen_u64(rng: &mut rand::rngs::ThreadRng) -> (r: u64) {
    rand::Rng::gen::<u64>(rng)
}

/// `Rng::gen_ratio(numerator, denominator)`: `true` with probability
/// numerator/denominator, always `false` for a zero numerator and always
/// `true` when the two are equal (it panics on a zero denominator or a
/// numerator above the denominator).
#[verifier::external_body]
fn gen_ratio(rng: &mut rand::rngs::ThreadRng, numerator: u32, denominator: u32) -> (r: bool)
    requires
        0 < denominator,
        numerator <= denominator,
    ensures
        numerator == 0 ==> !r,
        numerator == denominator ==> r,
{
    rand::Rng::gen_ratio(rng, numerator, denominator)
}

/// The kinds of event the simulator can produce.
#[derive(Debug, Clone, Copy, PartialEq, Eq, Structural)]
pub enum EventChoice {
    ProcessCreate,
    NetworkConnect,
    DnsQuery,
    AuthEvent,
    PowerShell,
    DllLoad,
    FileEvent,
}

/// One choice when `on` holds, none otherwise.
pub open spec fn choice_if(on: bool, c: EventChoice) -> Seq<EventChoice> {
    if on {
        seq![c]
    } else {
        Seq::empty()
    }
}

/// The kinds the policy allows, in order: process creation (Sysmon 1),
/// network connections (Sysmon 3), DNS queries (Sysmon 22), logons (any
/// security event), PowerShell (script block logging), DLL loads (only when
/// explicitly enabled and Sysmon 7 is collected), and file events.
pub open spec fn choices_spec(c: PolicyCollection) -> Seq<EventChoice> {
    choice_if(c.sysmon_events@.contains(1), EventChoice::ProcessCreate) + choice_if(
        c.sysmon_events@.contains(3),
        EventChoice::NetworkConnect,
    ) + choice_if(c.sysmon_events@.contains(22), EventChoice::DnsQuery) + choice_if(
        c.security_events@.len() > 0,
        EventChoice::AuthEvent,
    ) + choice_if(c.powershell_logging, EventChoice::PowerShell) + choice_if(
        c.dll_events_enabled && c.sysmon_events@.contains(7),
        EventChoice::DllLoad,
    ) + choice_if(c.file_events.enabled, EventChoice::FileEvent)
}

/// The kinds of event the policy's collection settings allow.
pub fn build_choices(policy: &Policy) -> (choices: Vec<EventChoice>)
    ensures
        choices@ == choices_spec(policy.collection),
{
    let collection = &policy.collection;
    let mut choices: Vec<EventChoice> = Vec::new();
    let ghost c = *collection;
    if contains_id(&collection.sysmon_events, 1) {
        choices.push(EventChoice::ProcessCreate);
    }
    assert(choices@ =~= choice_if(c.sysmon_events@.contains(1), EventChoice::ProcessCreate));
    let ghost s1 = choices@;
    if contains_id(&collection.sysmon_events, 3) {
        choices.push(EventChoice::NetworkConnect);
    }
    assert(choices@ =~= s1 + choice_if(c.sysmon_events@.contains(3), EventChoice::NetworkConnect));
    let ghost s2 = choices@;
    if contains_id(&collection.sysmon_events, 22) {
        choices.push(EventChoice::DnsQuery);
    }
    assert(choices@ =~= s2 + choice_if(c.sysmon_events@.contains(22), EventChoice::DnsQuery));
    let ghost s3 = choices@;
    if collection.security_events.len() > 0 {
        choices.push(EventChoice::AuthEvent);
    }
    assert(choices@ =~= s3 + choice_if(c.security_events@.len() > 0, EventChoice::AuthEvent));
    let ghost s4 = choices@;
    if collection.powershell_logging {
        choices.push(EventChoice::PowerShell);
    }
    assert(choices@ =~= s4 + choice_if(c.powershell_logging, EventChoice::PowerShell));
    let ghost s5 = choices@;
    if collection.dll_events_enabled && contains_id(&collection.sysmon_events, 7) {
        choices.push(EventChoice::DllLoad);
    }
    assert(choices@ =~= s5 + choice_if(
        c.dll_events_enabled && c.sysmon_events@.contains(7),
        EventChoice::DllLoad,
    ));
    let ghost s6 = choices@;
    if collection.file_events.enabled {
        choices.push(EventChoice::FileEvent);
    }
    assert(choices@ =~= s6 + choice_if(c.file_events.enabled, EventChoice::FileEvent));
    choices
}

// ---------------------------------------------------------------------------
// The value pools
// ---------------------------------------------------------------------------

pub open spec fn process_names() -> Seq<Seq<char>> {
    seq!["powershell.exe"@, "cmd.exe"@, "notepad.exe"@, "svchost.exe"@, "explorer.exe"@]
}

pub open spec fn command_lines() -> Seq<Seq<char>> {
    seq!["powershell.exe -NoProfile"@, "cmd.exe /c whoami"@, "notepad.exe C:\\temp\\file.txt"@]
}

pub open spec fn process_users() -> Seq<Seq<char>> {
    seq!["SYSTEM"@, "Administrator"@, "IronClaw\\ahmed"@]
}

pub open spec fn net_processes() -> Seq<Seq<char>> {
    seq!["chrome.exe"@, "svchost.exe"@, "powershell.exe"@]
}

pub open spec fn dst_ports() -> Seq<u16> {
    seq![80u16, 443, 8080, 53, 445]
}

pub open spec fn dns_queries() -> Seq<Seq<char>> {
    seq!["google.com"@, "microsoft.com"@, "windowsupdate.com"@, "github.com"@]
}

pub open spec fn auth_event_ids() -> Seq<u32> {
    seq![4624u32, 4625, 4672, 4688]
}

pub open spec fn auth_users() -> Seq<Seq<char>> {
    seq!["Administrator"@, "ahmed"@, "SYSTEM"@, "Guest"@]
}

pub open spec fn script_blocks() -> Seq<Seq<char>> {
    seq![
        "Get-Process"@,
        "Invoke-WebRequest -Uri http://example.com"@,
        "Get-ChildItem C:\\Windows\\Temp"@,
        "Set-ExecutionPolicy RemoteSigned"@,
    ]
}

pub open spec fn script_paths() -> Seq<Seq<char>> {
    seq!["<interactive>"@, "C:\\Scripts\\init.ps1"@]
}

pub open spec fn dll_processes() -> Seq<Seq<char>> {
    seq!["lsass.exe"@, "svchost.exe"@, "explorer.exe"@]
}

pub open spec fn dll_images() -> Seq<Seq<char>> {
    seq!["C:\\Windows\\System32\\ntdll.dll"@, "C:\\Windows\\System32\\kernel32.dll"@]
}

pub open spec fn dll_signatures() -> Seq<Seq<char>> {
    seq!["Microsoft Corporation"@, "(unsigned)"@, ""@]
}

pub open spec fn file_processes() -> Seq<Seq<char>> {
    seq!["explorer.exe"@, "cmd.exe"@, "powershell.exe"@]
}

pub open spec fn file_paths() -> Seq<Seq<char>> {
    seq![
        "C:\\Windows\\Temp\\tmp_payload.exe"@,
        "C:\\Users\\ahmed\\Downloads\\setup.exe"@,
        "C:\\Windows\\Temp\\output.txt"@,
    ]
}

pub open spec fn file_actions() -> Seq<Seq<char>> {
    seq!["created"@, "modified"@, "deleted"@]
}

// ---------------------------------------------------------------------------
// Draws and the events they make
// ---------------------------------------------------------------------------

/// The random draws behind one simulated event: for each field, the index
/// picked from its pool or the number drawn.
#[derive(Debug, Clone, Copy)]
pub enum SimDraws {
    ProcessCreate { process_name: usize, pid: u32, ppid: u32, cmdline: usize, user: usize, hash: u64 },
    NetworkConnect { process: usize, dst_ip: (u8, u8, u8, u8), dst_port: usize },
    DnsQuery { process: usize, query: usize, result: (u8, u8, u8, u8) },
    AuthEvent { event_id: usize, user: usize, logon_type: u32, success: bool },
    PowerShell { script_block: usize, path: usize },
    DllLoad { process: usize, image_loaded: usize, signed: bool, signature: usize },
    FileEvent { process: usize, path: usize, action: usize },
}

/// The kind of event the draws are for.
pub open spec fn choice_of(d: SimDraws) -> EventChoice {
    match d {
        SimDraws::ProcessCreate { .. } => EventChoice::ProcessCreate,
        SimDraws::NetworkConnect { .. } => EventChoice::NetworkConnect,
        SimDraws::DnsQuery { .. } => EventChoice::DnsQuery,
        SimDraws::AuthEvent { .. } => EventChoice::AuthEvent,
        SimDraws::PowerShell { .. } => EventChoice::PowerShell,
        SimDraws::DllLoad { .. } => EventChoice::DllLoad,
        SimDraws::FileEvent { .. } => EventChoice::FileEvent,
    }
}

/// An IPv4 address drawn as a public-looking address: first and last octet
/// in 1..255, the middle two in 0..255.
pub open spec fn ip_drawn(ip: (u8, u8, u8, u8)) -> bool {
    1 <= ip.0 < 255 && ip.1 < 255 && ip.2 < 255 && 1 <= ip.3 < 255
}

/// Draws the simulator can make: every index inside its pool, every number
/// in its range.
pub open spec fn draws_valid(d: SimDraws) -> bool {
    match d {
        SimDraws::ProcessCreate { process_name, pid, ppid, cmdline, user, hash } => {
            &&& process_name < process_names().len()
            &&& 1000 <= pid < 65535
            &&& 100 <= ppid < 1000
            &&& cmdline < command_lines().len()
            &&& user < process_users().len()
        },
        SimDraws::NetworkConnect { process, dst_ip, dst_port } => {
            &&& process < net_processes().len()
            &&& ip_drawn(dst_ip)
            &&& dst_port < dst_ports().len()
        },
        SimDraws::DnsQuery { process, query, result } => {
            &&& process < net_processes().len()
            &&& query < dns_queries().len()
            &&& ip_drawn(result)
        },
        SimDraws::AuthEvent { event_id, user, logon_type, success } => {
            &&& event_id < auth_event_ids().len()
            &&& user < auth_users().len()
            &&& 2 <= logon_type < 12
        },
        SimDraws::PowerShell { script_block, path } => {
            &&& script_block < script_blocks().len()
            &&& path < script_paths().len()
        },
        SimDraws::DllLoad { process, image_loaded, signed, signature } => {
            &&& process < dll_processes().len()
            &&& image_loaded < dll_images().len()
            &&& signature < dll_signatures().len()
        },
        SimDraws::FileEvent { process, path, action } => {
            &&& process < file_processes().len()
            &&& path < file_paths().len()
            &&& action < file_actions().len()
        },
    }
}

/// Dotted-quad text of an IPv4 address.
pub open spec fn ip_text(ip: (u8, u8, u8, u8)) -> Seq<char> {
    decimal(ip.0 as nat) + "."@ + decimal(ip.1 as nat) + "."@ + decimal(ip.2 as nat) + "."@
        + decimal(ip.3 as nat)
}

/// The last `k` lower-case hexadecimal digits of `n`.
pub open spec fn hex_digits(n: nat, k: nat) -> Seq<char>
    decreases k,
{
    if k == 0 {
        Seq::empty()
    } else {
        hex_digits(n / 16, (k - 1) as nat).push(hex_digit((n % 16) as int))
    }
}

/// `format!("{:064x}", n)`: `n` in lower-case hexadecimal, zero-padded to
/// 64 digits.
pub open spec fn hex64_spec(n: u64) -> Seq<char> {
    Seq::new(48, |i: int| '0') + hex_digits(n as nat, 16)
}

type Entries = Seq<(Seq<char>, PayloadValueView)>;

/// Text and number entries.
pub open spec fn txt(s: Seq<char>) -> PayloadValueView {
    PayloadValueView::Text(s)
}

pub open spec fn num(n: int) -> PayloadValueView {
    PayloadValueView::Unsigned(n as u64)
}

/// The payload the draws make.
pub open spec fn sim_payload(d: SimDraws) -> Entries {
    let e = Seq::<(Seq<char>, PayloadValueView)>::empty();
    match d {
        SimDraws::ProcessCreate { process_name, pid, ppid, cmdline, user, hash } => {
            let p1 = insert_spec(e, "process_name"@, txt(process_names()[process_name as int]));
            let p2 = insert_spec(p1, "pid"@, num(pid as int));
            let p3 = insert_spec(p2, "ppid"@, num(ppid as int));
            let p4 = insert_spec(p3, "cmdline"@, txt(command_lines()[cmdline as int]));
            let p5 = insert_spec(p4, "user"@, txt(process_users()[user as int]));
            insert_spec(p5, "hash_sha256"@, txt(hex64_spec(hash)))
        },
        SimDraws::NetworkConnect { process, dst_ip, dst_port } => {
            let p1 = insert_spec(e, "process"@, txt(net_processes()[process as int]));
            let p2 = insert_spec(p1, "dst_ip"@, txt(ip_text(dst_ip)));
            let p3 = insert_spec(p2, "dst_port"@, num(dst_ports()[dst_port as int] as int));
            insert_spec(p3, "protocol"@, txt("tcp"@))
        },
        SimDraws::DnsQuery { process, query, result } => {
            let p1 = insert_spec(e, "process"@, txt(net_processes()[process as int]));
            let p2 = insert_spec(p1, "query"@, txt(dns_queries()[query as int]));
            insert_spec(p2, "result"@, txt(ip_text(result)))
        },
        SimDraws::AuthEvent { event_id, user, logon_type, success } => {
            let p1 = insert_spec(e, "user"@, txt(auth_users()[user as int]));
            let p2 = insert_spec(p1, "logon_type"@, num(logon_type as int));
            let p3 = insert_spec(p2, "source_ip"@, txt("192.168.122.1"@));
            insert_spec(p3, "success"@, PayloadValueView::Bool(success))
        },
        SimDraws::PowerShell { script_block, path } => {
            let p1 = insert_spec(e, "script_block"@, txt(script_blocks()[script_block as int]));
            insert_spec(p1, "path"@, txt(script_paths()[path as int]))
        },
        SimDraws::DllLoad { process, image_loaded, signed, signature } => {
            let p1 = insert_spec(e, "process"@, txt(dll_processes()[process as int]));
            let p2 = insert_spec(p1, "image_loaded"@, txt(dll_images()[image_loaded as int]));
            let p3 = insert_spec(p2, "signed"@, PayloadValueView::Bool(signed));
            insert_spec(p3, "signature"@, txt(dll_signatures()[signature as int]))
        },
        SimDraws::FileEvent { process, path, action } => {
            let p1 = insert_spec(e, "process"@, txt(file_processes()[process as int]));
            let p2 = insert_spec(p1, "path"@, txt(file_paths()[path as int]));
            insert_spec(p2, "action"@, txt(file_actions()[action as int]))
        },
    }
}

/// The event type, source and event ID of the draws' event.
pub open spec fn sim_header(d: SimDraws) -> (EventType, Seq<char>, u32) {
    match d {
        SimDraws::ProcessCreate { .. } => (EventType::Process, "sysmon"@, 1),
        SimDraws::NetworkConnect { .. } => (EventType::Network, "sysmon"@, 3),
        SimDraws::DnsQuery { .. } => (EventType::Dns, "sysmon"@, 22),
        SimDraws::AuthEvent { event_id, .. } => (
            EventType::Auth,
            "security_log"@,
            auth_event_ids()[event_id as int],
        ),
        SimDraws::PowerShell { .. } => (EventType::PowerShell, "powershell"@, 4104),
        SimDraws::DllLoad { .. } => (EventType::DriverLoad, "sysmon"@, 7),
        SimDraws::FileEvent { .. } => (EventType::FileSystem, "sysmon"@, 11),
    }
}

/// `e` is the fresh event the draws make for `agent_id`.
pub open spec fn simulated_from(e: Event, d: SimDraws, agent_id: Seq<char>) -> bool {
    &&& e.agent_id@ == agent_id
    &&& e.event_type == sim_header(d).0
    &&& e.source@ == sim_header(d).1
    &&& e.event_id == Some(sim_header(d).2)
    &&& e.payload@ == sim_payload(d)
    &&& e.risk_flags@.len() == 0
    &&& e.risk_score == 0
    &&& e.invariant_violation is None
    &&& e.host is None
    &&& e.user is None
    &&& e.process is None
    &&& e.parent_process is None
    &&& e.file is None
    &&& e.network is None
    &&& e.dns is None
}

/// `e` is an event the simulator can make for `agent_id` under the
/// collection settings `c`: one of an allowed kind, from valid draws.
pub open spec fn simulated(e: Event, agent_id: Seq<char>, c: PolicyCollection) -> bool {
    exists|d: SimDraws|
        #![trigger simulated_from(e, d, agent_id)]
        draws_valid(d) && choices_spec(c).contains(choice_of(d)) && simulated_from(e, d, agent_id)
}

fn hex_char(d: u64) -> (c: char)
    requires
        d < 16,
    ensures
        c == hex_digit(d as int),
{
    if d < 10 {
        let b: u8 = 48u8 + d as u8;
        b as char
    } else {
        let b: u8 = 87u8 + d as u8;
        b as char
    }
}

fn hex_digit_chars(n: u64, k: u64) -> (r: Vec<char>)
    ensures
        r@ == hex_digits(n as nat, k as nat),
    decreases k,
{
    if k == 0 {
        Vec::new()
    } else {
        let mut v = hex_digit_chars(n / 16, k - 1);
        v.push(hex_char(n % 16));
        v
    }
}

/// `n` in lower-case hexadecimal, zero-padded to 64 digits.
pub fn hex64(n: u64) -> (r: String)
    ensures
        r@ == hex64_spec(n),
{
    let mut chars: Vec<char> = Vec::new();
    let mut i: usize = 0;
    while i < 48
        invariant
            i <= 48,
            chars@ == Seq::new(i as nat, |j: int| '0'),
        decreases 48 - i,
    {
        chars.push('0');
        i += 1;
        assert(chars@ =~= Seq::new(i as nat, |j: int| '0'));
    }
    let digits = hex_digit_chars(n, 16);
    let mut j: usize = 0;
    while j < digits.len()
        invariant
            j <= digits@.len(),
            digits@ == hex_digits(n as nat, 16),
            chars@ == Seq::new(48, |x: int| '0') + digits@.take(j as int),
        decreases digits@.len() - j,
    {
        chars.push(digits[j]);
        j += 1;
        assert(chars@ =~= Seq::new(48, |x: int| '0') + digits@.take(j as int));
    }
    assert(digits@.take(digits@.len() as int) =~= digits@);
    string_from_chars(chars.as_slice())
}

/// Dotted-quad text of an IPv4 address.
pub fn ip_string(ip: (u8, u8, u8, u8)) -> (r: String)
    ensures
        r@ == ip_text(ip),
{
    let mut s = u64_text(ip.0 as u64);
    s.append(".");
    s.append(u64_text(ip.1 as u64).as_str());
    s.append(".");
    s.append(u64_text(ip.2 as u64).as_str());
    s.append(".");
    s.append(u64_text(ip.3 as u64).as_str());
    s
}

/// The event the draws make, for `agent_id`.
pub fn build_event(d: &SimDraws, agent_id: &str) -> (e: Event)
    requires
        draws_valid(*d),
    ensures
        simulated_from(e, *d, agent_id@),
{
    let mut p = Payload::new();
    let (event_type, source, event_id): (EventType, &str, u32) = match d {
        SimDraws::ProcessCreate { process_name, pid, ppid, cmdline, user, hash } => {
            let names = ["powershell.exe", "cmd.exe", "notepad.exe", "svchost.exe", "explorer.exe"];
            let cmds = ["powershell.exe -NoProfile", "cmd.exe /c whoami", "notepad.exe C:\\temp\\file.txt"];
            let users = ["SYSTEM", "Administrator", "IronClaw\\ahmed"];
            p.insert_text("process_name", names[*process_name]);
            p.insert_unsigned("pid", *pid as u64);
            p.insert_unsigned("ppid", *ppid as u64);
            p.insert_text("cmdline", cmds[*cmdline]);
            p.insert_text("user", users[*user]);
            let h = hex64(*hash);
            p.insert_text("hash_sha256", h.as_str());
            (EventType::Process, "sysmon", 1)
        },
        SimDraws::NetworkConnect { process, dst_ip, dst_port } => {
            let procs = ["chrome.exe", "svchost.exe", "powershell.exe"];
            let ports: [u16; 5] = [80, 443, 8080, 53, 445];
            p.insert_text("process", procs[*process]);
            let ip = ip_string(*dst_ip);
            p.insert_text("dst_ip", ip.as_str());
            p.insert_unsigned("dst_port", ports[*dst_port] as u64);
            p.insert_text("protocol", "tcp");
            (EventType::Network, "sysmon", 3)
        },
        SimDraws::DnsQuery { process, query, result } => {
            let procs = ["chrome.exe", "svchost.exe", "powershell.exe"];
            let queries = ["google.com", "microsoft.com", "windowsupdate.com", "github.com"];
            p.insert_text("process", procs[*process]);
            p.insert_text("query", queries[*query]);
            let ip = ip_string(*result);
            p.insert_text("result", ip.as_str());
            (EventType::Dns, "sysmon", 22)
        },
        SimDraws::AuthEvent { event_id, user, logon_type, success } => {
            let ids: [u32; 4] = [4624, 4625, 4672, 4688];
            let users = ["Administrator", "ahmed", "SYSTEM", "Guest"];
            p.insert_text("user", users[*user]);
            p.insert_unsigned("logon_type", *logon_type as u64);
            p.insert_text("source_ip", "192.168.122.1");
            p.insert("success", PayloadValue::Bool(*success));
            (EventType::Auth, "security_log", ids[*event_id])
        },
        SimDraws::PowerShell { script_block, path } => {
            let blocks = [
                "Get-Process",
                "Invoke-WebRequest -Uri http://example.com",
                "Get-ChildItem C:\\Windows\\Temp",
                "Set-ExecutionPolicy RemoteSigned",
            ];
            let paths = ["<interactive>", "C:\\Scripts\\init.ps1"];
            p.insert_text("script_block", blocks[*script_block]);
            p.insert_text("path", paths[*path]);
            (EventType::PowerShell, "powershell", 4104)
        },
        SimDraws::DllLoad { process, image_loaded, signed, signature } => {
            let procs = ["lsass.exe", "svchost.exe", "explorer.exe"];
            let images = ["C:\\Windows\\System32\\ntdll.dll", "C:\\Windows\\System32\\kernel32.dll"];
            let signatures = ["Microsoft Corporation", "(unsigned)", ""];
            p.insert_text("process", procs[*process]);
            p.insert_text("image_loaded", images[*image_loaded]);
            p.insert("signed", PayloadValue::Bool(*signed));
            p.insert_text("signature", signatures[*signature]);
            (EventType::DriverLoad, "sysmon", 7)
        },
        SimDraws::FileEvent { process, path, action } => {
            let procs = ["explorer.exe", "cmd.exe", "powershell.exe"];
            let paths = [
                "C:\\Windows\\Temp\\tmp_payload.exe",
                "C:\\Users\\ahmed\\Downloads\\setup.exe",
                "C:\\Windows\\Temp\\output.txt",
            ];
            let actions = ["created", "modified", "deleted"];
            p.insert_text("process", procs[*process]);
            p.insert_text("path", paths[*path]);
            p.insert_text("action", actions[*action]);
            (EventType::FileSystem, "sysmon", 11)
        },
    };
    Event::new(agent_id, event_type, source, Some(event_id), p)
}

fn draw_index(rng: &mut rand::rngs::ThreadRng, len: usize) -> (r: usize)
    requires
        0 < len,
    ensures
        r < len,
{
    gen_range_u64(rng, 0, len as u64) as usize
}

fn draw_ip(rng: &mut rand::rngs::ThreadRng) -> (ip: (u8, u8, u8, u8))
    ensures
        ip_drawn(ip),
{
    let a = gen_range_u64(rng, 1, 255) as u8;
    let b = gen_range_u64(rng, 0, 255) as u8;
    let c = gen_range_u64(rng, 0, 255) as u8;
    let d = gen_range_u64(rng, 1, 255) as u8;
    (a, b, c, d)
}

/// Draw the random values for an event of kind `choice`.
pub fn draw(choice: EventChoice, rng: &mut rand::rngs::ThreadRng) -> (d: SimDraws)
    ensures
        draws_valid(d),
        choice_of(d) == choice,
{
    match choice {
        EventChoice::ProcessCreate => {
            let process_name = draw_index(rng, 5);
            let pid = gen_range_u64(rng, 1000, 65535) as u32;
            let ppid = gen_range_u64(rng, 100, 1000) as u32;
            let cmdline = draw_index(rng, 3);
            let user = draw_index(rng, 3);
            let hash = gen_u64(rng);
            SimDraws::ProcessCreate { process_name, pid, ppid, cmdline, user, hash }
        },
        EventChoice::NetworkConnect => {
            let process = draw_index(rng, 3);
            let dst_ip = draw_ip(rng);
            let dst_port = draw_index(rng, 5);
            SimDraws::NetworkConnect { process, dst_ip, dst_port }
        },
        EventChoice::DnsQuery => {
            let process = draw_index(rng, 3);
            let query = draw_index(rng, 4);
            let result = draw_ip(rng);
            SimDraws::DnsQuery { process, query, result }
        },
        EventChoice::AuthEvent => {
            let event_id = draw_index(rng, 4);
            let user = draw_index(rng, 4);
            let logon_type = gen_range_u64(rng, 2, 12) as u32;
            let success = gen_ratio(rng, 9, 10);
            SimDraws::AuthEvent { event_id, user, logon_type, success }
        },
        EventChoice::PowerShell => {
            let script_block = draw_index(rng, 4);
            let path = draw_index(rng, 2);
            SimDraws::PowerShell { script_block, path }
        },
        EventChoice::DllLoad => {
            let process = draw_index(rng, 3);
            let image_loaded = draw_index(rng, 2);
            let signed = gen_ratio(rng, 17, 20);
            let signature = draw_index(rng, 3);
            SimDraws::DllLoad { process, image_loaded, signed, signature }
        },
        EventChoice::FileEvent => {
            let process = draw_index(rng, 3);
            let path = draw_index(rng, 3);
            let action = draw_index(rng, 3);
            SimDraws::FileEvent { process, path, action }
        },
    }
}

/// Generate one synthetic event of a kind the policy allows, picked at
/// random; `None` when the policy allows none.
pub fn generate_event(
    policy: &Policy,
    agent_id: &str,
    rng: &mut rand::rngs::ThreadRng,
) -> (r: Option<Event>)
    ensures
        r is None <==> choices_spec(policy.collection).len() == 0,
        r matches Some(e) ==> simulated(e, agent_id@, policy.collection),
{
    let choices = build_choices(policy);
    if choices.len() == 0 {
        return None;
    }
    let idx = draw_index(rng, choices.len());
    let choice = choices[idx];
    let d = draw(choice, rng);
    let e = build_event(&d, agent_id);
    assert(choices_spec(policy.collection)[idx as int] == choice_of(d));
    assert(draws_valid(d) && choices_spec(policy.collection).contains(choice_of(d)) && simulated_from(
        e,
        d,
        agent_id@,
    ));
    Some(e)
}

/// The simulator collector.
pub struct SimulatorCollector;

impl SimulatorCollector {
    pub fn new() -> Self {
        SimulatorCollector
    }

    /// Human-readable name of this collector.
    pub fn name(&self) -> (r: &'static str)
        ensures
            r@ == "simulator"@,
    {
        "simulator"
    }

    /// The events of one tick: between one and four draws, each of which
    /// becomes an event of a kind the policy allows (none at all when the
    /// policy allows no kind).
    pub fn tick_events(
        &self,
        policy: &Policy,
        agent_id: &str,
        rng: &mut rand::rngs::ThreadRng,
    ) -> (events: Vec<Event>)
        ensures
            choices_spec(policy.collection).len() == 0 ==> events@.len() == 0,
            choices_spec(policy.collection).len() > 0 ==> 1 <= events@.len() <= 4,
            forall|i: int|
                0 <= i < events@.len() ==> simulated(#[trigger] events@[i], agent_id@, policy.collection),
    {
        let count = gen_range_u64(rng, 1, 5);
        let mut events: Vec<Event> = Vec::new();
        let mut k: u64 = 0;
        while k < count
            invariant
                k <= count <= 4,
                choices_spec(policy.collection).len() == 0 ==> events@.len() == 0,
                choices_spec(policy.collection).len() > 0 ==> events@.len() == k,
                forall|i: int|
                    0 <= i < events@.len() ==> simulated(
                        #[trigger] events@[i],
                        agent_id@,
                        policy.collection,
                    ),
            decreases count - k,
        {
            match generate_event(policy, agent_id, rng) {
                Some(e) => events.push(e),
                None => {},
            }
            k += 1;
        }
        events
    }
}

proof fn lemma_concat_contains(a: Seq<EventChoice>, b: Seq<EventChoice>, x: EventChoice)
    ensures
        (a + b).contains(x) ==> a.contains(x) || b.contains(x),
{
    if (a + b).contains(x) {
        let i = choose|i: int| 0 <= i < (a + b).len() && (a + b)[i] == x;
        if i < a.len() {
            assert(a[i] == x);
        } else {
            assert(b[i - a.len()] == x);
        }
    }
}

proof fn lemma_choice_if_contains(on: bool, c: EventChoice, x: EventChoice)
    ensures
        choice_if(on, c).contains(x) ==> on && c == x,
{
    if choice_if(on, c).contains(x) {
        let i = choose|i: int| 0 <= i < choice_if(on, c).len() && choice_if(on, c)[i] == x;
        assert(i == 0);
    }
}

/// Whether the collection settings allow events of kind `x`.
pub open spec fn choice_allowed(c: PolicyCollection, x: EventChoice) -> bool {
    match x {
        EventChoice::ProcessCreate => c.sysmon_events@.contains(1),
        EventChoice::NetworkConnect => c.sysmon_events@.contains(3),
        EventChoice::DnsQuery => c.sysmon_events@.contains(22),
        EventChoice::AuthEvent => c.security_events@.len() > 0,
        EventChoice::PowerShell => c.powershell_logging,
        EventChoice::DllLoad => c.dll_events_enabled && c.sysmon_events@.contains(7),
        EventChoice::FileEvent => c.file_events.enabled,
    }
}

proof fn lemma_choices_allowed(c: PolicyCollection, x: EventChoice)
    ensures
        choices_spec(c).contains(x) ==> choice_allowed(c, x),
{
    let s1 = choice_if(c.sysmon_events@.contains(1), EventChoice::ProcessCreate);
    let s2 = choice_if(c.sysmon_events@.contains(3), EventChoice::NetworkConnect);
    let s3 = choice_if(c.sysmon_events@.contains(22), EventChoice::DnsQuery);
    let s4 = choice_if(c.security_events@.len() > 0, EventChoice::AuthEvent);
    let s5 = choice_if(c.powershell_logging, EventChoice::PowerShell);
    let s6 = choice_if(c.dll_events_enabled && c.sysmon_events@.contains(7), EventChoice::DllLoad);
    let s7 = choice_if(c.file_events.enabled, EventChoice::FileEvent);
    lemma_concat_contains(s1 + s2 + s3 + s4 + s5 + s6, s7, x);
    lemma_concat_contains(s1 + s2 + s3 + s4 + s5, s6, x);
    lemma_concat_contains(s1 + s2 + s3 + s4, s5, x);
    lemma_concat_contains(s1 + s2 + s3, s4, x);
    lemma_concat_contains(s1 + s2, s3, x);
    lemma_concat_contains(s1, s2, x);
    lemma_choice_if_contains(c.sysmon_events@.contains(1), EventChoice::ProcessCreate, x);
    lemma_choice_if_contains(c.sysmon_events@.contains(3), EventChoice::NetworkConnect, x);
    lemma_choice_if_contains(c.sysmon_events@.contains(22), EventChoice::DnsQuery, x);
    lemma_choice_if_contains(c.security_events@.len() > 0, EventChoice::AuthEvent, x);
    lemma_choice_if_contains(c.powershell_logging, EventChoice::PowerShell, x);
    lemma_choice_if_contains(
        c.dll_events_enabled && c.sysmon_events@.contains(7),
        EventChoice::DllLoad,
        x,
    );
    lemma_choice_if_contains(c.file_events.enabled, EventChoice::FileEvent, x);
}

/// The simulator respects the policy like the real collectors do: every
/// simulated event is of a kind the collection settings allow — DLL loads
/// only when DLL events are enabled and Sysmon 7 is collected, file events
/// only when file events are enabled, PowerShell only with script block
/// logging, logons only when some security event is collected, and process,
/// network and DNS events only when their Sysmon IDs are collected.
pub proof fn law_simulator_respects_policy(e: Event, agent_id: Seq<char>, c: PolicyCollection)
    requires
        simulated(e, agent_id, c),
    ensures
        e.event_type == EventType::Process ==> c.sysmon_events@.contains(1),
        e.event_type == EventType::Network ==> c.sysmon_events@.contains(3),
        e.event_type == EventType::Dns ==> c.sysmon_events@.contains(22),
        e.event_type == EventType::Auth ==> c.security_events@.len() > 0,
        e.event_type == EventType::PowerShell ==> c.powershell_logging,
        e.event_type == EventType::DriverLoad ==> c.dll_events_enabled && c.sysmon_events@.contains(7),
        e.event_type == EventType::FileSystem ==> c.file_events.enabled,
{
    let d = choose|d: SimDraws|
        #![trigger simulated_from(e, d, agent_id)]
        draws_valid(d) && choices_spec(c).contains(choice_of(d)) && simulated_from(e, d, agent_id);
    lemma_choices_allowed(c, choice_of(d));
}

/// A simulated DNS event names its process from the browser/system pool,
/// holds under "query" one of the pool's domain names, and under "result"
/// the dotted-quad text of the drawn address.
pub proof fn law_dns_payload(process: usize, query: usize, result: (u8, u8, u8, u8))
    requires
        draws_valid(SimDraws::DnsQuery { process, query, result }),
    ensures
        ({
            let p = sim_payload(SimDraws::DnsQuery { process, query, result });
            &&& lookup(p, "query"@) matches Some(PayloadValueView::Text(q)) && (q == "google.com"@
                || q == "microsoft.com"@ || q == "windowsupdate.com"@ || q == "github.com"@)
            &&& lookup(p, "result"@) == Some(PayloadValueView::Text(ip_text(result)))
            &&& lookup(p, "process"@) matches Some(PayloadValueView::Text(n)) && (n
                == "chrome.exe"@ || n == "svchost.exe"@ || n == "powershell.exe"@)
        }),
{
    let e = Seq::<(Seq<char>, PayloadValueView)>::empty();
    let pv = txt(net_processes()[process as int]);
    let qv = txt(dns_queries()[query as int]);
    let rv = txt(ip_text(result));
    let p1 = insert_spec(e, "process"@, pv);
    let p2 = insert_spec(p1, "query"@, qv);
    let p3 = insert_spec(p2, "result"@, rv);
    reveal_strlit("process");
    reveal_strlit("query");
    reveal_strlit("result");
    assert("process"@ != "query"@) by {
        assert("process"@.len() != "query"@.len());
    }
    assert("process"@ != "result"@) by {
        assert("process"@[0] != "result"@[0]);
    }
    assert("query"@ != "result"@) by {
        assert("query"@[0] != "result"@[0]);
    }
    lemma_insert_then_lookup(e, p1, "process"@, pv, "query"@);
    lemma_insert_then_lookup(p1, p2, "query"@, qv, "process"@);
    lemma_insert_then_lookup(p2, p3, "result"@, rv, "query"@);
    lemma_insert_then_lookup(p2, p3, "result"@, rv, "process"@);
    assert(p3 == sim_payload(SimDraws::DnsQuery { process, query, result }));
}

} // verus!
