//! Local risk classification and invariant detection (Local Processing).
//!
//! The classifier reads the parsed Sysmon/Security payload fields and attaches
//! qualitative risk flags, a coarse 0..=100 score, and an invariant violation
//! for always-bad behaviours (LSASS access, unsigned drivers, credential
//! dumping, remote-thread injection). It never clears what is already there.
use vstd::prelude::*;

use crate::event::{
    opt_text, payload_number, payload_text, Event, EventType, Payload, PayloadValueView,
};
use crate::policy::PolicyInvariants;
use crate::text::{
    ascii_lower, chars_of, contains_str, ends_with_str, eq_ignore_ascii_case, has_prefix,
    has_substring, has_suffix, occurs_at, owned, starts_with_str, str_equal, to_ascii_lowercase,
    to_lowercase,
    unicode_lower,
};

verus! {

/// Risk indicators attached by the local classifier.
#[derive(Clone, Copy, Debug, PartialEq, Eq, Structural)]
pub enum RiskFlag {
    UnsignedExecutable,
    EncodedCommandLine,
    LongCommandLine,
    SuspiciousArguments,
    ExecutableInTemp,
    PathUserWritable,
    PathNotStandard,
    RarePort,
}

/// The weight a flag contributes to the risk score.
pub open spec fn weight_spec(f: RiskFlag) -> int {
    match f {
        RiskFlag::UnsignedExecutable => 25,
        RiskFlag::EncodedCommandLine => 35,
        RiskFlag::LongCommandLine => 10,
        RiskFlag::SuspiciousArguments => 30,
        RiskFlag::ExecutableInTemp => 30,
        RiskFlag::PathUserWritable => 15,
        RiskFlag::PathNotStandard => 15,
        RiskFlag::RarePort => 20,
    }
}

impl RiskFlag {
    /// Weight contributed to `risk_score`. The sum is clamped to 100.
    fn weight(self) -> (w: u8)
        ensures
            w == weight_spec(self),
    {
        match self {
            RiskFlag::UnsignedExecutable => 25,
            RiskFlag::EncodedCommandLine => 35,
            RiskFlag::LongCommandLine => 10,
            RiskFlag::SuspiciousArguments => 30,
            RiskFlag::ExecutableInTemp => 30,
            RiskFlag::PathUserWritable => 15,
            RiskFlag::PathNotStandard => 15,
            RiskFlag::RarePort => 20,
        }
    }
}

/// Hard-rule violations: behaviours that are "always bad" by policy.
#[derive(Clone, Debug)]
pub enum InvariantViolation {
    LsassAccess { source_process: String, access_mask: String },
    UnsignedDriver { driver_path: String },
    CredentialDumping { process: String, target: String, technique: String },
    ProcessInjection { source_process: String, target_process: String, technique: String },
}

/// The content of a violation.
pub enum ViolationView {
    LsassAccess { source_process: Seq<char>, access_mask: Seq<char> },
    UnsignedDriver { driver_path: Seq<char> },
    CredentialDumping { process: Seq<char>, target: Seq<char>, technique: Seq<char> },
    ProcessInjection { source_process: Seq<char>, target_process: Seq<char>, technique: Seq<char> },
}

impl View for InvariantViolation {
    type V = ViolationView;

    open spec fn view(&self) -> ViolationView {
        match self {
            InvariantViolation::LsassAccess { source_process, access_mask } =>
                ViolationView::LsassAccess {
                source_process: source_process@,
                access_mask: access_mask@,
            },
            InvariantViolation::UnsignedDriver { driver_path } => ViolationView::UnsignedDriver {
                driver_path: driver_path@,
            },
            InvariantViolation::CredentialDumping { process, target, technique } =>
                ViolationView::CredentialDumping {
                process: process@,
                target: target@,
                technique: technique@,
            },
            InvariantViolation::ProcessInjection { source_process, target_process, technique } =>
                ViolationView::ProcessInjection {
                source_process: source_process@,
                target_process: target_process@,
                technique: technique@,
            },
        }
    }
}

/// The view of an optional violation.
pub open spec fn opt_violation(v: Option<InvariantViolation>) -> Option<ViolationView> {
    match v {
        Some(x) => Some(x@),
        None => None,
    }
}

// ---------------------------------------------------------------------------
// What the classifier decides, stated over the payload
// ---------------------------------------------------------------------------

/// `-EncodedCommand` / `-enc` / inline FromBase64String invocations, on a
/// lower-cased command line.
pub open spec fn encoded_powershell_spec(lc: Seq<char>) -> bool {
    ||| has_substring(lc, " -enc "@)
    ||| has_substring(lc, " -encodedcommand"@)
    ||| has_substring(lc, " -e "@)
    ||| has_substring(lc, "frombase64string"@)
}

/// Known living-off-the-land / loader patterns, on a lower-cased command line.
pub open spec fn suspicious_arguments_spec(lc: Seq<char>) -> bool {
    ||| has_substring(lc, "invoke-expression"@)
    ||| has_substring(lc, "iex("@)
    ||| has_substring(lc, "iex ("@)
    ||| has_substring(lc, "downloadstring"@)
    ||| has_substring(lc, "downloadfile"@)
    ||| has_substring(lc, "-nop "@)
    ||| has_substring(lc, "-noprofile "@)
    ||| has_substring(lc, "-windowstyle hidden"@)
    ||| has_substring(lc, "-w hidden"@)
    ||| has_substring(lc, "bypass"@)
    ||| has_substring(lc, "-exec bypass"@)
    ||| has_substring(lc, "mimikatz"@)
    ||| has_substring(lc, "rundll32"@)
    ||| has_substring(lc, "regsvr32 /s /n /u /i:http"@)
    ||| has_substring(lc, "certutil -urlcache"@)
    ||| has_substring(lc, "certutil -decode"@)
    ||| has_substring(lc, "bitsadmin /transfer"@)
}

/// The image lives under the user profile tree.
pub open spec fn user_writable_spec(lc: Seq<char>) -> bool {
    has_prefix(lc, "c:\\users\\"@)
}

/// An executable under a temp directory.
pub open spec fn temp_executable_spec(lc: Seq<char>) -> bool {
    &&& (has_substring(lc, "\\temp\\"@) || has_substring(lc, "\\appdata\\local\\temp\\"@))
    &&& has_suffix(lc, ".exe"@)
}

/// An executable outside the standard install locations (and not in temp,
/// which `temp_executable_spec` already covers).
pub open spec fn nonstandard_path_spec(lc: Seq<char>) -> bool {
    &&& has_suffix(lc, ".exe"@)
    &&& !has_prefix(lc, "c:\\windows\\system32\\"@)
    &&& !has_prefix(lc, "c:\\windows\\syswow64\\"@)
    &&& !has_prefix(lc, "c:\\windows\\winsxs\\"@)
    &&& !has_prefix(lc, "c:\\program files\\"@)
    &&& !has_prefix(lc, "c:\\program files (x86)\\"@)
    &&& !has_prefix(lc, "c:\\programdata\\"@)
    &&& !temp_executable_spec(lc)
}

/// The payload explicitly says the binary is unsigned.
pub open spec fn unsigned_spec(p: Seq<(Seq<char>, PayloadValueView)>) -> bool {
    ||| ascii_lower(payload_text(p, "Signed"@)) == "false"@
    ||| ascii_lower(payload_text(p, "Signature"@)) == "(unsigned)"@
    ||| ascii_lower(payload_text(p, "Signature"@)) == "unsigned"@
}

/// Ports that are not flagged as rare.
pub open spec fn common_ports() -> Seq<u16> {
    seq![
        20u16, 21, 22, 23, 25, 53, 67, 68, 80, 110, 123, 137, 138, 139, 143, 161, 162, 389, 443,
        445, 465, 514, 587, 636, 853, 989, 990, 993, 995, 1433, 1521, 1701, 1723, 3306, 3389,
        5060, 5061, 5432, 5985, 5986, 8080, 8443,
    ]
}

pub open spec fn rare_port_spec(port: u16) -> bool {
    !common_ports().contains(port)
}

/// A single flag when `cond` holds.
pub open spec fn flag_if(cond: bool, f: RiskFlag) -> Seq<RiskFlag> {
    if cond {
        seq![f]
    } else {
        Seq::empty()
    }
}

/// The flags for a command line, an image path, the signature state and the
/// destination port of a network event (already narrowed to 16 bits).
pub open spec fn risk_flags_spec(
    cmdline: Seq<char>,
    cmdline_lc: Seq<char>,
    image: Seq<char>,
    image_lc: Seq<char>,
    unsigned: bool,
    network_port: Option<u16>,
) -> Seq<RiskFlag> {
    let has_cmd = cmdline.len() > 0;
    let has_img = image.len() > 0;
    flag_if(has_cmd && cmdline.len() > 1000, RiskFlag::LongCommandLine) + flag_if(
        has_cmd && encoded_powershell_spec(cmdline_lc),
        RiskFlag::EncodedCommandLine,
    ) + flag_if(has_cmd && suspicious_arguments_spec(cmdline_lc), RiskFlag::SuspiciousArguments)
        + flag_if(has_img && user_writable_spec(image_lc), RiskFlag::PathUserWritable) + flag_if(
        has_img && temp_executable_spec(image_lc),
        RiskFlag::ExecutableInTemp,
    ) + flag_if(has_img && nonstandard_path_spec(image_lc), RiskFlag::PathNotStandard) + flag_if(
        unsigned,
        RiskFlag::UnsignedExecutable,
    ) + flag_if(
        match network_port {
            Some(port) => rare_port_spec(port),
            None => false,
        },
        RiskFlag::RarePort,
    )
}

/// The destination port a network event is judged by: the payload number
/// narrowed to 16 bits, as an `as u16` cast does.
pub open spec fn network_port_spec(event_type: EventType, p: Seq<(Seq<char>, PayloadValueView)>) -> Option<
    u16,
> {
    if event_type == EventType::Network {
        match payload_number(p, "DestinationPort"@) {
            Some(n) => Some((n % 65536) as u16),
            None => None,
        }
    } else {
        None
    }
}

/// The flags the classifier detects on an event.
pub open spec fn detected_flags(event_type: EventType, p: Seq<(Seq<char>, PayloadValueView)>) -> Seq<
    RiskFlag,
> {
    let cmdline = payload_text(p, "CommandLine"@);
    let image = payload_text(p, "Image"@);
    risk_flags_spec(
        cmdline,
        unicode_lower(cmdline),
        image,
        unicode_lower(image),
        unsigned_spec(p),
        network_port_spec(event_type, p),
    )
}

/// The LSASS handle-access rule.
pub open spec fn lsass_violation_spec(p: Seq<(Seq<char>, PayloadValueView)>) -> Option<ViolationView> {
    let target_lc = ascii_lower(payload_text(p, "TargetImage"@));
    let access = payload_text(p, "GrantedAccess"@);
    let access_lc = ascii_lower(access);
    let source = payload_text(p, "SourceImage"@);
    let source_lc = ascii_lower(source);
    let dangerous = has_substring(access_lc, "0x10"@) || has_substring(access_lc, "0x40"@)
        || has_substring(access_lc, "0x1410"@) || has_substring(access_lc, "0x1010"@)
        || has_substring(access_lc, "0x1fffff"@);
    if !has_suffix(target_lc, "\\lsass.exe"@) {
        None
    } else if !dangerous {
        None
    } else if has_suffix(source_lc, "\\wininit.exe"@) || has_suffix(source_lc, "\\csrss.exe"@) {
        None
    } else {
        Some(ViolationView::LsassAccess { source_process: source, access_mask: access })
    }
}

/// The credential-dumping technique a process-create event shows, if any.
pub open spec fn dumping_technique_spec(cmd_lc: Seq<char>, image_lc: Seq<char>) -> Option<Seq<char>> {
    if has_substring(cmd_lc, "mimikatz"@) || has_suffix(image_lc, "\\mimikatz.exe"@) {
        Some("mimikatz"@)
    } else if has_substring(cmd_lc, "procdump"@) && has_substring(cmd_lc, "lsass"@) {
        Some("procdump_lsass"@)
    } else if has_substring(cmd_lc, "comsvcs.dll"@) && has_substring(cmd_lc, "minidump"@) {
        Some("comsvcs_minidump"@)
    } else if has_substring(cmd_lc, "rundll32"@) && has_substring(cmd_lc, "lsass"@) {
        Some("rundll32_lsass"@)
    } else {
        None
    }
}

/// The invariant an event violates, given the rules in force.
pub open spec fn violation_spec(
    event_id: Option<u32>,
    p: Seq<(Seq<char>, PayloadValueView)>,
    rules: PolicyInvariants,
) -> Option<ViolationView> {
    match event_id {
        None => None,
        Some(eid) => {
            if eid == 10 && rules.lsass_access.enabled {
                lsass_violation_spec(p)
            } else if eid == 6 && rules.unsigned_drivers.enabled && unsigned_spec(p) {
                Some(ViolationView::UnsignedDriver { driver_path: payload_text(p, "ImageLoaded"@) })
            } else if eid == 1 && rules.credential_dumping.enabled {
                let image = payload_text(p, "Image"@);
                match dumping_technique_spec(
                    ascii_lower(payload_text(p, "CommandLine"@)),
                    ascii_lower(image),
                ) {
                    Some(t) => Some(
                        ViolationView::CredentialDumping {
                            process: image,
                            target: "lsass.exe"@,
                            technique: t,
                        },
                    ),
                    None => None,
                }
            } else if eid == 8 && rules.lsass_access.enabled {
                let source = payload_text(p, "SourceImage"@);
                let target = payload_text(p, "TargetImage"@);
                if ascii_lower(source) == ascii_lower(target) {
                    None
                } else {
                    Some(
                        ViolationView::ProcessInjection {
                            source_process: source,
                            target_process: target,
                            technique: "create_remote_thread"@,
                        },
                    )
                }
            } else {
                None
            }
        },
    }
}

/// The sum of the weights of `flags`.
pub open spec fn weight_sum(flags: Seq<RiskFlag>) -> int
    decreases flags.len(),
{
    if flags.len() == 0 {
        0
    } else {
        weight_sum(flags.drop_last()) + weight_spec(flags.last())
    }
}

/// `existing` with each of `added` appended unless already present.
pub open spec fn merge_flags(existing: Seq<RiskFlag>, added: Seq<RiskFlag>) -> Seq<RiskFlag>
    decreases added.len(),
{
    if added.len() == 0 {
        existing
    } else {
        let next = if existing.contains(added[0]) {
            existing
        } else {
            existing.push(added[0])
        };
        merge_flags(next, added.drop_first())
    }
}

/// The score after classification.
pub open spec fn classified_score(
    old_score: u8,
    flags: Seq<RiskFlag>,
    violation: Option<ViolationView>,
) -> int {
    if violation is Some {
        100
    } else if flags.len() > 0 {
        let s = old_score + weight_sum(flags);
        if s > 100 {
            100
        } else {
            s
        }
    } else {
        old_score as int
    }
}

// ---------------------------------------------------------------------------
// Executable detection
// ---------------------------------------------------------------------------

fn has_encoded_powershell(lc: &[char]) -> (r: bool)
    ensures
        r == encoded_powershell_spec(lc@),
{
    contains_str(lc, " -enc ") || contains_str(lc, " -encodedcommand") || contains_str(lc, " -e ")
        || contains_str(lc, "frombase64string")
}

fn has_suspicious_arguments(lc: &[char]) -> (r: bool)
    ensures
        r == suspicious_arguments_spec(lc@),
{
    contains_str(lc, "invoke-expression") || contains_str(lc, "iex(") || contains_str(lc, "iex (")
        || contains_str(lc, "downloadstring") || contains_str(lc, "downloadfile")
        || contains_str(lc, "-nop ") || contains_str(lc, "-noprofile ") || contains_str(
        lc,
        "-windowstyle hidden",
    ) || contains_str(lc, "-w hidden") || contains_str(lc, "bypass") || contains_str(
        lc,
        "-exec bypass",
    ) || contains_str(lc, "mimikatz") || contains_str(lc, "rundll32") || contains_str(
        lc,
        "regsvr32 /s /n /u /i:http",
    ) || contains_str(lc, "certutil -urlcache") || contains_str(lc, "certutil -decode")
        || contains_str(lc, "bitsadmin /transfer")
}

fn is_user_writable_path(lc: &[char]) -> (r: bool)
    ensures
        r == user_writable_spec(lc@),
{
    starts_with_str(lc, "c:\\users\\")
}

fn is_temp_executable(lc: &[char]) -> (r: bool)
    ensures
        r == temp_executable_spec(lc@),
{
    (contains_str(lc, "\\temp\\") || contains_str(lc, "\\appdata\\local\\temp\\")) && ends_with_str(
        lc,
        ".exe",
    )
}

fn is_nonstandard_path(lc: &[char]) -> (r: bool)
    ensures
        r == nonstandard_path_spec(lc@),
{
    if !ends_with_str(lc, ".exe") {
        return false;
    }
    let standard = starts_with_str(lc, "c:\\windows\\system32\\") || starts_with_str(
        lc,
        "c:\\windows\\syswow64\\",
    ) || starts_with_str(lc, "c:\\windows\\winsxs\\") || starts_with_str(lc, "c:\\program files\\")
        || starts_with_str(lc, "c:\\program files (x86)\\") || starts_with_str(
        lc,
        "c:\\programdata\\",
    );
    !standard && !is_temp_executable(lc)
}

fn is_unsigned(payload: &Payload) -> (r: bool)
    ensures
        r == unsigned_spec(payload@),
{
    let signed = to_ascii_lowercase(payload.text("Signed").as_str());
    if str_equal(signed.as_str(), "false") {
        return true;
    }
    let signature = to_ascii_lowercase(payload.text("Signature").as_str());
    str_equal(signature.as_str(), "(unsigned)") || str_equal(signature.as_str(), "unsigned")
}

fn is_rare_port(port: u16) -> (r: bool)
    ensures
        r == rare_port_spec(port),
{
    let common: [u16; 42] = [
        20, 21, 22, 23, 25, 53, 67, 68, 80, 110, 123, 137, 138, 139, 143, 161, 162, 389, 443, 445,
        465, 514, 587, 636, 853, 989, 990, 993, 995, 1433, 1521, 1701, 1723, 3306, 3389, 5060,
        5061, 5432, 5985, 5986, 8080, 8443,
    ];
    assert(common@ =~= common_ports());
    let mut i: usize = 0;
    while i < 42
        invariant
            i <= 42,
            common@ == common_ports(),
            forall|j: int| 0 <= j < i ==> common_ports()[j] != port,
        decreases 42 - i,
    {
        if common[i] == port {
            assert(common_ports()[i as int] == port);
            return false;
        }
        i += 1;
    }
    true
}

/// The flags for the given command line, image path, signature state and
/// (16-bit) network destination port, with the lower-cased forms supplied.
#[verifier::spinoff_prover]
#[verifier::rlimit(40)]
pub fn risk_flags_for(
    cmdline: &str,
    cmdline_lc: &str,
    image: &str,
    image_lc: &str,
    unsigned: bool,
    network_port: Option<u16>,
) -> (flags: Vec<RiskFlag>)
    ensures
        flags@ == risk_flags_spec(cmdline@, cmdline_lc@, image@, image_lc@, unsigned, network_port),
{
    let cmd = chars_of(cmdline);
    let cmd_lc = chars_of(cmdline_lc);
    let img = chars_of(image);
    let img_lc = chars_of(image_lc);
    let has_cmd = cmd.len() > 0;
    let has_img = img.len() > 0;
    let mut flags: Vec<RiskFlag> = Vec::new();
    let ghost s0 = flags@;
    if has_cmd && cmd.len() > 1000 {
        flags.push(RiskFlag::LongCommandLine);
    }
    let ghost s1 = flags@;
    assert(s1 =~= flag_if(has_cmd && cmd@.len() > 1000, RiskFlag::LongCommandLine));
    if has_cmd && has_encoded_powershell(cmd_lc.as_slice()) {
        flags.push(RiskFlag::EncodedCommandLine);
    }
    let ghost s2 = flags@;
    assert(s2 =~= s1 + flag_if(
        has_cmd && encoded_powershell_spec(cmdline_lc@),
        RiskFlag::EncodedCommandLine,
    ));
    if has_cmd && has_suspicious_arguments(cmd_lc.as_slice()) {
        flags.push(RiskFlag::SuspiciousArguments);
    }
    let ghost s3 = flags@;
    assert(s3 =~= s2 + flag_if(
        has_cmd && suspicious_arguments_spec(cmdline_lc@),
        RiskFlag::SuspiciousArguments,
    ));
    if has_img && is_user_writable_path(img_lc.as_slice()) {
        flags.push(RiskFlag::PathUserWritable);
    }
    let ghost s4 = flags@;
    assert(s4 =~= s3 + flag_if(has_img && user_writable_spec(image_lc@), RiskFlag::PathUserWritable));
    if has_img && is_temp_executable(img_lc.as_slice()) {
        flags.push(RiskFlag::ExecutableInTemp);
    }
    let ghost s5 = flags@;
    assert(s5 =~= s4 + flag_if(
        has_img && temp_executable_spec(image_lc@),
        RiskFlag::ExecutableInTemp,
    ));
    if has_img && is_nonstandard_path(img_lc.as_slice()) {
        flags.push(RiskFlag::PathNotStandard);
    }
    let ghost s6 = flags@;
    assert(s6 =~= s5 + flag_if(
        has_img && nonstandard_path_spec(image_lc@),
        RiskFlag::PathNotStandard,
    ));
    if unsigned {
        flags.push(RiskFlag::UnsignedExecutable);
    }
    let ghost s7 = flags@;
    assert(s7 =~= s6 + flag_if(unsigned, RiskFlag::UnsignedExecutable));
    let rare = match network_port {
        Some(port) => is_rare_port(port),
        None => false,
    };
    if rare {
        flags.push(RiskFlag::RarePort);
    }
    assert(flags@ =~= s7 + flag_if(rare, RiskFlag::RarePort));
    flags
}

fn detect_risk_flags(event: &Event) -> (flags: Vec<RiskFlag>)
    ensures
        flags@ == detected_flags(event.event_type, event.payload@),
{
    let cmdline = event.payload.text("CommandLine");
    let image = event.payload.text("Image");
    let cmdline_lc = to_lowercase(cmdline.as_str());
    let image_lc = to_lowercase(image.as_str());
    let unsigned = is_unsigned(&event.payload);
    let port: Option<u16> = if event.event_type == EventType::Network {
        match event.payload.number("DestinationPort") {
            Some(n) => Some((n % 65536) as u16),
            None => None,
        }
    } else {
        None
    };
    risk_flags_for(
        cmdline.as_str(),
        cmdline_lc.as_str(),
        image.as_str(),
        image_lc.as_str(),
        unsigned,
        port,
    )
}

fn lsass_violation(payload: &Payload) -> (r: Option<InvariantViolation>)
    ensures
        opt_violation(r) == lsass_violation_spec(payload@),
{
    let target = to_ascii_lowercase(payload.text("TargetImage").as_str());
    let target_c = chars_of(target.as_str());
    if !ends_with_str(target_c.as_slice(), "\\lsass.exe") {
        return None;
    }
    let access = payload.text("GrantedAccess");
    let access_lc = to_ascii_lowercase(access.as_str());
    let a = chars_of(access_lc.as_str());
    let dangerous = contains_str(a.as_slice(), "0x10") || contains_str(a.as_slice(), "0x40")
        || contains_str(a.as_slice(), "0x1410") || contains_str(a.as_slice(), "0x1010")
        || contains_str(a.as_slice(), "0x1fffff");
    if !dangerous {
        return None;
    }
    let source = payload.text("SourceImage");
    let source_lc = to_ascii_lowercase(source.as_str());
    let s = chars_of(source_lc.as_str());
    if ends_with_str(s.as_slice(), "\\wininit.exe") || ends_with_str(s.as_slice(), "\\csrss.exe") {
        return None;
    }
    Some(InvariantViolation::LsassAccess { source_process: source, access_mask: access })
}

fn dumping_technique(cmd_lc: &[char], image_lc: &[char]) -> (r: Option<String>)
    ensures
        opt_text(r) == dumping_technique_spec(cmd_lc@, image_lc@),
{
    if contains_str(cmd_lc, "mimikatz") || ends_with_str(image_lc, "\\mimikatz.exe") {
        Some(owned("mimikatz"))
    } else if contains_str(cmd_lc, "procdump") && contains_str(cmd_lc, "lsass") {
        Some(owned("procdump_lsass"))
    } else if contains_str(cmd_lc, "comsvcs.dll") && contains_str(cmd_lc, "minidump") {
        Some(owned("comsvcs_minidump"))
    } else if contains_str(cmd_lc, "rundll32") && contains_str(cmd_lc, "lsass") {
        Some(owned("rundll32_lsass"))
    } else {
        None
    }
}

fn detect_invariant(event: &Event, invariants: &PolicyInvariants) -> (r: Option<
    InvariantViolation,
>)
    ensures
        opt_violation(r) == violation_spec(event.event_id, event.payload@, *invariants),
{
    let eid = match event.event_id {
        Some(e) => e,
        None => return None,
    };
    let payload = &event.payload;
    if eid == 10 && invariants.lsass_access.enabled {
        lsass_violation(payload)
    } else if eid == 6 && invariants.unsigned_drivers.enabled && is_unsigned(payload) {
        Some(InvariantViolation::UnsignedDriver { driver_path: payload.text("ImageLoaded") })
    } else if eid == 1 && invariants.credential_dumping.enabled {
        let cmdline = to_ascii_lowercase(payload.text("CommandLine").as_str());
        let image = payload.text("Image");
        let image_lc = to_ascii_lowercase(image.as_str());
        let c = chars_of(cmdline.as_str());
        let i = chars_of(image_lc.as_str());
        match dumping_technique(c.as_slice(), i.as_slice()) {
            Some(t) => Some(
                InvariantViolation::CredentialDumping {
                    process: image,
                    target: owned("lsass.exe"),
                    technique: t,
                },
            ),
            None => None,
        }
    } else if eid == 8 && invariants.lsass_access.enabled {
        let source = payload.text("SourceImage");
        let target = payload.text("TargetImage");
        if eq_ignore_ascii_case(source.as_str(), target.as_str()) {
            None
        } else {
            Some(
                InvariantViolation::ProcessInjection {
                    source_process: source,
                    target_process: target,
                    technique: owned("create_remote_thread"),
                },
            )
        }
    } else {
        None
    }
}

/// Every flag weighs at most 35.
proof fn lemma_weight_sum_bound(flags: Seq<RiskFlag>)
    ensures
        0 <= weight_sum(flags) <= 35 * flags.len(),
    decreases flags.len(),
{
    if flags.len() > 0 {
        lemma_weight_sum_bound(flags.drop_last());
    }
}

/// At most eight flags are ever detected.
proof fn lemma_flags_len(
    cmdline: Seq<char>,
    cmdline_lc: Seq<char>,
    image: Seq<char>,
    image_lc: Seq<char>,
    unsigned: bool,
    network_port: Option<u16>,
)
    ensures
        risk_flags_spec(cmdline, cmdline_lc, image, image_lc, unsigned, network_port).len() <= 8,
{
}

fn contains_flag(flags: &Vec<RiskFlag>, f: RiskFlag) -> (r: bool)
    ensures
        r == flags@.contains(f),
{
    let mut i: usize = 0;
    while i < flags.len()
        invariant
            i <= flags@.len(),
            forall|j: int| 0 <= j < i ==> flags@[j] != f,
        decreases flags@.len() - i,
    {
        if flags[i] == f {
            return true;
        }
        i += 1;
    }
    false
}

/// Run the classifier against an event, populating its `risk_flags`,
/// `risk_score`, and `invariant_violation` fields. Existing values are
/// preserved (the classifier only adds, never clears).
pub fn classify(event: &mut Event, invariants: &PolicyInvariants)
    ensures
        ({
            let flags = detected_flags(old(event).event_type, old(event).payload@);
            let violation = violation_spec(old(event).event_id, old(event).payload@, *invariants);
            &&& final(event).risk_flags@ == merge_flags(old(event).risk_flags@, flags)
            &&& final(event).risk_score == classified_score(old(event).risk_score, flags, violation)
            &&& opt_violation(final(event).invariant_violation) == if violation is Some {
                violation
            } else {
                opt_violation(old(event).invariant_violation)
            }
        }),
        final(event).agent_id == old(event).agent_id,
        final(event).event_type == old(event).event_type,
        final(event).source == old(event).source,
        final(event).event_id == old(event).event_id,
        final(event).payload == old(event).payload,
        final(event).host == old(event).host,
        final(event).user == old(event).user,
        final(event).process == old(event).process,
        final(event).parent_process == old(event).parent_process,
        final(event).file == old(event).file,
        final(event).network == old(event).network,
        final(event).dns == old(event).dns,
{
    let flags = detect_risk_flags(event);
    let violation = detect_invariant(event, invariants);
    let ghost old_flags = event.risk_flags@;

    if flags.len() > 0 {
        proof {
            lemma_weight_sum_bound(flags@);
            let cmdline = payload_text(event.payload@, "CommandLine"@);
            let image = payload_text(event.payload@, "Image"@);
            lemma_flags_len(
                cmdline,
                unicode_lower(cmdline),
                image,
                unicode_lower(image),
                unsigned_spec(event.payload@),
                network_port_spec(event.event_type, event.payload@),
            );
        }
        let mut score: u32 = event.risk_score as u32;
        let mut i: usize = 0;
        while i < flags.len()
            invariant
                i <= flags@.len(),
                flags@.len() <= 8,
                score == event.risk_score + weight_sum(flags@.take(i as int)),
                0 <= weight_sum(flags@.take(i as int)) <= 35 * i,
            decreases flags@.len() - i,
        {
            assert(flags@.take(i + 1).drop_last() =~= flags@.take(i as int));
            proof {
                lemma_weight_sum_bound(flags@.take(i + 1));
            }
            score = score + flags[i].weight() as u32;
            i += 1;
        }
        assert(flags@.take(flags@.len() as int) =~= flags@);
        event.risk_score = if score > 100 {
            100
        } else {
            score as u8
        };
        let mut k: usize = 0;
        assert(flags@.skip(0) =~= flags@);
        let ghost score_now = event.risk_score;
        while k < flags.len()
            invariant
                k <= flags@.len(),
                event.risk_score == score_now,
                event.invariant_violation == old(event).invariant_violation,
                event.agent_id == old(event).agent_id,
                event.event_type == old(event).event_type,
                event.source == old(event).source,
                event.event_id == old(event).event_id,
                event.payload == old(event).payload,
                event.host == old(event).host,
                event.user == old(event).user,
                event.process == old(event).process,
                event.parent_process == old(event).parent_process,
                event.file == old(event).file,
                event.network == old(event).network,
                event.dns == old(event).dns,
                merge_flags(old_flags, flags@) == merge_flags(
                    event.risk_flags@,
                    flags@.skip(k as int),
                ),
            decreases flags@.len() - k,
        {
            let f = flags[k];
            assert(flags@.skip(k as int).drop_first() =~= flags@.skip(k + 1));
            if !contains_flag(&event.risk_flags, f) {
                event.risk_flags.push(f);
            }
            k += 1;
        }
        assert(flags@.skip(k as int) =~= Seq::<RiskFlag>::empty());
    }
    if let Some(v) = violation {
        event.risk_score = 100;
        event.invariant_violation = Some(v);
    }
}


// ---------------------------------------------------------------------------
// Laws of the classifier
// ---------------------------------------------------------------------------

/// Classification only adds flags: the flags an event already carried stay,
/// in order, at the front of the list.
pub proof fn law_existing_flags_kept(existing: Seq<RiskFlag>, added: Seq<RiskFlag>)
    ensures
        merge_flags(existing, added).len() >= existing.len(),
        merge_flags(existing, added).subrange(0, existing.len() as int) == existing,
    decreases added.len(),
{
    if added.len() > 0 {
        let next = if existing.contains(added[0]) {
            existing
        } else {
            existing.push(added[0])
        };
        law_existing_flags_kept(next, added.drop_first());
        assert(next.subrange(0, existing.len() as int) =~= existing);
        assert(merge_flags(existing, added).subrange(0, existing.len() as int) =~= merge_flags(
            next,
            added.drop_first(),
        ).subrange(0, next.len() as int).subrange(0, existing.len() as int));
    }
}

/// Every detected flag ends up on the event.
pub proof fn law_detected_flags_present(existing: Seq<RiskFlag>, added: Seq<RiskFlag>, f: RiskFlag)
    requires
        added.contains(f) || existing.contains(f),
    ensures
        merge_flags(existing, added).contains(f),
    decreases added.len(),
{
    if added.len() > 0 {
        let next = if existing.contains(added[0]) {
            existing
        } else {
            existing.push(added[0])
        };
        if existing.contains(f) {
            let i = choose|i: int| 0 <= i < existing.len() && existing[i] == f;
            assert(next[i] == f);
        } else if added[0] == f {
            if !existing.contains(added[0]) {
                assert(next[existing.len() as int] == f);
            }
        } else {
            let i = choose|i: int| 0 <= i < added.len() && added[i] == f;
            assert(added.drop_first()[i - 1] == f);
        }
        law_detected_flags_present(next, added.drop_first(), f);
    }
}

/// Merging adds nothing already present: a list with no repeats keeps none.
pub proof fn lemma_merge_no_new_when_present(existing: Seq<RiskFlag>, added: Seq<RiskFlag>)
    requires
        forall|i: int| 0 <= i < added.len() ==> existing.contains(#[trigger] added[i]),
    ensures
        merge_flags(existing, added) == existing,
    decreases added.len(),
{
    if added.len() > 0 {
        assert(existing.contains(added[0]));
        assert forall|i: int| 0 <= i < added.drop_first().len() implies existing.contains(
            #[trigger] added.drop_first()[i],
        ) by {
            assert(added.drop_first()[i] == added[i + 1]);
        }
        lemma_merge_no_new_when_present(existing, added.drop_first());
    }
}

/// Classifying an event a second time adds no further flags.
pub proof fn law_flags_idempotent(existing: Seq<RiskFlag>, added: Seq<RiskFlag>)
    ensures
        merge_flags(merge_flags(existing, added), added) == merge_flags(existing, added),
{
    let once = merge_flags(existing, added);
    assert forall|i: int| 0 <= i < added.len() implies once.contains(#[trigger] added[i]) by {
        assert(added.contains(added[i]));
        law_detected_flags_present(existing, added, added[i]);
    }
    lemma_merge_no_new_when_present(once, added);
}

/// Whenever the classifier touches the score (a flag was detected or an
/// invariant fired) the score lies in 0..=100.
pub proof fn law_score_bounded(old_score: u8, flags: Seq<RiskFlag>, violation: Option<ViolationView>)
    requires
        flags.len() > 0 || violation is Some,
    ensures
        0 <= classified_score(old_score, flags, violation) <= 100,
{
    lemma_weight_sum_bound(flags);
}

/// An invariant violation pins the score at 100.
pub proof fn law_violation_pins_score(
    old_score: u8,
    flags: Seq<RiskFlag>,
    violation: Option<ViolationView>,
)
    requires
        violation is Some,
    ensures
        classified_score(old_score, flags, violation) == 100,
{
}

/// With every hard rule switched off no invariant fires.
pub proof fn law_disabled_rules_never_fire(
    event_id: Option<u32>,
    p: Seq<(Seq<char>, PayloadValueView)>,
    rules: PolicyInvariants,
)
    requires
        !rules.lsass_access.enabled,
        !rules.unsigned_drivers.enabled,
        !rules.credential_dumping.enabled,
    ensures
        violation_spec(event_id, p, rules) is None,
{
}

/// Credential dumping with procdump: with the credential-dumping rule on, a
/// process-creation event (ID 1) whose lower-cased command line contains
/// "procdump" and "lsass", each anywhere, is a credential-dumping violation
/// of lsass.exe by the event's image with technique "procdump_lsass" — as
/// long as it is no mimikatz case (no "mimikatz" in the command line, an
/// image not ending in \mimikatz.exe).
pub proof fn law_procdump_lsass_detected(
    p: Seq<(Seq<char>, PayloadValueView)>,
    rules: PolicyInvariants,
    i: int,
    j: int,
)
    requires
        rules.credential_dumping.enabled,
        occurs_at(ascii_lower(payload_text(p, "CommandLine"@)), "procdump"@, i),
        occurs_at(ascii_lower(payload_text(p, "CommandLine"@)), "lsass"@, j),
        !has_substring(ascii_lower(payload_text(p, "CommandLine"@)), "mimikatz"@),
        !has_suffix(ascii_lower(payload_text(p, "Image"@)), "\\mimikatz.exe"@),
    ensures
        violation_spec(Some(1u32), p, rules) == Some(
            ViolationView::CredentialDumping {
                process: payload_text(p, "Image"@),
                target: "lsass.exe"@,
                technique: "procdump_lsass"@,
            },
        ),
{
    let cmd = ascii_lower(payload_text(p, "CommandLine"@));
    assert(has_substring(cmd, "procdump"@));
    assert(has_substring(cmd, "lsass"@));
}

} // verus!
