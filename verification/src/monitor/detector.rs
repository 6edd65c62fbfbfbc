//! The rules of the monitor.

use crate::analyzer::operators::lemma_contains_text;
use crate::common::Severity;
use crate::monitor::events::{alert_views, Alert, AlertView, Event};
use crate::number::{decimal, to_decimal};
use crate::text::{contains, contains_text, ends_with, same_text, starts_with};
use crate::time::Timestamp;
use vstd::prelude::*;

verus! {

/// What a rule has to say of an event.
#[derive(Debug, Clone)]
pub struct Finding {
    pub rule: String,
    pub severity: Severity,
    pub message: String,
}

/// What a finding holds.
#[verifier::ext_equal]
pub struct FindingView {
    pub rule: Seq<char>,
    pub severity: Severity,
    pub message: Seq<char>,
}

impl View for Finding {
    type V = FindingView;

    open spec fn view(&self) -> FindingView {
        FindingView { rule: self.rule@, severity: self.severity, message: self.message@ }
    }
}

/// What a rule says, by what the finding holds.
pub open spec fn found(finding: Option<Finding>) -> Option<FindingView> {
    match finding {
        Some(f) => Some(f@),
        None => None,
    }
}

/// The operation changes what a file or a directory holds.
pub open spec fn is_change(operation: Seq<char>) -> bool {
    operation == "MODIFY"@ || operation == "CREATE"@
}

/// The program is a shell.
pub open spec fn is_shell(exe: Seq<char>) -> bool {
    "/bash"@.is_suffix_of(exe) || "/sh"@.is_suffix_of(exe) || "/zsh"@.is_suffix_of(exe)
        || "/dash"@.is_suffix_of(exe)
}

/// The path is that of the file of password hashes.
pub open spec fn is_shadow(path: Seq<char>) -> bool {
    path == "/etc/shadow"@
}

/// The path is that of a scheduled task: a part of it has a name that starts with `cron` or
/// `anacron`.
pub open spec fn is_crontab(path: Seq<char>) -> bool {
    contains_text(path, "/cron"@) || contains_text(path, "/anacron"@)
}

/// The path lies in a directory of keys for remote access.
pub open spec fn is_ssh_key(path: Seq<char>) -> bool {
    contains_text(path, "/.ssh/"@)
}

/// R-001: a program is executed from a directory that everybody can write to.
pub open spec fn exec_from_tmp(event: Event) -> Option<FindingView> {
    match event {
        Event::Process(e) if "/tmp/"@.is_prefix_of(e.exe@) || "/dev/shm/"@.is_prefix_of(e.exe@) =>
            Some(
            FindingView {
                rule: "R-001"@,
                severity: Severity::High,
                message: "Exécution depuis répertoire temporaire : "@ + e.exe@ + " (pid="@
                    + decimal(e.pid as nat) + ")"@,
            },
        ),
        _ => None,
    }
}

/// R-002: the password hashes are touched.
pub open spec fn shadow_access(event: Event) -> Option<FindingView> {
    match event {
        Event::File(e) if is_shadow(e.path@) => Some(
            FindingView {
                rule: "R-002"@,
                severity: Severity::Critical,
                message: "Accès à /etc/shadow : "@ + e.path@ + " ("@ + e.operation@ + ")"@,
            },
        ),
        _ => None,
    }
}

/// R-003: a scheduled task is changed.
pub open spec fn crontab_write(event: Event) -> Option<FindingView> {
    match event {
        Event::File(e) if is_crontab(e.path@) && is_change(e.operation@) => Some(
            FindingView {
                rule: "R-003"@,
                severity: Severity::High,
                message: "Modification crontab : "@ + e.path@,
            },
        ),
        _ => None,
    }
}

/// R-004: a shell is executed by another user than root.
pub open spec fn suspicious_shell(event: Event) -> Option<FindingView> {
    match event {
        Event::Process(e) if is_shell(e.exe@) && e.uid > 0 => Some(
            FindingView {
                rule: "R-004"@,
                severity: Severity::Medium,
                message: "Shell interactif lancé : "@ + e.exe@ + " (uid="@ + decimal(e.uid as nat)
                    + ", pid="@ + decimal(e.pid as nat) + ")"@,
            },
        ),
        _ => None,
    }
}

/// R-005: a key for remote access is changed.
pub open spec fn ssh_key_write(event: Event) -> Option<FindingView> {
    match event {
        Event::File(e) if is_ssh_key(e.path@) && is_change(e.operation@) => Some(
            FindingView {
                rule: "R-005"@,
                severity: Severity::High,
                message: "Modification clé SSH : "@ + e.path@,
            },
        ),
        _ => None,
    }
}

/// What the rules say of an event, those that say something, in their order.
pub open spec fn findings_of(event: Event) -> Seq<FindingView> {
    listed(exec_from_tmp(event)) + listed(shadow_access(event)) + listed(crontab_write(event))
        + listed(suspicious_shell(event)) + listed(ssh_key_write(event))
}

/// A finding that may be missing, as a list.
pub open spec fn listed(finding: Option<FindingView>) -> Seq<FindingView> {
    match finding {
        Some(f) => seq![f],
        None => Seq::empty(),
    }
}

/// The alert of a finding.
pub open spec fn alert_of(finding: FindingView, event_json: Seq<char>, stamp: Timestamp) -> AlertView {
    AlertView {
        rule: finding.rule,
        severity: finding.severity,
        message: finding.message,
        timestamp: stamp,
        event_json,
    }
}

/// The alerts for an event, raised at the times `stamps`.
pub open spec fn alerts_of(event: Event, event_json: Seq<char>, stamps: Seq<Timestamp>) -> Seq<
    AlertView,
> {
    findings_of(event).map(|i: int, f: FindingView| alert_of(f, event_json, stamps[i]))
}

/// Tells whether an operation changes what a file or a directory holds.
fn changes(operation: &str) -> (yes: bool)
    ensures
        yes == is_change(operation@),
{
    same_text(operation, "MODIFY") || same_text(operation, "CREATE")
}

/// Tells whether a path is that of a scheduled task.
fn crontab(path: &str) -> (yes: bool)
    ensures
        yes == is_crontab(path@),
{
    contains(path, "/cron") || contains(path, "/anacron")
}

/// R-001: a program is executed from a directory that everybody can write to.
pub fn rule_exec_from_tmp(event: &Event) -> (finding: Option<Finding>)
    ensures
        found(finding) == exec_from_tmp(*event),
{
    match event {
        Event::Process(e) => {
            if starts_with(e.exe.as_str(), "/tmp/") || starts_with(e.exe.as_str(), "/dev/shm/") {
                let mut message = "Exécution depuis répertoire temporaire : ".to_owned();
                message.push_str(e.exe.as_str());
                message.push_str(" (pid=");
                message.push_str(to_decimal(e.pid as u64).as_str());
                message.push_str(")");
                Some(Finding { rule: "R-001".to_owned(), severity: Severity::High, message })
            } else {
                None
            }
        },
        _ => None,
    }
}

/// R-002: the password hashes are touched.
pub fn rule_shadow_access(event: &Event) -> (finding: Option<Finding>)
    ensures
        found(finding) == shadow_access(*event),
{
    match event {
        Event::File(e) => {
            if same_text(e.path.as_str(), "/etc/shadow") {
                let mut message = "Accès à /etc/shadow : ".to_owned();
                message.push_str(e.path.as_str());
                message.push_str(" (");
                message.push_str(e.operation.as_str());
                message.push_str(")");
                Some(Finding { rule: "R-002".to_owned(), severity: Severity::Critical, message })
            } else {
                None
            }
        },
        _ => None,
    }
}

/// R-003: a scheduled task is changed.
pub fn rule_crontab_write(event: &Event) -> (finding: Option<Finding>)
    ensures
        found(finding) == crontab_write(*event),
{
    match event {
        Event::File(e) => {
            if crontab(e.path.as_str()) && changes(e.operation.as_str()) {
                let mut message = "Modification crontab : ".to_owned();
                message.push_str(e.path.as_str());
                Some(Finding { rule: "R-003".to_owned(), severity: Severity::High, message })
            } else {
                None
            }
        },
        _ => None,
    }
}

/// R-004: a shell is executed by another user than root.
pub fn rule_suspicious_shell(event: &Event) -> (finding: Option<Finding>)
    ensures
        found(finding) == suspicious_shell(*event),
{
    match event {
        Event::Process(e) => {
            let shell = ends_with(e.exe.as_str(), "/bash") || ends_with(e.exe.as_str(), "/sh")
                || ends_with(e.exe.as_str(), "/zsh") || ends_with(e.exe.as_str(), "/dash");
            if shell && e.uid > 0 {
                let mut message = "Shell interactif lancé : ".to_owned();
                message.push_str(e.exe.as_str());
                message.push_str(" (uid=");
                message.push_str(to_decimal(e.uid as u64).as_str());
                message.push_str(", pid=");
                message.push_str(to_decimal(e.pid as u64).as_str());
                message.push_str(")");
                Some(Finding { rule: "R-004".to_owned(), severity: Severity::Medium, message })
            } else {
                None
            }
        },
        _ => None,
    }
}

/// R-005: a key for remote access is changed.
pub fn rule_ssh_key_write(event: &Event) -> (finding: Option<Finding>)
    ensures
        found(finding) == ssh_key_write(*event),
{
    match event {
        Event::File(e) => {
            if contains(e.path.as_str(), "/.ssh/") && changes(e.operation.as_str()) {
                let mut message = "Modification clé SSH : ".to_owned();
                message.push_str(e.path.as_str());
                Some(Finding { rule: "R-005".to_owned(), severity: Severity::High, message })
            } else {
                None
            }
        },
        _ => None,
    }
}

/// What each finding of a list holds.
pub open spec fn finding_views(list: Seq<Finding>) -> Seq<FindingView> {
    list.map_values(|f: Finding| f@)
}

/// Adds a finding to a list, where there is one.
fn keep(list: &mut Vec<Finding>, finding: Option<Finding>)
    ensures
        finding_views(final(list)@) == finding_views(old(list)@) + listed(found(finding)),
{
    match finding {
        Some(f) => {
            list.push(f);
            assert(finding_views(list@) =~= finding_views(old(list)@) + listed(Some(f@)));
        },
        None => {
            assert(finding_views(list@) =~= finding_views(old(list)@) + listed(None));
        },
    }
}

/// What the rules say of an event.
pub fn findings(event: &Event) -> (list: Vec<Finding>)
    ensures
        finding_views(list@) == findings_of(*event),
{
    let mut list: Vec<Finding> = Vec::new();
    keep(&mut list, rule_exec_from_tmp(event));
    keep(&mut list, rule_shadow_access(event));
    keep(&mut list, rule_crontab_write(event));
    keep(&mut list, rule_suspicious_shell(event));
    keep(&mut list, rule_ssh_key_write(event));
    assert(finding_views(list@) =~= findings_of(*event));
    list
}

/// Makes an alert of a finding, at the given time.
fn alert(finding: &Finding, event_json: &str, stamp: Timestamp) -> (raised: Alert)
    ensures
        raised@ == alert_of(finding@, event_json@, stamp),
{
    Alert {
        rule: finding.rule.clone(),
        severity: finding.severity,
        message: finding.message.clone(),
        timestamp: stamp,
        event_json: event_json.to_owned(),
    }
}

/// The alerts for an event, all raised at the given time. `event_json` is the event in JSON.
pub fn evaluate_at(event: &Event, event_json: &str, stamp: Timestamp) -> (alerts: Vec<Alert>)
    ensures
        alert_views(alerts@) == findings_of(*event).map_values(
            |f: FindingView| alert_of(f, event_json@, stamp),
        ),
{
    let list = findings(event);
    let ghost wanted = findings_of(*event).map_values(
        |f: FindingView| alert_of(f, event_json@, stamp),
    );
    let mut alerts: Vec<Alert> = Vec::new();
    for i in 0..list.len()
        invariant
            finding_views(list@) == findings_of(*event),
            wanted == findings_of(*event).map_values(
                |f: FindingView| alert_of(f, event_json@, stamp),
            ),
            alert_views(alerts@) =~= wanted.take(i as int),
    {
        let ghost before = alert_views(alerts@);
        assert(finding_views(list@)[i as int] == list@[i as int]@);
        alerts.push(alert(&list[i], event_json, stamp));
        assert(alert_views(alerts@) =~= before.push(wanted[i as int]));
    }
    assert(alert_views(alerts@) =~= wanted);
    alerts
}

/// The alerts for an event, each raised at the current time. `event_json` is the event in JSON.
pub fn evaluate(event: &Event, event_json: &str) -> (alerts: Vec<Alert>)
    ensures
        exists|stamps: Seq<Timestamp>|
            alert_views(alerts@) == #[trigger] alerts_of(*event, event_json@, stamps),
{
    let list = findings(event);
    let ghost mut stamps: Seq<Timestamp> = Seq::empty();
    let mut alerts: Vec<Alert> = Vec::new();
    for i in 0..list.len()
        invariant
            finding_views(list@) == findings_of(*event),
            stamps.len() == i,
            alerts@.len() == i,
            forall|k: int|
                0 <= k < i ==> (#[trigger] alerts@[k])@ == alert_of(
                    findings_of(*event)[k],
                    event_json@,
                    stamps[k],
                ),
    {
        let stamp = Timestamp::now();
        assert(finding_views(list@)[i as int] == list@[i as int]@);
        alerts.push(alert(&list[i], event_json, stamp));
        proof {
            stamps = stamps.push(stamp);
        }
    }
    assert(alert_views(alerts@) =~= alerts_of(*event, event_json@, stamps));
    alerts
}

/// A connection raises no alert.
pub proof fn law_connections_are_quiet(event: Event)
    requires
        event is Network,
    ensures
        findings_of(event).len() == 0,
{
}

/// A program run by root raises at most the alert for its directory.
pub proof fn law_root_shell_is_quiet(event: Event)
    requires
        event matches Event::Process(e) && e.uid == 0,
    ensures
        findings_of(event) == listed(exec_from_tmp(event)),
{
    assert(findings_of(event) =~= listed(exec_from_tmp(event)));
}

/// A file that is only opened or deleted raises at most the alert for the password hashes.
pub proof fn law_only_changes_count(event: Event)
    requires
        event matches Event::File(e) && !is_change(e.operation@),
    ensures
        findings_of(event) == listed(shadow_access(event)),
{
    assert(findings_of(event) =~= listed(shadow_access(event)));
}

/// A finding of the rule with the given name is among the findings for an event.
pub open spec fn raises(event: Event, rule: Seq<char>) -> bool {
    exists|i: int| 0 <= i < findings_of(event).len() && (#[trigger] findings_of(event)[i]).rule == rule
}

/// A text is an ending with something before it, be it nothing.
pub open spec fn made_with_end(text: Seq<char>, end: Seq<char>) -> bool {
    exists|head: Seq<char>| text == #[trigger] (head + end)
}

/// A text is a beginning with something behind it, be it nothing.
pub open spec fn made_with_start(text: Seq<char>, start: Seq<char>) -> bool {
    exists|rest: Seq<char>| text == #[trigger] (start + rest)
}

/// A text is a part with something before it and something behind it, be it nothing.
pub open spec fn made_with_part(text: Seq<char>, part: Seq<char>) -> bool {
    exists|head: Seq<char>, rest: Seq<char>| text == #[trigger] (head + part + rest)
}

/// How texts are made of their parts.
proof fn lemma_made_with(text: Seq<char>, part: Seq<char>)
    ensures
        part.is_suffix_of(text) <==> made_with_end(text, part),
        part.is_prefix_of(text) <==> made_with_start(text, part),
        contains_text(text, part) <==> made_with_part(text, part),
{
    if part.is_suffix_of(text) {
        assert(text =~= text.take(text.len() - part.len()) + part);
    }
    if made_with_end(text, part) {
        let head = choose|head: Seq<char>| text == #[trigger] (head + part);
        assert(part =~= text.subrange(text.len() - part.len(), text.len() as int));
    }
    if part.is_prefix_of(text) {
        assert(text =~= part + text.skip(part.len() as int));
    }
    if made_with_start(text, part) {
        let rest = choose|rest: Seq<char>| text == #[trigger] (part + rest);
        assert(part =~= text.subrange(0, part.len() as int));
    }
    lemma_contains_text(text, part);
    if made_with_part(text, part) {
        let (head, rest) = choose|head: Seq<char>, rest: Seq<char>|
            text == #[trigger] (head + part + rest);
        assert(text == head + part + rest);
    }
}

/// The names of the rules differ.
proof fn lemma_rule_names()
    ensures
        "R-001"@.len() == 5,
        "R-001"@[4] == '1',
        "R-002"@[4] == '2',
        "R-003"@[4] == '3',
        "R-004"@[4] == '4',
        "R-005"@[4] == '5',
{
    reveal_strlit("R-001");
    reveal_strlit("R-002");
    reveal_strlit("R-003");
    reveal_strlit("R-004");
    reveal_strlit("R-005");
}

/// Which findings there are for an event, rule by rule.
proof fn lemma_raised(event: Event)
    ensures
        raises(event, "R-001"@) <==> exec_from_tmp(event) is Some,
        raises(event, "R-002"@) <==> shadow_access(event) is Some,
        raises(event, "R-003"@) <==> crontab_write(event) is Some,
        raises(event, "R-004"@) <==> suspicious_shell(event) is Some,
        raises(event, "R-005"@) <==> ssh_key_write(event) is Some,
{
    lemma_rule_names();
    let a = listed(exec_from_tmp(event));
    let b = listed(shadow_access(event));
    let c = listed(crontab_write(event));
    let d = listed(suspicious_shell(event));
    let e = listed(ssh_key_write(event));
    let all = findings_of(event);
    assert(all == a + b + c + d + e);
    if exec_from_tmp(event) is Some {
        assert(all[0] == a[0]);
    }
    if shadow_access(event) is Some {
        assert(all[a.len() as int] == b[0]);
    }
    if crontab_write(event) is Some {
        assert(all[(a.len() + b.len()) as int] == c[0]);
    }
    if suspicious_shell(event) is Some {
        assert(all[(a.len() + b.len() + c.len()) as int] == d[0]);
    }
    if ssh_key_write(event) is Some {
        assert(all[(a.len() + b.len() + c.len() + d.len()) as int] == e[0]);
    }
}

/// Where a program is a shell, R-004 is among the findings if and only if the user is not root,
/// whichever user that is. It is there for no other programs and for no other events.
pub proof fn law_shells_of_users(event: Event)
    ensures
        event is Process && (made_with_end(event->Process_0.exe@, "/bash"@) || made_with_end(
            event->Process_0.exe@,
            "/sh"@,
        ) || made_with_end(event->Process_0.exe@, "/zsh"@) || made_with_end(
            event->Process_0.exe@,
            "/dash"@,
        )) ==> (raises(event, "R-004"@) <==> event->Process_0.uid != 0),
        !(event is Process && (made_with_end(event->Process_0.exe@, "/bash"@) || made_with_end(
            event->Process_0.exe@,
            "/sh"@,
        ) || made_with_end(event->Process_0.exe@, "/zsh"@) || made_with_end(
            event->Process_0.exe@,
            "/dash"@,
        ))) ==> !raises(event, "R-004"@),
{
    lemma_raised(event);
    if event is Process {
        let exe = event->Process_0.exe@;
        lemma_made_with(exe, "/bash"@);
        lemma_made_with(exe, "/sh"@);
        lemma_made_with(exe, "/zsh"@);
        lemma_made_with(exe, "/dash"@);
    }
}

/// R-001 is among the findings if and only if a program is run from below one of the two
/// directories for temporary files, whoever runs it.
pub proof fn law_programs_in_temporary_directories(event: Event)
    ensures
        raises(event, "R-001"@) <==> event is Process && (made_with_start(
            event->Process_0.exe@,
            "/tmp/"@,
        ) || made_with_start(event->Process_0.exe@, "/dev/shm/"@)),
{
    lemma_raised(event);
    if event is Process {
        lemma_made_with(event->Process_0.exe@, "/tmp/"@);
        lemma_made_with(event->Process_0.exe@, "/dev/shm/"@);
    }
}

/// R-002 is among the findings if and only if the file of the password hashes is touched, in
/// whatever way.
pub proof fn law_password_hashes(event: Event)
    ensures
        raises(event, "R-002"@) <==> event is File && event->File_0.path@ == "/etc/shadow"@,
{
    lemma_raised(event);
}

/// R-003 is among the findings if and only if something is created or modified at a path with a
/// part whose name starts with `cron` or `anacron`.
pub proof fn law_scheduled_tasks(event: Event)
    ensures
        raises(event, "R-003"@) <==> {
            &&& event is File
            &&& made_with_part(event->File_0.path@, "/cron"@) || made_with_part(
                event->File_0.path@,
                "/anacron"@,
            )
            &&& event->File_0.operation@ == "MODIFY"@ || event->File_0.operation@ == "CREATE"@
        },
{
    lemma_raised(event);
    if event is File {
        lemma_made_with(event->File_0.path@, "/cron"@);
        lemma_made_with(event->File_0.path@, "/anacron"@);
    }
}

/// R-005 is among the findings if and only if something is created or modified below a directory
/// of keys for remote access.
pub proof fn law_remote_keys(event: Event)
    ensures
        raises(event, "R-005"@) <==> {
            &&& event is File
            &&& made_with_part(event->File_0.path@, "/.ssh/"@)
            &&& event->File_0.operation@ == "MODIFY"@ || event->File_0.operation@ == "CREATE"@
        },
{
    lemma_raised(event);
    if event is File {
        lemma_made_with(event->File_0.path@, "/.ssh/"@);
    }
}

/// What the findings say: how grave each is by its rule, and a message that ends in what was
/// found. There are no findings of other rules, at most one of each, and they come in the order
/// of their names.
pub proof fn law_what_findings_say(event: Event, i: int)
    requires
        0 <= i < findings_of(event).len(),
    ensures
        ({
            let f = findings_of(event)[i];
            let program = event->Process_0;
            let file = event->File_0;
            ||| {
                &&& f.rule == "R-001"@
                &&& f.severity == Severity::High
                &&& f.message == "Exécution depuis répertoire temporaire : "@ + program.exe@
                    + " (pid="@ + decimal(program.pid as nat) + ")"@
            }
            ||| {
                &&& f.rule == "R-002"@
                &&& f.severity == Severity::Critical
                &&& f.message == "Accès à /etc/shadow : "@ + file.path@ + " ("@ + file.operation@
                    + ")"@
            }
            ||| {
                &&& f.rule == "R-003"@
                &&& f.severity == Severity::High
                &&& f.message == "Modification crontab : "@ + file.path@
            }
            ||| {
                &&& f.rule == "R-004"@
                &&& f.severity == Severity::Medium
                &&& f.message == "Shell interactif lancé : "@ + program.exe@ + " (uid="@ + decimal(
                    program.uid as nat,
                ) + ", pid="@ + decimal(program.pid as nat) + ")"@
            }
            ||| {
                &&& f.rule == "R-005"@
                &&& f.severity == Severity::High
                &&& f.message == "Modification clé SSH : "@ + file.path@
            }
        }),
        forall|j: int|
            i < j < findings_of(event).len() ==> findings_of(event)[i].rule[4] < (
            #[trigger] findings_of(event)[j]).rule[4],
{
    lemma_rule_names();
}

/// The alerts for an event are its findings, each with its own time and the event in JSON.
pub proof fn law_alerts_are_findings(
    event: Event,
    event_json: Seq<char>,
    stamps: Seq<Timestamp>,
    i: int,
)
    requires
        0 <= i < findings_of(event).len(),
    ensures
        ({
            let alerts = alerts_of(event, event_json, stamps);
            &&& alerts.len() == findings_of(event).len()
            &&& alerts[i].rule == findings_of(event)[i].rule
            &&& alerts[i].severity == findings_of(event)[i].severity
            &&& alerts[i].message == findings_of(event)[i].message
            &&& alerts[i].timestamp == stamps[i]
            &&& alerts[i].event_json == event_json
        }),
{
}

} // verus!
