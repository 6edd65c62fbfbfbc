//! What is done about an alert.

use crate::analyzer::RuleAction;
use crate::common::{Alert, AlertView, NetworkEvent, NetworkProtocol};
use crate::json::{self, json_pretty, json_tree, json_value, read_text, text_at, JsonTree};
use crate::number::{decimal, to_decimal};
use crate::path::{
    file_name, join, joined, last_name, lemma_joined_differ, lemma_last_name,
};
use crate::split::{law_split_part_by_part, split_on};
use crate::text::{opt_text, same_text, texts};
use crate::time::{Timestamp, DIRECTORY_STAMP};
use serde_json::Value;
use vstd::prelude::*;

verus! {

/// The directory for files in quarantine.
pub const QUARANTINE_DIR: &'static str = "/var/edr/quarantine";

/// The chains of the packet filter that a blocked address is dropped from.
pub const CHAINS: [&'static str; 2] = ["INPUT", "OUTPUT"];

/// What is to be done next.
#[derive(Debug, Clone)]
pub enum Step {
    /// Nothing.
    Nothing,
    /// Tell what would have been done.
    Announce(String),
    /// Tell that the event lacks what the action needs.
    Warn(String),
    /// Kill a process.
    Kill(i32),
    /// Move a file away.
    Quarantine(String),
    /// Block an address.
    BlockIp(String),
}

/// What a step holds.
#[verifier::ext_equal]
pub enum StepView {
    Nothing,
    Announce(Seq<char>),
    Warn(Seq<char>),
    Kill(i32),
    Quarantine(Seq<char>),
    BlockIp(Seq<char>),
}

impl View for Step {
    type V = StepView;

    open spec fn view(&self) -> StepView {
        match self {
            Step::Nothing => StepView::Nothing,
            Step::Announce(s) => StepView::Announce(s@),
            Step::Warn(s) => StepView::Warn(s@),
            Step::Kill(pid) => StepView::Kill(*pid),
            Step::Quarantine(path) => StepView::Quarantine(path@),
            Step::BlockIp(ip) => StepView::BlockIp(ip@),
        }
    }
}

impl StepView {
    /// The step changes something on the machine.
    pub open spec fn acts(self) -> bool {
        self is Kill || self is Quarantine || self is BlockIp
    }
}

/// The action that an alert asks for.
pub open spec fn action_of(taken: Option<Seq<char>>) -> RuleAction {
    if taken == Some("Kill"@) {
        RuleAction::Kill
    } else if taken == Some("Quarantine"@) {
        RuleAction::Quarantine
    } else if taken == Some("BlockIp"@) {
        RuleAction::BlockIp
    } else {
        RuleAction::Alert
    }
}

/// The action that an alert asks for, by what it holds of it.
pub fn requested_action(taken: &Option<String>) -> (action: RuleAction)
    ensures
        action == action_of(opt_text(*taken)),
{
    match taken {
        Some(name) => {
            if same_text(name.as_str(), "Kill") {
                RuleAction::Kill
            } else if same_text(name.as_str(), "Quarantine") {
                RuleAction::Quarantine
            } else if same_text(name.as_str(), "BlockIp") {
                RuleAction::BlockIp
            } else {
                RuleAction::Alert
            }
        },
        None => RuleAction::Alert,
    }
}

/// An action that a rule asks for is the one that its alert asks for.
pub proof fn law_action_is_passed_on(action: RuleAction)
    ensures
        action_of(Some(action.name_text())) == action,
{
    reveal_strlit("Alert");
    reveal_strlit("Kill");
    reveal_strlit("Quarantine");
    reveal_strlit("BlockIp");
    assert("Alert"@.len() == 5 && "Kill"@.len() == 4 && "Quarantine"@.len() == 10
        && "BlockIp"@.len() == 7);
}

/// A signal to this number goes to one process. To nought, and to a number that the call takes
/// for a negative one, it would go to a group of processes, or to all.
pub open spec fn names_one_process(pid: u32) -> bool {
    0 < pid <= i32::MAX
}

/// What is to be done about an alert on a process. A kill is for the suspect process alone, so
/// that a number that names no single process is not signalled. `path` is the file and `ip` the address that
/// the event holds.
pub open spec fn step_for(
    dry_run: bool,
    action: RuleAction,
    pid: u32,
    path: Option<Seq<char>>,
    ip: Option<Seq<char>>,
) -> StepView {
    match action {
        RuleAction::Alert => StepView::Nothing,
        RuleAction::Kill => if dry_run {
            StepView::Announce("[DRY-RUN] SIGKILL → PID "@ + decimal(pid as nat))
        } else if names_one_process(pid) {
            StepView::Kill(pid as i32)
        } else {
            StepView::Warn("Kill : PID invalide : "@ + decimal(pid as nat))
        },
        RuleAction::Quarantine => match path {
            None => StepView::Warn("Quarantaine : chemin introuvable dans l'événement"@),
            Some(path) => if dry_run {
                StepView::Announce("[DRY-RUN] Quarantaine → "@ + path)
            } else {
                StepView::Quarantine(path)
            },
        },
        RuleAction::BlockIp => match ip {
            None => StepView::Warn("BlockIp : IP introuvable dans l'événement"@),
            Some(ip) => if dry_run {
                StepView::Announce("[DRY-RUN] iptables DROP → "@ + ip)
            } else {
                StepView::BlockIp(ip)
            },
        },
    }
}

/// A dry run never changes anything, whatever an alert asks for.
pub proof fn law_dry_run_never_acts(
    action: RuleAction,
    pid: u32,
    path: Option<Seq<char>>,
    ip: Option<Seq<char>>,
)
    ensures
        !step_for(true, action, pid, path, ip).acts(),
{
}

/// Only one process is ever killed, the one of the alert: no number stands for a group of
/// processes.
pub proof fn law_kill_names_one_process(
    dry_run: bool,
    action: RuleAction,
    pid: u32,
    path: Option<Seq<char>>,
    ip: Option<Seq<char>>,
)
    ensures
        step_for(dry_run, action, pid, path, ip) matches StepView::Kill(target) ==> target > 0
            && target == pid,
{
}

/// An alert that only asks to be told is never acted on.
pub proof fn law_plain_alert_never_acts(
    dry_run: bool,
    pid: u32,
    path: Option<Seq<char>>,
    ip: Option<Seq<char>>,
)
    ensures
        step_for(dry_run, RuleAction::Alert, pid, path, ip) == StepView::Nothing,
{
}

/// The file that an event in JSON tells of.
pub open spec fn event_path(event_json: Seq<char>) -> Option<Seq<char>> {
    match json_value(event_json) {
        Some(tree) => text_at(tree, "File"@, "path"@),
        None => None,
    }
}

/// The address that an event in JSON tells of.
pub open spec fn event_ip(event_json: Seq<char>) -> Option<Seq<char>> {
    match json_value(event_json) {
        Some(tree) => text_at(tree, "Network"@, "dst_ip"@),
        None => None,
    }
}

/// Finds the file that an event in JSON tells of.
pub fn extract_file_path(event_json: &str) -> (path: Option<String>)
    ensures
        opt_text(path) == event_path(event_json@),
{
    read_text(event_json, "File", "path")
}

/// Finds the address that an event in JSON tells of.
pub fn extract_ip(event_json: &str) -> (ip: Option<String>)
    ensures
        opt_text(ip) == event_ip(event_json@),
{
    read_text(event_json, "Network", "dst_ip")
}

/// Where a file in quarantine and what is known of it are put.
#[derive(Debug, Clone)]
pub struct QuarantinePaths {
    pub dir: String,
    pub file: String,
    pub metadata: String,
}

/// The directory for one file in quarantine.
pub open spec fn quarantine_dir_of(dir: Seq<char>, rule_id: Seq<char>, stamp: Timestamp) -> Seq<
    char,
> {
    joined(dir, stamp.under(DIRECTORY_STAMP@) + "_"@ + rule_id)
}

/// The name of a file in quarantine.
pub open spec fn quarantine_name(path: Seq<char>) -> Seq<char> {
    match last_name(split_on(path, '/')) {
        Some(name) => name,
        None => "unknown"@,
    }
}

/// The name under which what is known of a file in quarantine is put: never that of the file.
pub open spec fn metadata_name(name: Seq<char>) -> Seq<char> {
    if name == "metadata.json"@ {
        "edr-metadata.json"@
    } else {
        "metadata.json"@
    }
}

/// What is known of a file in quarantine.
pub open spec fn metadata_tree(
    alert: AlertView,
    path: Seq<char>,
    file: Seq<char>,
    stamp: Timestamp,
) -> JsonTree {
    JsonTree::Object(
        map![
            "original_path"@ => JsonTree::Text(path),
            "quarantine_path"@ => JsonTree::Text(file),
            "rule_id"@ => JsonTree::Text(alert.rule_id),
            "severity"@ => JsonTree::Text(alert.severity.label_text()),
            "pid"@ => JsonTree::Integer(alert.pid as int),
            "timestamp"@ => JsonTree::Text(stamp.rfc3339()),
        ],
    )
}

/// What is known of a file in quarantine, moved at the time `stamp`.
pub fn quarantine_metadata(alert: &Alert, path: &str, file: &str, stamp: Timestamp) -> (document:
    Value)
    ensures
        json_tree(document) == metadata_tree(alert@, path@, file@, stamp),
{
    let mut document = json::object();
    json::insert(&mut document, "original_path", json::text(path));
    json::insert(&mut document, "quarantine_path", json::text(file));
    json::insert(&mut document, "rule_id", json::text(alert.rule_id.as_str()));
    json::insert(&mut document, "severity", json::text(alert.severity.label()));
    json::insert(&mut document, "pid", json::integer(alert.pid as i64));
    json::insert(&mut document, "timestamp", json::text(stamp.to_rfc3339().as_str()));
    document
}

/// Writes what is known of a file in quarantine, moved at the time `stamp`.
pub fn write_metadata(alert: &Alert, path: &str, file: &str, stamp: Timestamp) -> (content:
    String)
    ensures
        content@ == json_pretty(metadata_tree(alert@, path@, file@, stamp)),
{
    json::pretty(&quarantine_metadata(alert, path, file, stamp))
}

/// The side on which a chain of the packet filter sees an address: what goes out has it as its
/// destination, and what comes in as its source.
pub open spec fn side_of(chain: Seq<char>) -> Seq<char> {
    if chain == "OUTPUT"@ {
        "-d"@
    } else {
        "-s"@
    }
}

/// The arguments with which the packet filter drops what comes from an address, or what goes to
/// it.
pub fn drop_arguments(chain: &str, ip: &str) -> (arguments: Vec<String>)
    ensures
        texts(arguments@) == seq!["-A"@, chain@, side_of(chain@), ip@, "-j"@, "DROP"@],
{
    let side: &'static str = if same_text(chain, "OUTPUT") {
        "-d"
    } else {
        "-s"
    };
    let mut arguments: Vec<String> = Vec::new();
    arguments.push("-A".to_owned());
    arguments.push(chain.to_owned());
    arguments.push(side.to_owned());
    arguments.push(ip.to_owned());
    arguments.push("-j".to_owned());
    arguments.push("DROP".to_owned());
    assert(texts(arguments@) =~= seq!["-A"@, chain@, side_of(chain@), ip@, "-j"@, "DROP"@]);
    arguments
}

/// How the log names a process that was killed.
pub fn kill_target(pid: u32) -> (target: String)
    ensures
        target@ == "pid:"@ + decimal(pid as nat),
{
    let mut target = "pid:".to_owned();
    target.push_str(to_decimal(pid as u64).as_str());
    target
}

/// Decides what is done about alerts.
pub struct ResponseEngine {
    dry_run: bool,
    quarantine_dir: String,
}

impl ResponseEngine {
    /// Nothing is really done.
    pub closed spec fn dry(self) -> bool {
        self.dry_run
    }

    /// The directory for files in quarantine.
    pub closed spec fn directory(self) -> Seq<char> {
        self.quarantine_dir@
    }

    /// An engine that really acts, or one that only tells what it would do.
    pub fn new(dry_run: bool) -> (engine: ResponseEngine)
        ensures
            engine.dry() == dry_run,
            engine.directory() == QUARANTINE_DIR@,
    {
        ResponseEngine { dry_run, quarantine_dir: QUARANTINE_DIR.to_owned() }
    }

    /// An engine that really acts where the active mode is set and no dry run is asked for, or
    /// else one that only tells what it would do.
    pub fn in_mode(dry_run: bool, active_mode: bool) -> (engine: ResponseEngine)
        ensures
            engine.dry() == (dry_run || !active_mode),
            engine.directory() == QUARANTINE_DIR@,
    {
        ResponseEngine::new(dry_run || !active_mode)
    }

    /// Tells whether nothing is really done.
    pub fn is_dry_run(&self) -> (dry_run: bool)
        ensures
            dry_run == self.dry(),
    {
        self.dry_run
    }

    /// What is to be done about an action on a process, where the event holds the given file and
    /// address.
    pub fn step(&self, action: RuleAction, pid: u32, path: Option<String>, ip: Option<String>) -> (step:
        Step)
        ensures
            step@ == step_for(self.dry(), action, pid, opt_text(path), opt_text(ip)),
            self.dry() ==> !step@.acts(),
    {
        match action {
            RuleAction::Alert => Step::Nothing,
            RuleAction::Kill => {
                if self.dry_run {
                    let mut s = "[DRY-RUN] SIGKILL → PID ".to_owned();
                    s.push_str(to_decimal(pid as u64).as_str());
                    Step::Announce(s)
                } else if 0 < pid && pid <= 0x7fff_ffff {
                    Step::Kill(pid as i32)
                } else {
                    let mut s = "Kill : PID invalide : ".to_owned();
                    s.push_str(to_decimal(pid as u64).as_str());
                    Step::Warn(s)
                }
            },
            RuleAction::Quarantine => match path {
                None => Step::Warn("Quarantaine : chemin introuvable dans l'événement".to_owned()),
                Some(path) => {
                    if self.dry_run {
                        let mut s = "[DRY-RUN] Quarantaine → ".to_owned();
                        s.push_str(path.as_str());
                        Step::Announce(s)
                    } else {
                        Step::Quarantine(path)
                    }
                },
            },
            RuleAction::BlockIp => match ip {
                None => Step::Warn("BlockIp : IP introuvable dans l'événement".to_owned()),
                Some(ip) => {
                    if self.dry_run {
                        let mut s = "[DRY-RUN] iptables DROP → ".to_owned();
                        s.push_str(ip.as_str());
                        Step::Announce(s)
                    } else {
                        Step::BlockIp(ip)
                    }
                },
            },
        }
    }

    /// What is to be done about an alert.
    pub fn plan(&self, alert: &Alert) -> (step: Step)
        ensures
            step@ == step_for(
                self.dry(),
                action_of(alert@.action_taken),
                alert.pid,
                event_path(alert.event_json@),
                event_ip(alert.event_json@),
            ),
            self.dry() ==> !step@.acts(),
    {
        let action = requested_action(&alert.action_taken);
        let path = extract_file_path(alert.event_json.as_str());
        let ip = extract_ip(alert.event_json.as_str());
        self.step(action, alert.pid, path, ip)
    }

    /// Where a file is moved to at the time `stamp`, on account of an alert.
    pub fn quarantine_paths(&self, alert: &Alert, path: &str, stamp: Timestamp) -> (paths:
        QuarantinePaths)
        ensures
            paths.dir@ == quarantine_dir_of(self.directory(), alert.rule_id@, stamp),
            paths.file@ == joined(paths.dir@, quarantine_name(path@)),
            paths.metadata@ == joined(paths.dir@, metadata_name(quarantine_name(path@))),
            paths.file@ != paths.metadata@,
    {
        let mut below = stamp.format(DIRECTORY_STAMP);
        below.push_str("_");
        below.push_str(alert.rule_id.as_str());
        let dir = join(self.quarantine_dir.as_str(), below.as_str());
        let name = match file_name(path) {
            Some(name) => name,
            None => "unknown".to_owned(),
        };
        let file = join(dir.as_str(), name.as_str());
        let beside: &'static str = if same_text(name.as_str(), "metadata.json") {
            "edr-metadata.json"
        } else {
            "metadata.json"
        };
        let metadata = join(dir.as_str(), beside);
        proof {
            reveal_strlit("metadata.json");
            reveal_strlit("edr-metadata.json");
            reveal_strlit("unknown");
            lemma_last_name(path@);
            assert(beside@[0] != '/');
            assert("metadata.json"@.len() != "edr-metadata.json"@.len());
            assert("unknown"@[0] != '/');
            lemma_joined_differ(dir@, name@, beside@);
        }
        QuarantinePaths { dir, file, metadata }
    }
}

/// A document that tells of one event: an object whose only member is named by the kind of event
/// and holds the event's own members.
pub open spec fn told(kind: Seq<char>, members: Map<Seq<char>, JsonTree>) -> JsonTree {
    JsonTree::Object(map![kind => JsonTree::Object(members)])
}

/// The members under which a connection is written. How its time is written does not matter here.
pub open spec fn connection_members(e: NetworkEvent, time: JsonTree) -> Map<Seq<char>, JsonTree> {
    map![
        "pid"@ => JsonTree::Integer(e.pid as int),
        "timestamp"@ => time,
        "src_ip"@ => JsonTree::Text(e.src_ip@),
        "src_port"@ => JsonTree::Integer(e.src_port as int),
        "dst_ip"@ => JsonTree::Text(e.dst_ip@),
        "dst_port"@ => JsonTree::Integer(e.dst_port as int),
        "protocol"@ => JsonTree::Text(
            if e.protocol == NetworkProtocol::Tcp {
                "Tcp"@
            } else {
                "Udp"@
            },
        ),
    ]
}

/// The names of the members of a connection differ from that of the address to block.
proof fn lemma_member_names()
    ensures
        "dst_ip"@ != "pid"@,
        "dst_ip"@ != "timestamp"@,
        "dst_ip"@ != "src_ip"@,
        "dst_ip"@ != "src_port"@,
        "dst_ip"@ != "dst_port"@,
        "dst_ip"@ != "protocol"@,
        "Network"@ != "File"@,
        "Network"@ != "Process"@,
        "File"@ != "Process"@,
{
    reveal_strlit("dst_ip");
    reveal_strlit("pid");
    reveal_strlit("timestamp");
    reveal_strlit("src_ip");
    reveal_strlit("src_port");
    reveal_strlit("dst_port");
    reveal_strlit("protocol");
    reveal_strlit("Network");
    reveal_strlit("File");
    reveal_strlit("Process");
    assert("dst_ip"@.len() == 6 && "dst_ip"@[0] == 'd' && "src_ip"@[0] == 's');
    assert("pid"@.len() == 3 && "timestamp"@.len() == 9 && "src_port"@.len() == 8);
    assert("dst_port"@.len() == 8 && "protocol"@.len() == 8 && "File"@.len() == 4);
    assert("Network"@[0] == 'N' && "Process"@[0] == 'P' && "Process"@.len() == 7);
}

/// The address to block is the one at the other end of the connection, whatever the other
/// members of the event hold, that of the near end among them.
pub proof fn law_far_end_is_blocked(
    event_json: Seq<char>,
    members: Map<Seq<char>, JsonTree>,
    src_ip: Seq<char>,
    dst_ip: Seq<char>,
)
    requires
        json_value(event_json) == Some(told("Network"@, members)),
        members.contains_pair("src_ip"@, JsonTree::Text(src_ip)),
        members.contains_pair("dst_ip"@, JsonTree::Text(dst_ip)),
    ensures
        event_ip(event_json) == Some(dst_ip),
{
}

/// For every connection, and for the document that it is written as, the address to block is
/// that of its destination, and there is no file to move.
pub proof fn law_address_of_connection(event_json: Seq<char>, e: NetworkEvent, time: JsonTree)
    requires
        json_value(event_json) == Some(told("Network"@, connection_members(e, time))),
    ensures
        event_ip(event_json) == Some(e.dst_ip@),
        event_path(event_json) is None,
{
    lemma_member_names();
    let members = connection_members(e, time);
    assert(members.contains_pair("dst_ip"@, JsonTree::Text(e.dst_ip@)));
}

/// No address is found but the destination of a connection: not where the text is no document,
/// not in other kinds of events, and not where the member is missing or no text.
pub proof fn law_no_other_address(
    event_json: Seq<char>,
    kind: Seq<char>,
    members: Map<Seq<char>, JsonTree>,
)
    ensures
        json_value(event_json) is None ==> event_ip(event_json) is None,
        json_value(event_json) == Some(told(kind, members)) && event_ip(event_json) is Some
            ==> kind == "Network"@ && members.contains_pair(
            "dst_ip"@,
            JsonTree::Text(event_ip(event_json)->0),
        ),
{
}

/// The file to move is the one that the event tells of, whatever its other members hold, and no
/// other file is found: not where the text is no document, not in other kinds of events, and not
/// where the member is missing or no text.
pub proof fn law_file_of_event(
    event_json: Seq<char>,
    kind: Seq<char>,
    members: Map<Seq<char>, JsonTree>,
    path: Seq<char>,
)
    ensures
        json_value(event_json) is None ==> event_path(event_json) is None,
        json_value(event_json) == Some(told("File"@, members)) && members.contains_pair(
            "path"@,
            JsonTree::Text(path),
        ) ==> event_path(event_json) == Some(path) && event_ip(event_json) is None,
        json_value(event_json) == Some(told(kind, members)) && event_path(event_json) is Some
            ==> kind == "File"@ && members.contains_pair(
            "path"@,
            JsonTree::Text(event_path(event_json)->0),
        ),
{
    lemma_member_names();
}

/// What an engine that really acts does about an alert: it blocks the destination of the
/// connection, moves the file of the event, or kills the process of the alert, as the alert
/// asks. Where the event has none, or no single process is named, it only warns.
pub proof fn law_what_is_done(pid: u32, path: Seq<char>, ip: Seq<char>, other: Option<Seq<char>>)
    ensures
        step_for(false, action_of(Some("BlockIp"@)), pid, other, Some(ip)) == StepView::BlockIp(ip),
        step_for(false, action_of(Some("BlockIp"@)), pid, other, None) is Warn,
        step_for(false, action_of(Some("Quarantine"@)), pid, Some(path), other)
            == StepView::Quarantine(path),
        step_for(false, action_of(Some("Quarantine"@)), pid, None, other) is Warn,
        0 < pid <= 0x7fff_ffff ==> step_for(
            false,
            action_of(Some("Kill"@)),
            pid,
            Some(path),
            other,
        ) == StepView::Kill(pid as i32),
        !(0 < pid <= 0x7fff_ffff) ==> step_for(
            false,
            action_of(Some("Kill"@)),
            pid,
            Some(path),
            other,
        ) is Warn,
{
    law_action_is_passed_on(RuleAction::Kill);
    law_action_is_passed_on(RuleAction::Quarantine);
    law_action_is_passed_on(RuleAction::BlockIp);
}

/// Only the three names stand for something that is done; any other text, and none at all, asks
/// for no more than the alert.
pub proof fn law_other_names_ask_for_nothing(taken: Option<Seq<char>>, pid: u32)
    requires
        taken != Some("Kill"@),
        taken != Some("Quarantine"@),
        taken != Some("BlockIp"@),
    ensures
        action_of(taken) == RuleAction::Alert,
{
}

/// A dry run tells of every act that it leaves out, with the process, the file or the address at
/// the end of what it tells. It warns where acting would warn for want of a file or an address.
pub proof fn law_dry_run_tells(pid: u32, path: Seq<char>, ip: Seq<char>, other: Option<Seq<char>>)
    ensures
        step_for(true, RuleAction::Kill, pid, other, other) == StepView::Announce(
            "[DRY-RUN] SIGKILL → PID "@ + decimal(pid as nat),
        ),
        step_for(true, RuleAction::Quarantine, pid, Some(path), other) == StepView::Announce(
            "[DRY-RUN] Quarantaine → "@ + path,
        ),
        step_for(true, RuleAction::BlockIp, pid, other, Some(ip)) == StepView::Announce(
            "[DRY-RUN] iptables DROP → "@ + ip,
        ),
        step_for(true, RuleAction::Quarantine, pid, None, other) == step_for(
            false,
            RuleAction::Quarantine,
            pid,
            None,
            other,
        ),
        step_for(true, RuleAction::BlockIp, pid, other, None) == step_for(
            false,
            RuleAction::BlockIp,
            pid,
            other,
            None,
        ),
{
}

/// A file keeps its name in quarantine: what stands behind the last slash of its path, also
/// where further slashes follow. A path that ends in no name gets one.
pub proof fn law_name_in_quarantine(dir: Seq<char>, name: Seq<char>)
    requires
        forall|i: int| 0 <= i < name.len() ==> name[i] != '/',
        name.len() > 0,
        name != "."@,
    ensures
        name != ".."@ ==> quarantine_name(dir + seq!['/'] + name) == name,
        name != ".."@ ==> quarantine_name(name) == name,
        quarantine_name(dir + seq!['/'] + ".."@) == "unknown"@,
        quarantine_name(dir + seq!['/'] + name + seq!['/']) == quarantine_name(
            dir + seq!['/'] + name,
        ),
        quarantine_name(dir + seq!['/'] + name + seq!['/'] + seq!['.']) == quarantine_name(
            dir + seq!['/'] + name,
        ),
        quarantine_name(Seq::empty()) == "unknown"@,
        quarantine_name(seq!['/']) == "unknown"@,
{
    reveal_strlit(".");
    reveal_strlit("..");
    reveal_with_fuel(last_name, 3);
    let none = Seq::<char>::empty();
    let up = ".."@;
    assert(up.len() == 2);
    law_split_part_by_part(dir, name, '/');
    law_split_part_by_part(name, none, '/');
    law_split_part_by_part(dir, up, '/');
    law_split_part_by_part(up, none, '/');
    law_split_part_by_part(dir + seq!['/'] + name, none, '/');
    law_split_part_by_part(none, none, '/');
    let before = split_on(dir, '/');
    assert((before + seq![name]).drop_last() =~= before);
    assert((before + seq![name]).last() == name);
    assert((before + seq![up]).last() == up);
    assert(dir + seq!['/'] + name + seq!['/'] + none =~= dir + seq!['/'] + name + seq!['/']);
    assert((before + seq![name] + seq![none]).drop_last() =~= before + seq![name]);
    assert((before + seq![name] + seq![none]).last() == none);
    assert(seq![name].last() == name);
    assert(seq![none].last() == none);
    assert(seq![none].drop_last() =~= Seq::<Seq<char>>::empty());
    assert(none + seq!['/'] + none =~= seq!['/']);
    assert((seq![none] + seq![none]).drop_last() =~= seq![none]);
    assert((seq![none] + seq![none]).last() == none);
    let here = seq!['.'];
    assert("."@ =~= here);
    law_split_part_by_part(dir + seq!['/'] + name, here, '/');
    law_split_part_by_part(here, none, '/');
    assert((before + seq![name] + seq![here]).drop_last() =~= before + seq![name]);
    assert((before + seq![name] + seq![here]).last() == here);
}

/// The directory for one file lies below that for all of them, and is named by the time and the
/// rule.
pub proof fn law_directory_in_quarantine(rule_id: Seq<char>, stamp: Timestamp)
    requires
        stamp.under("%Y%m%d_%H%M%S%.3f"@).len() > 0,
        stamp.under("%Y%m%d_%H%M%S%.3f"@)[0] != '/',
    ensures
        quarantine_dir_of("/var/edr/quarantine"@, rule_id, stamp) == "/var/edr/quarantine/"@
            + stamp.under("%Y%m%d_%H%M%S%.3f"@) + "_"@ + rule_id,
{
    reveal_strlit("/var/edr/quarantine");
    reveal_strlit("/var/edr/quarantine/");
    reveal_strlit("/");
    assert("/var/edr/quarantine"@ + "/"@ =~= "/var/edr/quarantine/"@);
    assert(quarantine_dir_of("/var/edr/quarantine"@, rule_id, stamp) =~= "/var/edr/quarantine/"@
        + stamp.under("%Y%m%d_%H%M%S%.3f"@) + "_"@ + rule_id);
}

/// What is known of a file in quarantine never has the name of the file itself.
pub proof fn law_metadata_beside_file(name: Seq<char>)
    ensures
        metadata_name(name) != name,
        name != "metadata.json"@ ==> metadata_name(name) == "metadata.json"@,
{
    reveal_strlit("metadata.json");
    reveal_strlit("edr-metadata.json");
    assert("metadata.json"@.len() != "edr-metadata.json"@.len());
}

/// The names of what is written of a file in quarantine differ.
proof fn lemma_metadata_names()
    ensures
        ({
            let names = seq![
                "original_path"@,
                "quarantine_path"@,
                "rule_id"@,
                "severity"@,
                "pid"@,
                "timestamp"@,
            ];
            forall|i: int, j: int|
                0 <= i < 6 && 0 <= j < 6 && #[trigger] names[i] == #[trigger] names[j] ==> i == j
        }),
{
    reveal_strlit("original_path");
    reveal_strlit("quarantine_path");
    reveal_strlit("rule_id");
    reveal_strlit("severity");
    reveal_strlit("pid");
    reveal_strlit("timestamp");
    let names = seq![
        "original_path"@,
        "quarantine_path"@,
        "rule_id"@,
        "severity"@,
        "pid"@,
        "timestamp"@,
    ];
    assert(names[0].len() == 13 && names[1].len() == 15 && names[2].len() == 7);
    assert(names[3].len() == 8 && names[4].len() == 3 && names[5].len() == 9);
}

/// What is written of a file in quarantine: where it was, where it is, and the alert's rule,
/// severity and process, with the time.
pub proof fn law_what_metadata_holds(
    alert: AlertView,
    path: Seq<char>,
    file: Seq<char>,
    stamp: Timestamp,
)
    ensures
        ({
            let tree = metadata_tree(alert, path, file, stamp);
            &&& tree is Object
            &&& tree->Object_0.contains_pair("original_path"@, JsonTree::Text(path))
            &&& tree->Object_0.contains_pair("quarantine_path"@, JsonTree::Text(file))
            &&& tree->Object_0.contains_pair("rule_id"@, JsonTree::Text(alert.rule_id))
            &&& tree->Object_0.contains_pair(
                "severity"@,
                JsonTree::Text(alert.severity.label_text()),
            )
            &&& tree->Object_0.contains_pair("pid"@, JsonTree::Integer(alert.pid as int))
            &&& tree->Object_0.contains_pair("timestamp"@, JsonTree::Text(stamp.rfc3339()))
        }),
{
    lemma_metadata_names();
    let names = seq![
        "original_path"@,
        "quarantine_path"@,
        "rule_id"@,
        "severity"@,
        "pid"@,
        "timestamp"@,
    ];
    assert(names[0] == "original_path"@ && names[1] == "quarantine_path"@);
    assert(names[2] == "rule_id"@ && names[3] == "severity"@);
    assert(names[4] == "pid"@ && names[5] == "timestamp"@);
}

/// What goes out to a blocked address is dropped by its destination, and what comes in from it by
/// its source.
pub proof fn law_both_ways_are_blocked()
    ensures
        side_of("OUTPUT"@) == "-d"@,
        side_of("INPUT"@) == "-s"@,
        forall|chain: Seq<char>| chain != "OUTPUT"@ ==> #[trigger] side_of(chain) == "-s"@,
{
    reveal_strlit("OUTPUT");
    reveal_strlit("INPUT");
    assert("OUTPUT"@.len() == 6 && "INPUT"@.len() == 5);
}

/// Where a file goes and where what is known of it goes: both right below the directory that the
/// time and the rule name, the file under its own name.
pub proof fn law_places_in_quarantine(
    engine: &ResponseEngine,
    alert: &Alert,
    path: &str,
    stamp: Timestamp,
    paths: QuarantinePaths,
    dir: Seq<char>,
    name: Seq<char>,
)
    requires
        call_ensures(ResponseEngine::quarantine_paths, (engine, alert, path, stamp), paths),
        path@ == dir + seq!['/'] + name,
        forall|i: int| 0 <= i < name.len() ==> name[i] != '/',
        name.len() > 0,
        name != "."@,
        name != ".."@,
    ensures
        paths.dir@ == quarantine_dir_of(engine.directory(), alert.rule_id@, stamp),
        paths.file@ == joined(paths.dir@, name),
        name != "metadata.json"@ ==> paths.metadata@ == joined(paths.dir@, "metadata.json"@),
        paths.metadata@ != paths.file@,
{
    law_name_in_quarantine(dir, name);
}

/// An engine really acts only where the active mode is set and no dry run is asked for.
pub proof fn law_when_it_acts(
    dry_run: bool,
    active_mode: bool,
    engine: ResponseEngine,
    plain: ResponseEngine,
)
    requires
        call_ensures(ResponseEngine::in_mode, (dry_run, active_mode), engine),
        call_ensures(ResponseEngine::new, (dry_run,), plain),
    ensures
        !engine.dry() <==> active_mode && !dry_run,
        plain.dry() <==> dry_run,
        engine.directory() == "/var/edr/quarantine"@,
        plain.directory() == "/var/edr/quarantine"@,
{
}

/// What is done about an alert is what it asks for, on its own process, on the file or on the
/// destination that its own event tells of. In a dry run nothing of it is done.
pub proof fn law_plan(
    engine: &ResponseEngine,
    alert: &Alert,
    step: Step,
    members: Map<Seq<char>, JsonTree>,
    text: Seq<char>,
)
    requires
        call_ensures(ResponseEngine::plan, (engine, alert), step),
    ensures
        engine.dry() ==> !(step is Kill) && !(step is Quarantine) && !(step is BlockIp),
        !engine.dry() && opt_text(alert.action_taken) == Some("BlockIp"@) && json_value(
            alert.event_json@,
        ) == Some(told("Network"@, members)) && members.contains_pair(
            "dst_ip"@,
            JsonTree::Text(text),
        ) ==> (step matches Step::BlockIp(ip) && ip@ == text),
        !engine.dry() && opt_text(alert.action_taken) == Some("Quarantine"@) && json_value(
            alert.event_json@,
        ) == Some(told("File"@, members)) && members.contains_pair("path"@, JsonTree::Text(text))
            ==> (step matches Step::Quarantine(path) && path@ == text),
        !engine.dry() && opt_text(alert.action_taken) == Some("Kill"@) && 0 < alert.pid
            <= 0x7fff_ffff ==> (step matches Step::Kill(pid) && pid == alert.pid),
        alert.action_taken is None ==> step is Nothing,
        opt_text(alert.action_taken) == Some("Alert"@) ==> step is Nothing,
{
    law_action_is_passed_on(RuleAction::Kill);
    law_action_is_passed_on(RuleAction::Quarantine);
    law_action_is_passed_on(RuleAction::BlockIp);
    law_action_is_passed_on(RuleAction::Alert);
    assert(alert@.action_taken == opt_text(alert.action_taken));
}

/// The packet filter is told to drop, in the given chain, what has the address as its
/// destination where it goes out, and as its source elsewhere.
pub proof fn law_arguments_of_the_filter(chain: &str, ip: &str, arguments: Vec<String>)
    requires
        call_ensures(drop_arguments, (chain, ip), arguments),
    ensures
        arguments@.len() == 6,
        arguments@[0]@ == "-A"@,
        arguments@[1]@ == chain@,
        arguments@[2]@ == "-d"@ <==> chain@ == "OUTPUT"@,
        arguments@[2]@ == "-s"@ <==> chain@ != "OUTPUT"@,
        arguments@[3]@ == ip@,
        arguments@[4]@ == "-j"@,
        arguments@[5]@ == "DROP"@,
{
    reveal_strlit("-d");
    reveal_strlit("-s");
    assert("-d"@[1] == 'd' && "-s"@[1] == 's');
    let all = texts(arguments@);
    assert(all.len() == arguments@.len());
    assert(all[0] == arguments@[0]@ && all[1] == arguments@[1]@ && all[2] == arguments@[2]@);
    assert(all[3] == arguments@[3]@ && all[4] == arguments@[4]@ && all[5] == arguments@[5]@);
}

/// The log names a process that was killed by its number.
pub proof fn law_name_of_killed(pid: u32, target: String)
    requires
        call_ensures(kill_target, (pid,), target),
    ensures
        target@ == "pid:"@ + decimal(pid as nat),
{
}

} // verus!
