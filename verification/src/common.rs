//! What the probes report and what the detection makes of it: raw events, events, alerts.

use crate::encoding::{terminated, text_until_zero, utf8_or_mark};
use crate::json;
use crate::json::{json_tree, text_or_null, JsonTree};
use crate::text::{lowercase, opt_text, same_text, small_letters, to_lowercase};
use crate::time::Timestamp;
use serde_json::Value;
use vstd::prelude::*;
use vstd::utf8::is_ascii_chars;

verus! {

/// The bytes that a raw event holds for the path of a program.
pub const MAX_PATH_LEN: usize = 256;

/// The bytes that a raw event holds for the arguments of a program.
pub const MAX_ARGS_LEN: usize = 256;

/// The bytes that a raw event holds for the name of a file.
pub const MAX_FILENAME_LEN: usize = 128;

/// The kinds of raw events.
#[derive(Debug, Clone, Copy, PartialEq, Eq, Structural)]
pub enum RawEventType {
    Execve,
    Fork,
    Exit,
    FileOp,
    NetConn,
}

impl RawEventType {
    /// The number that stands for the kind in a raw event.
    pub open spec fn code(self) -> u32 {
        match self {
            RawEventType::Execve => 0,
            RawEventType::Fork => 1,
            RawEventType::Exit => 2,
            RawEventType::FileOp => 3,
            RawEventType::NetConn => 4,
        }
    }

    /// The kind that a number stands for.
    pub fn try_from(v: u32) -> (kind: Result<RawEventType, ()>)
        ensures
            kind is Ok <==> v <= 4,
            kind matches Ok(k) ==> k.code() == v,
    {
        match v {
            0 => Ok(RawEventType::Execve),
            1 => Ok(RawEventType::Fork),
            2 => Ok(RawEventType::Exit),
            3 => Ok(RawEventType::FileOp),
            4 => Ok(RawEventType::NetConn),
            _ => Err(()),
        }
    }
}

/// An event as the kernel side reports it. The texts end at their first zero byte.
#[derive(Clone, Copy)]
pub struct RawEvent {
    pub event_type: u32,
    pub pid: u32,
    pub ppid: u32,
    pub uid: u32,
    pub gid: u32,
    pub timestamp_ns: u64,
    pub exe_path: [u8; MAX_PATH_LEN],
    pub args: [u8; MAX_ARGS_LEN],
    pub filename: [u8; MAX_FILENAME_LEN],
    /// Destination of a connection, an IPv4 address.
    pub dst_ip: u32,
    pub dst_port: u16,
    pub src_port: u16,
    pub exit_code: i32,
    pub file_op: u32,
}

impl RawEvent {
    /// The text before the first zero byte, or a mark where it is not valid UTF-8.
    pub fn str_from_bytes(buf: &[u8]) -> (s: &str)
        ensures
            s@ == utf8_or_mark(terminated(buf@)),
    {
        text_until_zero(buf)
    }

    /// The path of the program.
    pub fn exe_path_str(&self) -> (s: &str)
        ensures
            s@ == utf8_or_mark(terminated(self.exe_path@)),
    {
        Self::str_from_bytes(self.exe_path.as_slice())
    }

    /// The arguments of the program.
    pub fn args_str(&self) -> (s: &str)
        ensures
            s@ == utf8_or_mark(terminated(self.args@)),
    {
        Self::str_from_bytes(self.args.as_slice())
    }

    /// The name of the file.
    pub fn filename_str(&self) -> (s: &str)
        ensures
            s@ == utf8_or_mark(terminated(self.filename@)),
    {
        Self::str_from_bytes(self.filename.as_slice())
    }
}

/// What was done to a file.
#[derive(Debug, Clone, PartialEq, Eq, Structural)]
pub enum FileOperation {
    Open,
    Read,
    Write,
    Create,
    Delete,
    Rename,
    Chmod,
    Unknown(u32),
}

impl FileOperation {
    /// The operation that a number of a raw event stands for.
    pub open spec fn of_code(v: u32) -> FileOperation {
        if v == 1 {
            FileOperation::Open
        } else if v == 2 {
            FileOperation::Read
        } else if v == 3 {
            FileOperation::Write
        } else if v == 4 {
            FileOperation::Create
        } else if v == 5 {
            FileOperation::Delete
        } else if v == 6 {
            FileOperation::Rename
        } else if v == 7 {
            FileOperation::Chmod
        } else {
            FileOperation::Unknown(v)
        }
    }

    /// The name of the operation, with the number where it is unknown.
    pub open spec fn name_text(self) -> Seq<char> {
        match self {
            FileOperation::Open => "Open"@,
            FileOperation::Read => "Read"@,
            FileOperation::Write => "Write"@,
            FileOperation::Create => "Create"@,
            FileOperation::Delete => "Delete"@,
            FileOperation::Rename => "Rename"@,
            FileOperation::Chmod => "Chmod"@,
            FileOperation::Unknown(v) => "Unknown("@ + crate::number::decimal(v as nat) + ")"@,
        }
    }

    /// The name of the operation.
    pub fn name(&self) -> (s: String)
        ensures
            s@ == self.name_text(),
    {
        match self {
            FileOperation::Open => "Open".to_owned(),
            FileOperation::Read => "Read".to_owned(),
            FileOperation::Write => "Write".to_owned(),
            FileOperation::Create => "Create".to_owned(),
            FileOperation::Delete => "Delete".to_owned(),
            FileOperation::Rename => "Rename".to_owned(),
            FileOperation::Chmod => "Chmod".to_owned(),
            FileOperation::Unknown(v) => {
                let mut s = "Unknown(".to_owned();
                s.push_str(crate::number::to_decimal(*v as u64).as_str());
                s.push_str(")");
                s
            },
        }
    }
}

impl From<u32> for FileOperation {
    fn from(v: u32) -> (op: FileOperation) {
        match v {
            1 => FileOperation::Open,
            2 => FileOperation::Read,
            3 => FileOperation::Write,
            4 => FileOperation::Create,
            5 => FileOperation::Delete,
            6 => FileOperation::Rename,
            7 => FileOperation::Chmod,
            other => FileOperation::Unknown(other),
        }
    }
}

impl vstd::std_specs::convert::FromSpecImpl<u32> for FileOperation {
    open spec fn obeys_from_spec() -> bool {
        true
    }

    open spec fn from_spec(v: u32) -> FileOperation {
        FileOperation::of_code(v)
    }
}

/// A program was executed.
#[derive(Debug, Clone)]
pub struct ProcessEvent {
    pub pid: u32,
    pub ppid: u32,
    pub uid: u32,
    pub gid: u32,
    pub timestamp: Timestamp,
    pub exe_path: String,
    pub args: String,
    pub cwd: String,
    pub username: String,
    pub sha256: Option<String>,
}

/// A process was forked.
#[derive(Debug, Clone)]
pub struct ForkEvent {
    pub parent_pid: u32,
    pub child_pid: u32,
    pub timestamp: Timestamp,
}

/// A process ended.
#[derive(Debug, Clone)]
pub struct ExitEvent {
    pub pid: u32,
    pub exit_code: i32,
    pub timestamp: Timestamp,
    pub lifetime_ms: u64,
}

/// A file was touched.
#[derive(Debug, Clone)]
pub struct FileEvent {
    pub pid: u32,
    pub timestamp: Timestamp,
    pub path: String,
    pub operation: FileOperation,
    pub sha256: Option<String>,
}

/// A connection was made.
#[derive(Debug, Clone)]
pub struct NetworkEvent {
    pub pid: u32,
    pub timestamp: Timestamp,
    pub src_ip: String,
    pub src_port: u16,
    pub dst_ip: String,
    pub dst_port: u16,
    pub protocol: NetworkProtocol,
}

/// The protocol of a connection.
#[derive(Debug, Clone, PartialEq, Eq, Structural)]
pub enum NetworkProtocol {
    Tcp,
    Udp,
}

/// Any event.
#[derive(Debug, Clone)]
pub enum EdrEvent {
    Process(ProcessEvent),
    Fork(ForkEvent),
    Exit(ExitEvent),
    File(FileEvent),
    Network(NetworkEvent),
}

impl EdrEvent {
    /// The process that the event belongs to: for a fork, the parent.
    pub open spec fn pid_of(self) -> u32 {
        match self {
            EdrEvent::Process(e) => e.pid,
            EdrEvent::Fork(e) => e.parent_pid,
            EdrEvent::Exit(e) => e.pid,
            EdrEvent::File(e) => e.pid,
            EdrEvent::Network(e) => e.pid,
        }
    }

    /// When the event happened.
    pub open spec fn time_of(self) -> Timestamp {
        match self {
            EdrEvent::Process(e) => e.timestamp,
            EdrEvent::Fork(e) => e.timestamp,
            EdrEvent::Exit(e) => e.timestamp,
            EdrEvent::File(e) => e.timestamp,
            EdrEvent::Network(e) => e.timestamp,
        }
    }

    /// The name of the kind of event.
    pub open spec fn kind_text(self) -> Seq<char> {
        match self {
            EdrEvent::Process(_) => "process"@,
            EdrEvent::Fork(_) => "fork"@,
            EdrEvent::Exit(_) => "exit"@,
            EdrEvent::File(_) => "file"@,
            EdrEvent::Network(_) => "network"@,
        }
    }

    /// The process that the event belongs to: for a fork, the parent.
    pub fn pid(&self) -> (pid: u32)
        ensures
            pid == self.pid_of(),
    {
        match self {
            EdrEvent::Process(e) => e.pid,
            EdrEvent::Fork(e) => e.parent_pid,
            EdrEvent::Exit(e) => e.pid,
            EdrEvent::File(e) => e.pid,
            EdrEvent::Network(e) => e.pid,
        }
    }

    /// When the event happened.
    pub fn timestamp(&self) -> (timestamp: Timestamp)
        ensures
            timestamp == self.time_of(),
    {
        match self {
            EdrEvent::Process(e) => e.timestamp,
            EdrEvent::Fork(e) => e.timestamp,
            EdrEvent::Exit(e) => e.timestamp,
            EdrEvent::File(e) => e.timestamp,
            EdrEvent::Network(e) => e.timestamp,
        }
    }

    /// The name of the kind of event, as it is stored.
    pub fn event_type_str(&self) -> (s: &'static str)
        ensures
            s@ == self.kind_text(),
    {
        match self {
            EdrEvent::Process(_) => "process",
            EdrEvent::Fork(_) => "fork",
            EdrEvent::Exit(_) => "exit",
            EdrEvent::File(_) => "file",
            EdrEvent::Network(_) => "network",
        }
    }
}

/// How grave an alert is, from the least to the most.
#[derive(Debug, Clone, Copy, PartialEq, Eq, PartialOrd, Ord, Structural)]
pub enum Severity {
    Low,
    Medium,
    High,
    Critical,
}

/// A name that stands for no severity, in small letters.
#[derive(Debug, Clone)]
pub struct UnknownSeverity {
    pub name: String,
}

impl UnknownSeverity {
    /// The message for the user.
    pub fn message(&self) -> (s: String)
        ensures
            s@ == "Sévérité inconnue: "@ + self.name@,
    {
        let mut s = "Sévérité inconnue: ".to_owned();
        s.push_str(self.name.as_str());
        s
    }
}

impl Severity {
    /// The place in the order of severities.
    pub open spec fn rank(self) -> int {
        match self {
            Severity::Low => 0,
            Severity::Medium => 1,
            Severity::High => 2,
            Severity::Critical => 3,
        }
    }

    /// The name in capitals.
    pub open spec fn label_text(self) -> Seq<char> {
        match self {
            Severity::Low => "LOW"@,
            Severity::Medium => "MEDIUM"@,
            Severity::High => "HIGH"@,
            Severity::Critical => "CRITICAL"@,
        }
    }

    /// The name in small letters.
    pub open spec fn small_text(self) -> Seq<char> {
        match self {
            Severity::Low => "low"@,
            Severity::Medium => "medium"@,
            Severity::High => "high"@,
            Severity::Critical => "critical"@,
        }
    }

    /// The severity of a name in small letters.
    pub open spec fn of_small(s: Seq<char>) -> Option<Severity> {
        if s == "low"@ {
            Some(Severity::Low)
        } else if s == "medium"@ {
            Some(Severity::Medium)
        } else if s == "high"@ {
            Some(Severity::High)
        } else if s == "critical"@ {
            Some(Severity::Critical)
        } else {
            None
        }
    }

    /// The severity of a name in letters of any case.
    pub open spec fn of_text(s: Seq<char>) -> Option<Severity> {
        Severity::of_small(lowercase(s))
    }

    /// The severity of a name in letters of any case; medium where there is none.
    pub open spec fn of_text_or_medium(s: Seq<char>) -> Severity {
        match Severity::of_text(s) {
            Some(severity) => severity,
            None => Severity::Medium,
        }
    }

    /// The severity of a name in ASCII letters of any case; medium where there is none.
    pub open spec fn of_ascii_or_medium(s: Seq<char>) -> Severity {
        match Severity::of_small(small_letters(s)) {
            Some(severity) => severity,
            None => Severity::Medium,
        }
    }

    /// The name in capitals.
    pub fn label(&self) -> (s: &'static str)
        ensures
            s@ == self.label_text(),
    {
        match self {
            Severity::Low => "LOW",
            Severity::Medium => "MEDIUM",
            Severity::High => "HIGH",
            Severity::Critical => "CRITICAL",
        }
    }

    /// The severity of a name in small letters.
    pub fn from_small(s: &str) -> (severity: Option<Severity>)
        ensures
            severity == Severity::of_small(s@),
    {
        if same_text(s, "low") {
            Some(Severity::Low)
        } else if same_text(s, "medium") {
            Some(Severity::Medium)
        } else if same_text(s, "high") {
            Some(Severity::High)
        } else if same_text(s, "critical") {
            Some(Severity::Critical)
        } else {
            None
        }
    }

    /// The severity of a name in letters of any case. A name in ASCII letters counts by its
    /// small letters, so the name that [`Severity::label`] gives is read back.
    pub fn from_str(s: &str) -> (severity: Result<Severity, UnknownSeverity>)
        ensures
            match severity {
                Ok(found) => Severity::of_text(s@) == Some(found),
                Err(e) => Severity::of_text(s@) is None && e.name@ == lowercase(s@),
            },
            is_ascii_chars(s@) ==> Severity::of_text(s@) == Severity::of_small(small_letters(s@)),
            forall|written: Severity|
                s@ == #[trigger] written.label_text() ==> severity == Ok::<
                    Severity,
                    UnknownSeverity,
                >(written),
    {
        let small = to_lowercase(s);
        proof {
            assert forall|written: Severity| s@ == #[trigger] written.label_text() implies small@
                == written.small_text() by {
                lemma_label_in_small_letters(written);
            }
            lemma_small_texts_differ();
        }
        match Severity::from_small(small.as_str()) {
            Some(found) => Ok(found),
            None => Err(UnknownSeverity { name: small }),
        }
    }

    /// The severity of a name in letters of any case; medium where there is none.
    pub fn from_str_or_medium(s: &str) -> (severity: Severity)
        ensures
            severity == Severity::of_text_or_medium(s@),
            is_ascii_chars(s@) ==> severity == Severity::of_ascii_or_medium(s@),
            forall|written: Severity| s@ == #[trigger] written.label_text() ==> severity == written,
    {
        match Severity::from_str(s) {
            Ok(found) => found,
            Err(_) => Severity::Medium,
        }
    }
}

/// Every name in capitals is ASCII, and in small letters it is the small name.
proof fn lemma_label_in_small_letters(severity: Severity)
    ensures
        is_ascii_chars(severity.label_text()),
        small_letters(severity.label_text()) == severity.small_text(),
{
    reveal_strlit("LOW");
    reveal_strlit("MEDIUM");
    reveal_strlit("HIGH");
    reveal_strlit("CRITICAL");
    reveal_strlit("low");
    reveal_strlit("medium");
    reveal_strlit("high");
    reveal_strlit("critical");
    assert(small_letters(severity.label_text()) =~= severity.small_text());
}

/// The small names of two severities differ.
proof fn lemma_small_texts_differ()
    ensures
        forall|a: Severity|
            Severity::of_small(#[trigger] a.small_text()) == Some(a),
{
    reveal_strlit("low");
    reveal_strlit("medium");
    reveal_strlit("high");
    reveal_strlit("critical");
    assert("low"@.len() == 3 && "medium"@.len() == 6 && "high"@.len() == 4 && "critical"@.len()
        == 8);
}

/// What the detection reports.
#[derive(Debug, Clone)]
pub struct Alert {
    pub id: Option<i64>,
    pub rule_id: String,
    pub rule_description: String,
    pub severity: Severity,
    pub timestamp: Timestamp,
    pub pid: u32,
    pub mitre_technique: Option<String>,
    pub event_json: String,
    pub action_taken: Option<String>,
}

/// What an alert holds.
#[verifier::ext_equal]
pub struct AlertView {
    pub id: Option<i64>,
    pub rule_id: Seq<char>,
    pub rule_description: Seq<char>,
    pub severity: Severity,
    pub timestamp: Timestamp,
    pub pid: u32,
    pub mitre_technique: Option<Seq<char>>,
    pub event_json: Seq<char>,
    pub action_taken: Option<Seq<char>>,
}

impl View for Alert {
    type V = AlertView;

    open spec fn view(&self) -> AlertView {
        AlertView {
            id: self.id,
            rule_id: self.rule_id@,
            rule_description: self.rule_description@,
            severity: self.severity,
            timestamp: self.timestamp,
            pid: self.pid,
            mitre_technique: opt_text(self.mitre_technique),
            event_json: self.event_json@,
            action_taken: opt_text(self.action_taken),
        }
    }
}

/// What each alert of a list holds.
pub open spec fn alert_views(alerts: Seq<Alert>) -> Seq<AlertView> {
    alerts.map_values(|a: Alert| a@)
}

/// The number of a severity in the Elastic Common Schema.
pub open spec fn ecs_severity(severity: Severity) -> int {
    25 * (severity.rank() + 1)
}

/// The document of an alert in the Elastic Common Schema.
pub open spec fn ecs_tree(alert: AlertView) -> JsonTree {
    JsonTree::Object(
        map![
            "@timestamp"@ => JsonTree::Text(alert.timestamp.rfc3339()),
            "event"@ => JsonTree::Object(map![
                "kind"@ => JsonTree::Text("alert"@),
                "category"@ => JsonTree::List(seq![JsonTree::Text("intrusion_detection"@)]),
                "type"@ => JsonTree::List(seq![JsonTree::Text("indicator"@)]),
                "severity"@ => JsonTree::Integer(ecs_severity(alert.severity)),
            ]),
            "rule"@ => JsonTree::Object(map![
                "id"@ => JsonTree::Text(alert.rule_id),
                "description"@ => JsonTree::Text(alert.rule_description),
            ]),
            "process"@ => JsonTree::Object(map![
                "pid"@ => JsonTree::Integer(alert.pid as int),
            ]),
            "threat"@ => JsonTree::Object(map![
                "technique"@ => JsonTree::Object(map![
                    "id"@ => text_or_null(alert.mitre_technique),
                ]),
            ]),
            "message"@ => JsonTree::Text(alert.rule_description),
            "labels"@ => JsonTree::Object(map![
                "edr_action"@ => text_or_null(alert.action_taken),
            ]),
        ],
    )
}

/// A list that holds one text.
fn text_list(content: &str) -> (document: Value)
    ensures
        json_tree(document) == JsonTree::List(seq![JsonTree::Text(content@)]),
{
    let mut items: Vec<Value> = Vec::new();
    items.push(json::text(content));
    assert(items@.map_values(|item: Value| json_tree(item)) =~= seq![JsonTree::Text(content@)]);
    json::list(items)
}

impl Alert {
    /// The alert in the Elastic Common Schema.
    pub fn to_ecs(&self) -> (document: Value)
        ensures
            json_tree(document) == ecs_tree(self@),
    {
        let mut event = json::object();
        json::insert(&mut event, "kind", json::text("alert"));
        json::insert(&mut event, "category", text_list("intrusion_detection"));
        json::insert(&mut event, "type", text_list("indicator"));
        json::insert(&mut event, "severity", json::integer(self.severity_as_int() as i64));
        let mut rule = json::object();
        json::insert(&mut rule, "id", json::text(self.rule_id.as_str()));
        json::insert(&mut rule, "description", json::text(self.rule_description.as_str()));
        let mut process = json::object();
        json::insert(&mut process, "pid", json::integer(self.pid as i64));
        let mut technique = json::object();
        json::insert(&mut technique, "id", json::optional_text(&self.mitre_technique));
        let mut threat = json::object();
        json::insert(&mut threat, "technique", technique);
        let mut labels = json::object();
        json::insert(&mut labels, "edr_action", json::optional_text(&self.action_taken));
        let mut document = json::object();
        json::insert(&mut document, "@timestamp", json::text(self.timestamp.to_rfc3339().as_str()));
        json::insert(&mut document, "event", event);
        json::insert(&mut document, "rule", rule);
        json::insert(&mut document, "process", process);
        json::insert(&mut document, "threat", threat);
        json::insert(&mut document, "message", json::text(self.rule_description.as_str()));
        json::insert(&mut document, "labels", labels);
        document
    }

    /// The number of the severity in the Elastic Common Schema.
    fn severity_as_int(&self) -> (n: u8)
        ensures
            n == ecs_severity(self.severity),
    {
        match self.severity {
            Severity::Low => 25,
            Severity::Medium => 50,
            Severity::High => 75,
            Severity::Critical => 100,
        }
    }
}

} // verus!
