//! The texts of the commands, and what they are made from.

use crate::common::{alert_views, ecs_tree, Alert, AlertView, Severity};
use crate::config::Config;
use crate::json::{self, json_pretty, json_tree, JsonTree};
use crate::number::{
    decimal, read_i32, signed_decimal, signed_value, to_decimal, to_signed_decimal,
};
use crate::storage::DbStats;
use crate::text::{
    from_chars, lemma_replaced_adds, opt_text, pad, pad_left, padded,
    padded_left, replace, replaced, same_text, to_chars, trim, trimmed, truncate, truncated,
};
use crate::time::DATE_TIME;
use serde_json::Value;
use vstd::prelude::*;

verus! {

/// The file that holds the process of the daemon.
pub const PID_FILE: &'static str = "/run/edr.pid";

/// What is known of the daemon.
#[derive(Debug, Clone)]
pub enum DaemonState {
    /// It runs, as the process that the text names.
    Running(String),
    /// Its file is there, but the process is gone.
    Dead,
    /// Its file is missing.
    Unknown,
}

/// What is known of the database.
#[derive(Debug, Clone)]
pub enum DbReport {
    /// It was asked.
    Counted(DbStats),
    /// It could not be read, for the given reason.
    Unreadable(String),
    /// It could not be opened, for the given reason.
    Unreachable(String),
}

/// The directory of a process, by the text of its file.
pub fn process_directory(pid_text: &str) -> (path: String)
    ensures
        path@ == "/proc/"@ + trimmed(pid_text@),
{
    let mut path = "/proc/".to_owned();
    path.push_str(from_chars(trim(to_chars(pid_text).as_slice())).as_str());
    path
}

/// What is known of the daemon, by the text of its file, if there is one, and by whether its
/// process has a directory.
pub fn daemon_state(pid_text: Option<String>, alive: bool) -> (state: DaemonState)
    ensures
        match pid_text {
            None => state is Unknown,
            Some(text) => if alive {
                state matches DaemonState::Running(pid) && pid@ == trimmed(text@)
            } else {
                state is Dead
            },
        },
{
    match pid_text {
        None => DaemonState::Unknown,
        Some(text) => {
            if alive {
                DaemonState::Running(from_chars(trim(to_chars(text.as_str()).as_slice())))
            } else {
                DaemonState::Dead
            }
        },
    }
}

/// The part of the report on the daemon.
pub open spec fn daemon_text(state: DaemonState) -> Seq<char> {
    match state {
        DaemonState::Running(pid) => "  Daemon  : \x1b[32m● En cours\x1b[0m  (PID "@ + pid@
            + ")\n"@,
        DaemonState::Dead =>
            "  Daemon  : \x1b[31m● Arrêté\x1b[0m  (PID file présent mais processus mort)\n"@,
        DaemonState::Unknown =>
            "  Daemon  : \x1b[33m● Inconnu\x1b[0m  (PID file absent)\n"@,
    }
}

/// The part of the report on the database.
pub open spec fn database_text(report: DbReport, db_path: Seq<char>) -> Seq<char> {
    match report {
        DbReport::Counted(stats) => "\n  ── Base de données ──────────────────\n"@
            + "  Événements   : "@ + padded_left(signed_decimal(stats.event_count as int), 10)
            + "\n  Alertes      : "@ + padded_left(signed_decimal(stats.alert_count as int), 10)
            + "\n  Critiques    : "@ + padded_left(signed_decimal(stats.critical_count as int), 10)
            + "\n  DB           : "@ + db_path + "\n"@,
        DbReport::Unreadable(reason) => "  Erreur lecture DB : "@ + reason@ + "\n"@,
        DbReport::Unreachable(reason) => "\n  Base de données inaccessible : "@ + reason@ + "\n"@,
    }
}

/// The part of the report on the settings.
pub open spec fn settings_text(config: Config) -> Seq<char> {
    "\n  ── Configuration ────────────────────\n"@ + "  Quarantaine  : "@
        + config.agent.quarantine_dir@ + "\n  Rétention    : "@ + decimal(
        config.storage.retention_days as nat,
    ) + " jours\n  Réseau       : "@ + (if config.collector.network_monitoring {
        "true"@
    } else {
        "false"@
    }) + "\n\n"@
}

/// The head of the report.
pub const STATUS_TITLE: &'static str = "
╔══════════════════════════════════════╗
║       EDR Linux — Status             ║
╚══════════════════════════════════════╝

";

/// Writes the part of the report on the daemon.
fn write_daemon(state: &DaemonState) -> (s: String)
    ensures
        s@ == daemon_text(*state),
{
    match state {
        DaemonState::Running(pid) => {
            let mut s = "  Daemon  : \x1b[32m● En cours\x1b[0m  (PID ".to_owned();
            s.push_str(pid.as_str());
            s.push_str(")\n");
            s
        },
        DaemonState::Dead =>
            "  Daemon  : \x1b[31m● Arrêté\x1b[0m  (PID file présent mais processus mort)\n".to_owned(),
        DaemonState::Unknown =>
            "  Daemon  : \x1b[33m● Inconnu\x1b[0m  (PID file absent)\n".to_owned(),
    }
}

/// Writes the part of the report on the database.
fn write_database(report: &DbReport, db_path: &str) -> (s: String)
    ensures
        s@ == database_text(*report, db_path@),
{
    match report {
        DbReport::Counted(stats) => {
            let mut s = "\n  ── Base de données ──────────────────\n".to_owned();
            s.push_str("  Événements   : ");
            s.push_str(pad_left(to_signed_decimal(stats.event_count).as_str(), 10).as_str());
            s.push_str("\n  Alertes      : ");
            s.push_str(pad_left(to_signed_decimal(stats.alert_count).as_str(), 10).as_str());
            s.push_str("\n  Critiques    : ");
            s.push_str(pad_left(to_signed_decimal(stats.critical_count).as_str(), 10).as_str());
            s.push_str("\n  DB           : ");
            s.push_str(db_path);
            s.push_str("\n");
            s
        },
        DbReport::Unreadable(reason) => {
            let mut s = "  Erreur lecture DB : ".to_owned();
            s.push_str(reason.as_str());
            s.push_str("\n");
            s
        },
        DbReport::Unreachable(reason) => {
            let mut s = "\n  Base de données inaccessible : ".to_owned();
            s.push_str(reason.as_str());
            s.push_str("\n");
            s
        },
    }
}

/// Writes the part of the report on the settings.
fn write_settings(config: &Config) -> (s: String)
    ensures
        s@ == settings_text(*config),
{
    let mut s = "\n  ── Configuration ────────────────────\n".to_owned();
    s.push_str("  Quarantaine  : ");
    s.push_str(config.agent.quarantine_dir.as_str());
    s.push_str("\n  Rétention    : ");
    s.push_str(to_decimal(config.storage.retention_days as u64).as_str());
    s.push_str(" jours\n  Réseau       : ");
    s.push_str(
        if config.collector.network_monitoring {
            "true"
        } else {
            "false"
        },
    );
    s.push_str("\n\n");
    s
}

/// The report on the daemon, the database and the settings.
pub fn status_report(daemon: &DaemonState, database: &DbReport, config: &Config) -> (s: String)
    ensures
        s@ == STATUS_TITLE@ + daemon_text(*daemon) + database_text(
            *database,
            config.storage.db_path@,
        ) + settings_text(*config),
{
    let mut s = STATUS_TITLE.to_owned();
    s.push_str(write_daemon(daemon).as_str());
    s.push_str(write_database(database, config.storage.db_path.as_str()).as_str());
    s.push_str(write_settings(config).as_str());
    s
}

/// The head of the list of alerts.
pub const ALERTS_TITLE: &'static str = "
ID         Règle        Sévérité   Timestamp                 PID            Description
────────────────────────────────────────────────────────────────────────────────────────────────────
";

/// The list without an alert.
pub const NO_ALERTS: &'static str = "Aucune alerte trouvée.\n";

/// The sequence that gives the name of a severity its colour.
pub open spec fn severity_colour(severity: Severity) -> Seq<char> {
    match severity {
        Severity::Critical => "\x1b[31m"@,
        Severity::High => "\x1b[33m"@,
        Severity::Medium => "\x1b[34m"@,
        Severity::Low => "\x1b[37m"@,
    }
}

/// The number of an alert; nought where it has none.
pub open spec fn alert_number(id: Option<i64>) -> int {
    match id {
        Some(n) => n as int,
        None => 0,
    }
}

/// The lines of an alert in the list.
pub open spec fn alert_lines(alert: AlertView) -> Seq<char> {
    padded(signed_decimal(alert_number(alert.id)), 10) + " "@ + padded(alert.rule_id, 12) + " "@
        + severity_colour(alert.severity) + padded(alert.severity.label_text(), 10) + "\x1b[0m "@
        + padded(alert.timestamp.under(DATE_TIME@), 25) + " "@ + padded(
        decimal(alert.pid as nat),
        14,
    ) + " "@ + truncated(alert.rule_description, 50) + "\n"@ + (match alert.mitre_technique {
        Some(technique) => "           \x1b[36mMITRE ATT&CK: "@ + technique + "\x1b[0m\n"@,
        None => Seq::empty(),
    })
}

/// The lines of all alerts in the list.
pub open spec fn all_lines(alerts: Seq<AlertView>) -> Seq<char>
    decreases alerts.len(),
{
    if alerts.len() == 0 {
        Seq::empty()
    } else {
        all_lines(alerts.drop_last()) + alert_lines(alerts.last())
    }
}

/// The list of alerts.
pub open spec fn listing(alerts: Seq<AlertView>) -> Seq<char> {
    if alerts.len() == 0 {
        NO_ALERTS@
    } else {
        ALERTS_TITLE@ + all_lines(alerts) + "\n  "@ + decimal(alerts.len())
            + " alerte(s) affichée(s)\n\n"@
    }
}

/// Writes the lines of an alert.
fn write_alert(alert: &Alert) -> (s: String)
    ensures
        s@ == alert_lines(alert@),
{
    let id: i64 = match alert.id {
        Some(n) => n,
        None => 0,
    };
    let mut s = pad(to_signed_decimal(id).as_str(), 10);
    s.push_str(" ");
    s.push_str(pad(alert.rule_id.as_str(), 12).as_str());
    s.push_str(" ");
    s.push_str(
        match alert.severity {
            Severity::Critical => "\x1b[31m",
            Severity::High => "\x1b[33m",
            Severity::Medium => "\x1b[34m",
            Severity::Low => "\x1b[37m",
        },
    );
    s.push_str(pad(alert.severity.label(), 10).as_str());
    s.push_str("\x1b[0m ");
    s.push_str(pad(alert.timestamp.format(DATE_TIME).as_str(), 25).as_str());
    s.push_str(" ");
    s.push_str(pad(to_decimal(alert.pid as u64).as_str(), 14).as_str());
    s.push_str(" ");
    s.push_str(truncate(alert.rule_description.as_str(), 50).as_str());
    s.push_str("\n");
    match &alert.mitre_technique {
        Some(technique) => {
            s.push_str("           \x1b[36mMITRE ATT&CK: ");
            s.push_str(technique.as_str());
            s.push_str("\x1b[0m\n");
        },
        None => {},
    }
    assert(s@ =~= alert_lines(alert@));
    s
}

/// The list of alerts.
pub fn list_alerts(alerts: &[Alert]) -> (s: String)
    ensures
        s@ == listing(alert_views(alerts@)),
{
    if alerts.len() == 0 {
        return NO_ALERTS.to_owned();
    }
    let ghost views = alert_views(alerts@);
    let mut s = ALERTS_TITLE.to_owned();
    assert(s@ =~= ALERTS_TITLE@ + all_lines(views.take(0)));
    for i in 0..alerts.len()
        invariant
            views == alert_views(alerts@),
            s@ == ALERTS_TITLE@ + all_lines(views.take(i as int)),
    {
        assert(views.take(i + 1).drop_last() =~= views.take(i as int));
        s.push_str(write_alert(&alerts[i]).as_str());
        assert(s@ =~= ALERTS_TITLE@ + all_lines(views.take(i + 1)));
    }
    assert(views.take(views.len() as int) =~= views);
    s.push_str("\n  ");
    s.push_str(to_decimal(alerts.len() as u64).as_str());
    s.push_str(" alerte(s) affichée(s)\n\n");
    s
}

/// A text that separates the columns or lines of a table has to be quoted.
pub open spec fn needs_quotes(s: Seq<char>) -> bool {
    s.contains(',') || s.contains('"') || s.contains('\n')
}

/// A text as it stands in a column of a table: as it is, or in quotes, with each quote in it
/// doubled.
pub open spec fn csv_escaped(s: Seq<char>) -> Seq<char> {
    if needs_quotes(s) {
        "\""@ + replaced(s, '"', "\"\""@) + "\""@
    } else {
        s
    }
}

/// Writes a text as it stands in a column of a table.
pub fn csv_escape(s: &str) -> (t: String)
    ensures
        t@ == csv_escaped(s@),
{
    let mut quotes: bool = false;
    for c in it: s.chars()
        invariant
            it.seq() == s@,
            quotes == needs_quotes(s@.take(it.index())),
    {
        let ghost before = s@.take(it.index() as int);
        assert(s@.take(it.index() + 1) =~= before.push(c));
        proof {
            lemma_push_contains(before, c, ',');
            lemma_push_contains(before, c, '"');
            lemma_push_contains(before, c, '\n');
        }
        if c == ',' || c == '"' || c == '\n' {
            quotes = true;
        }
    }
    assert(s@.take(s@.len() as int) =~= s@);
    if quotes {
        let mut t = "\"".to_owned();
        t.push_str(replace(s, '"', "\"\"").as_str());
        t.push_str("\"");
        t
    } else {
        s.to_owned()
    }
}

/// What a longer text contains.
proof fn lemma_push_contains(s: Seq<char>, last: char, c: char)
    ensures
        s.push(last).contains(c) <==> s.contains(c) || last == c,
{
    if s.contains(c) {
        let i = choose|i: int| 0 <= i < s.len() && s[i] == c;
        assert(s.push(last)[i] == c);
    }
    if last == c {
        assert(s.push(last)[s.len() as int] == c);
    }
    if s.push(last).contains(c) && last != c {
        let i = choose|i: int| 0 <= i < s.push(last).len() && s.push(last)[i] == c;
        assert(s[i] == c);
    }
}

/// The text before the end of a column that is not quoted, and what follows it.
pub open spec fn plain_column(t: Seq<char>) -> (Seq<char>, Seq<char>)
    decreases t.len(),
{
    if t.len() == 0 || t[0] == ',' || t[0] == '\n' {
        (Seq::empty(), t)
    } else {
        let later = plain_column(t.skip(1));
        (seq![t[0]] + later.0, later.1)
    }
}

/// The text before the closing quote of a column, and what follows it. Two quotes stand for
/// one.
pub open spec fn quoted_column(t: Seq<char>) -> (Seq<char>, Seq<char>)
    decreases t.len(),
{
    if t.len() == 0 {
        (t, t)
    } else if t[0] != '"' {
        let later = quoted_column(t.skip(1));
        (seq![t[0]] + later.0, later.1)
    } else if t.len() > 1 && t[1] == '"' {
        let later = quoted_column(t.skip(2));
        (seq!['"'] + later.0, later.1)
    } else {
        (Seq::empty(), t.skip(1))
    }
}

/// The text of the first column of a line, and what follows it.
pub open spec fn first_column(t: Seq<char>) -> (Seq<char>, Seq<char>) {
    if t.len() > 0 && t[0] == '"' {
        quoted_column(t.skip(1))
    } else {
        plain_column(t)
    }
}

/// A column in quotes is read back.
proof fn lemma_quoted_column(s: Seq<char>, rest: Seq<char>)
    requires
        rest.len() == 0 || rest[0] != '"',
    ensures
        quoted_column(replaced(s, '"', "\"\""@) + ("\""@ + rest)) == (s, rest),
    decreases s.len(),
{
    reveal_strlit("\"");
    reveal_strlit("\"\"");
    let tail = "\""@ + rest;
    if s.len() == 0 {
        let whole = replaced(s, '"', "\"\""@) + tail;
        assert(whole =~= tail);
        assert(whole.skip(1) =~= rest);
        assert(whole[0] == '"');
        assert(rest.len() > 0 ==> whole[1] == rest[0]);
        assert(quoted_column(whole).0 =~= s);
    } else {
        let first = seq![s[0]];
        let others = s.skip(1);
        assert(s =~= first + others);
        lemma_replaced_adds(first, others, '"', "\"\""@);
        lemma_quoted_column(others, rest);
        assert(first.drop_last() =~= Seq::<char>::empty());
        assert(replaced(first.drop_last(), '"', "\"\""@) =~= Seq::<char>::empty());
        let after = replaced(others, '"', "\"\""@) + tail;
        let whole = replaced(s, '"', "\"\""@) + tail;
        if s[0] == '"' {
            assert(replaced(first, '"', "\"\""@) =~= "\"\""@);
            assert(whole =~= "\"\""@ + after);
            assert(whole.skip(2) =~= after);
            assert(whole[0] == '"' && whole[1] == '"');
        } else {
            assert(replaced(first, '"', "\"\""@) =~= first);
            assert(whole =~= first + after);
            assert(whole.skip(1) =~= after);
            assert(whole[0] == s[0]);
        }
        assert(quoted_column(whole).0 =~= s);
    }
}

/// A column without quotes is read back.
proof fn lemma_plain_column(s: Seq<char>, rest: Seq<char>)
    requires
        !s.contains(','),
        !s.contains('\n'),
        rest.len() == 0 || rest[0] == ',' || rest[0] == '\n',
    ensures
        plain_column(s + rest) == (s, rest),
    decreases s.len(),
{
    if s.len() == 0 {
        assert(s + rest =~= rest);
        assert(plain_column(s + rest).0 =~= s);
    } else {
        let others = s.skip(1);
        assert(s.contains(s[0]));
        assert forall|c: char| others.contains(c) implies s.contains(c) by {
            let i = choose|i: int| 0 <= i < others.len() && others[i] == c;
            assert(s[i + 1] == c);
        }
        lemma_plain_column(others, rest);
        assert((s + rest).skip(1) =~= others + rest);
        assert((s + rest)[0] == s[0]);
        assert(plain_column(s + rest).0 =~= s);
    }
}

/// Whatever text stands in a column, it is read back, and the reader goes on behind it.
pub proof fn law_column_reads_back(s: Seq<char>, rest: Seq<char>)
    requires
        rest.len() == 0 || rest[0] == ',' || rest[0] == '\n',
    ensures
        first_column(csv_escaped(s) + rest) == (s, rest),
{
    reveal_strlit("\"");
    if needs_quotes(s) {
        let inner = replaced(s, '"', "\"\""@);
        let whole = csv_escaped(s) + rest;
        assert(whole =~= "\""@ + (inner + ("\""@ + rest)));
        assert(whole.skip(1) =~= inner + ("\""@ + rest));
        assert(whole[0] == '"');
        lemma_quoted_column(s, rest);
    } else {
        let whole = s + rest;
        if whole.len() > 0 {
            if s.len() > 0 {
                assert(s.contains(s[0]));
                assert(whole[0] == s[0]);
            } else {
                assert(whole[0] == rest[0]);
            }
        }
        lemma_plain_column(s, rest);
    }
}

/// The line of an alert in a table.
pub open spec fn csv_row(alert: AlertView) -> Seq<char> {
    signed_decimal(alert_number(alert.id)) + ","@ + csv_escaped(alert.rule_id) + ","@
        + csv_escaped(alert.severity.label_text()) + ","@ + decimal(alert.pid as nat) + ","@
        + alert.timestamp.rfc3339() + ","@ + csv_escaped(text_or_nothing(alert.mitre_technique))
        + ","@ + csv_escaped(alert.rule_description) + ","@ + csv_escaped(
        text_or_nothing(alert.action_taken),
    ) + "\n"@
}

/// A text that may be missing; nothing where it is.
pub open spec fn text_or_nothing(s: Option<Seq<char>>) -> Seq<char> {
    match s {
        Some(text) => text,
        None => Seq::empty(),
    }
}

/// The lines of all alerts in a table.
pub open spec fn csv_rows(alerts: Seq<AlertView>) -> Seq<char>
    decreases alerts.len(),
{
    if alerts.len() == 0 {
        Seq::empty()
    } else {
        csv_rows(alerts.drop_last()) + csv_row(alerts.last())
    }
}

/// The names of the columns of a table.
pub const CSV_TITLE: &'static str =
    "id,rule_id,severity,pid,timestamp,mitre_technique,description,action_taken\n";

/// Writes the line of an alert in a table.
fn write_csv_row(alert: &Alert) -> (s: String)
    ensures
        s@ == csv_row(alert@),
{
    let id: i64 = match alert.id {
        Some(n) => n,
        None => 0,
    };
    let mut s = to_signed_decimal(id);
    s.push_str(",");
    s.push_str(csv_escape(alert.rule_id.as_str()).as_str());
    s.push_str(",");
    s.push_str(csv_escape(alert.severity.label()).as_str());
    s.push_str(",");
    s.push_str(to_decimal(alert.pid as u64).as_str());
    s.push_str(",");
    s.push_str(alert.timestamp.to_rfc3339().as_str());
    s.push_str(",");
    s.push_str(escape_optional(&alert.mitre_technique).as_str());
    s.push_str(",");
    s.push_str(csv_escape(alert.rule_description.as_str()).as_str());
    s.push_str(",");
    s.push_str(escape_optional(&alert.action_taken).as_str());
    s.push_str("\n");
    s
}

/// Writes a text that may be missing as it stands in a column of a table.
fn escape_optional(s: &Option<String>) -> (t: String)
    ensures
        t@ == csv_escaped(text_or_nothing(opt_text(*s))),
{
    match s {
        Some(text) => csv_escape(text.as_str()),
        None => {
            let empty = String::new();
            let t = csv_escape(empty.as_str());
            assert(empty@ =~= Seq::<char>::empty());
            t
        },
    }
}

/// The alerts as a table.
pub fn export_csv(alerts: &[Alert]) -> (s: String)
    ensures
        s@ == CSV_TITLE@ + csv_rows(alert_views(alerts@)),
{
    let ghost views = alert_views(alerts@);
    let mut s = CSV_TITLE.to_owned();
    assert(s@ =~= CSV_TITLE@ + csv_rows(views.take(0)));
    for i in 0..alerts.len()
        invariant
            views == alert_views(alerts@),
            s@ == CSV_TITLE@ + csv_rows(views.take(i as int)),
    {
        assert(views.take(i + 1).drop_last() =~= views.take(i as int));
        s.push_str(write_csv_row(&alerts[i]).as_str());
        assert(s@ =~= CSV_TITLE@ + csv_rows(views.take(i + 1)));
    }
    assert(views.take(views.len() as int) =~= views);
    s
}

/// The alerts as a list of documents.
pub open spec fn ecs_list(alerts: Seq<AlertView>) -> JsonTree {
    JsonTree::List(alerts.map_values(|a: AlertView| ecs_tree(a)))
}

/// The alerts as a list of documents.
pub fn ecs_documents(alerts: &[Alert]) -> (document: Value)
    ensures
        json_tree(document) == ecs_list(alert_views(alerts@)),
{
    let ghost trees = alert_views(alerts@).map_values(|a: AlertView| ecs_tree(a));
    let mut items: Vec<Value> = Vec::new();
    for i in 0..alerts.len()
        invariant
            trees == alert_views(alerts@).map_values(|a: AlertView| ecs_tree(a)),
            items@.len() == i,
            forall|k: int| 0 <= k < i ==> json_tree(#[trigger] items@[k]) == trees[k],
    {
        items.push(alerts[i].to_ecs());
    }
    assert(items@.map_values(|item: Value| json_tree(item)) =~= trees);
    json::list(items)
}

/// The alerts in JSON.
pub fn export_json(alerts: &[Alert]) -> (content: String)
    ensures
        content@ == json_pretty(ecs_list(alert_views(alerts@))),
{
    json::pretty(&ecs_documents(alerts))
}

/// The name of a format that there is not.
#[derive(Debug, Clone)]
pub struct UnknownFormat {
    pub name: String,
}

impl UnknownFormat {
    /// The message for the user.
    pub fn message(&self) -> (s: String)
        ensures
            s@ == "Format non supporté : "@ + self.name@ + " (utiliser json ou csv)"@,
    {
        let mut s = "Format non supporté : ".to_owned();
        s.push_str(self.name.as_str());
        s.push_str(" (utiliser json ou csv)");
        s
    }
}

/// The alerts in the named format.
pub fn export_alerts(alerts: &[Alert], format: &str) -> (content: Result<String, UnknownFormat>)
    ensures
        if format@ == "json"@ || format@ == "JSON"@ {
            content matches Ok(s) && s@ == json_pretty(ecs_list(alert_views(alerts@)))
        } else if format@ == "csv"@ || format@ == "CSV"@ {
            content matches Ok(s) && s@ == CSV_TITLE@ + csv_rows(alert_views(alerts@))
        } else {
            content matches Err(e) && e.name@ == format@
        },
{
    if same_text(format, "json") || same_text(format, "JSON") {
        Ok(export_json(alerts))
    } else if same_text(format, "csv") || same_text(format, "CSV") {
        Ok(export_csv(alerts))
    } else {
        Err(UnknownFormat { name: format.to_owned() })
    }
}

/// The process that the text of the file of the daemon names.
pub fn daemon_pid(pid_text: &str) -> (pid: Result<i32, String>)
    ensures
        match pid {
            Ok(n) => signed_value(trimmed(pid_text@), i32::MIN as int, i32::MAX as int) == Some(
                n as int,
            ),
            Err(message) => {
                &&& signed_value(trimmed(pid_text@), i32::MIN as int, i32::MAX as int) is None
                &&& message@ == "PID invalide dans "@ + PID_FILE@
            },
        },
{
    match read_i32(trim(to_chars(pid_text).as_slice())) {
        Some(n) => Ok(n),
        None => {
            let mut message = "PID invalide dans ".to_owned();
            message.push_str(PID_FILE);
            Err(message)
        },
    }
}

} // verus!
