//! What the commands write says what it is made from.

use super::cli::{
    alert_lines, all_lines, csv_escaped, csv_row, csv_rows, daemon_pid, daemon_state, daemon_text,
    database_text, ecs_list,
    export_alerts, first_column, law_column_reads_back, list_alerts, needs_quotes,
    process_directory, settings_text, status_report, text_or_nothing, DaemonState, DbReport,
    UnknownFormat, ALERTS_TITLE, STATUS_TITLE,
};
use crate::analyzer::operators::lemma_contains_text;
use crate::collector::proc_laws::lemma_decimal_plain;
use crate::common::{alert_views, ecs_tree, Alert, AlertView, Severity};
use crate::config::Config;
use crate::json::{json_pretty, JsonTree};
use crate::number::{
    decimal, is_digit, law_signed_decimal_reads_back, signed_decimal,
};
use crate::text::{
    all_blank, contains_text, is_whitespace, law_only_ends_are_trimmed, occurs_at, padded, padded_left,
    replaced, truncated,
};
use vstd::prelude::*;

verus! {

/// The first columns of a line of a table, and what follows them.
pub open spec fn read_columns(t: Seq<char>, n: nat) -> (Seq<Seq<char>>, Seq<char>)
    decreases n,
{
    if n == 0 {
        (Seq::empty(), t)
    } else if n == 1 {
        (seq![first_column(t).0], first_column(t).1)
    } else {
        let later = read_columns(first_column(t).1.skip(1), (n - 1) as nat);
        (seq![first_column(t).0] + later.0, later.1)
    }
}

/// One column in front of others.
proof fn lemma_column_before(s: Seq<char>, t: Seq<char>)
    ensures
        first_column(csv_escaped(s) + (","@ + t)) == (s, ","@ + t),
        (","@ + t).skip(1) == t,
{
    reveal_strlit(",");
    law_column_reads_back(s, ","@ + t);
    assert((","@ + t).skip(1) =~= t);
}

/// A number needs no quotes.
proof fn lemma_number_needs_no_quotes(n: int)
    ensures
        !needs_quotes(signed_decimal(n)),
        n >= 0 ==> !needs_quotes(decimal(n as nat)),
{
    lemma_decimal_plain(
        if n < 0 {
            (-n) as nat
        } else {
            n as nat
        },
    );
    assert forall|i: int| 0 <= i < signed_decimal(n).len() implies signed_decimal(n)[i] != ','
        && signed_decimal(n)[i] != '"' && signed_decimal(n)[i] != '\n' by {
        if n < 0 && i > 0 {
            assert(signed_decimal(n)[i] == decimal((-n) as nat)[i - 1]);
        }
    }
}

/// The line of an alert in a table, read column by column, gives its number, rule, severity,
/// process, time, technique, description and action, whatever characters these hold.
pub proof fn law_row_reads_back(alert: AlertView, more: Seq<char>)
    requires
        !needs_quotes(alert.timestamp.rfc3339()),
    ensures
        read_columns(csv_row(alert) + more, 8) == (
            seq![
                signed_decimal(
                    match alert.id {
                        Some(id) => id as int,
                        None => 0,
                    },
                ),
                alert.rule_id,
                alert.severity.label_text(),
                decimal(alert.pid as nat),
                alert.timestamp.rfc3339(),
                match alert.mitre_technique {
                    Some(technique) => technique,
                    None => Seq::empty(),
                },
                alert.rule_description,
                match alert.action_taken {
                    Some(action) => action,
                    None => Seq::empty(),
                },
            ],
            seq!['\n'] + more,
        ),
{
    reveal_strlit("\n");
    let number: int = match alert.id {
        Some(id) => id as int,
        None => 0,
    };
    let a = signed_decimal(number);
    let b = alert.rule_id;
    let c = alert.severity.label_text();
    let d = decimal(alert.pid as nat);
    let e = alert.timestamp.rfc3339();
    let f = text_or_nothing(alert.mitre_technique);
    let g = alert.rule_description;
    let h = text_or_nothing(alert.action_taken);
    let end = "\n"@ + more;
    assert(end =~= seq!['\n'] + more);
    lemma_row_is_nested(alert, more);
    lemma_eight_columns(a, b, c, d, e, f, g, h, end);
}

/// Columns one behind the other, with commas between them.
pub open spec fn column_before(s: Seq<char>, t: Seq<char>) -> Seq<char> {
    csv_escaped(s) + (","@ + t)
}

/// The line of an alert, column by column.
proof fn lemma_row_is_nested(alert: AlertView, more: Seq<char>)
    requires
        !needs_quotes(alert.timestamp.rfc3339()),
    ensures
        ({
            let a = signed_decimal(
                match alert.id {
                    Some(id) => id as int,
                    None => 0,
                },
            );
            let d = decimal(alert.pid as nat);
            let e = alert.timestamp.rfc3339();
            let f = text_or_nothing(alert.mitre_technique);
            let h = text_or_nothing(alert.action_taken);
            csv_row(alert) + more == column_before(
                a,
                column_before(
                    alert.rule_id,
                    column_before(
                        alert.severity.label_text(),
                        column_before(
                            d,
                            column_before(
                                e,
                                column_before(
                                    f,
                                    column_before(
                                        alert.rule_description,
                                        csv_escaped(h) + ("\n"@ + more),
                                    ),
                                ),
                            ),
                        ),
                    ),
                ),
            )
        }),
{
    let number: int = match alert.id {
        Some(id) => id as int,
        None => 0,
    };
    lemma_number_needs_no_quotes(number);
    lemma_number_needs_no_quotes(alert.pid as int);
    let a = signed_decimal(number);
    let b = csv_escaped(alert.rule_id);
    let c = csv_escaped(alert.severity.label_text());
    let d = decimal(alert.pid as nat);
    let e = alert.timestamp.rfc3339();
    let f = csv_escaped(text_or_nothing(alert.mitre_technique));
    let g = csv_escaped(alert.rule_description);
    let h = csv_escaped(text_or_nothing(alert.action_taken));
    assert(csv_escaped(a) == a && csv_escaped(d) == d && csv_escaped(e) == e);
    lemma_regroup(a, b, c, d, e, f, g, h, ","@, "\n"@, more);
}

/// A text that is made piece by piece from the left is the same from the right.
proof fn lemma_regroup(
    a: Seq<char>,
    b: Seq<char>,
    c: Seq<char>,
    d: Seq<char>,
    e: Seq<char>,
    f: Seq<char>,
    g: Seq<char>,
    h: Seq<char>,
    comma: Seq<char>,
    end: Seq<char>,
    more: Seq<char>,
)
    ensures
        a + comma + b + comma + c + comma + d + comma + e + comma + f + comma + g + comma + h + end
            + more == a + (comma + (b + (comma + (c + (comma + (d + (comma + (e + (comma + (f + (
        comma + (g + (comma + (h + (end + more))))))))))))))),
{
    let left = a + comma + b + comma + c + comma + d;
    let right = e + comma + f + comma + g + comma + h + end + more;
    let whole = a + comma + b + comma + c + comma + d + comma + e + comma + f + comma + g + comma
        + h + end + more;
    let tail = e + (comma + (f + (comma + (g + (comma + (h + (end + more)))))));
    assert(right =~= tail);
    assert(whole =~= left + (comma + right));
    assert(left + (comma + tail) =~= a + (comma + (b + (comma + (c + (comma + (d + (comma
        + tail))))))));
}

/// One more column in front of those that are read.
proof fn lemma_read_one_more(
    s: Seq<char>,
    t: Seq<char>,
    n: nat,
    list: Seq<Seq<char>>,
    end: Seq<char>,
)
    requires
        n > 0,
        read_columns(t, n) == (list, end),
    ensures
        read_columns(column_before(s, t), n + 1) == (seq![s] + list, end),
{
    lemma_column_before(s, t);
}

/// Eight columns are read one by one.
proof fn lemma_eight_columns(
    a: Seq<char>,
    b: Seq<char>,
    c: Seq<char>,
    d: Seq<char>,
    e: Seq<char>,
    f: Seq<char>,
    g: Seq<char>,
    h: Seq<char>,
    end: Seq<char>,
)
    requires
        end.len() > 0,
        end[0] == '\n',
    ensures
        read_columns(
            column_before(
                a,
                column_before(
                    b,
                    column_before(
                        c,
                        column_before(
                            d,
                            column_before(
                                e,
                                column_before(f, column_before(g, csv_escaped(h) + end)),
                            ),
                        ),
                    ),
                ),
            ),
            8,
        ) == (seq![a, b, c, d, e, f, g, h], end),
{
    let t8 = csv_escaped(h) + end;
    let t7 = column_before(g, t8);
    let t6 = column_before(f, t7);
    let t5 = column_before(e, t6);
    let t4 = column_before(d, t5);
    let t3 = column_before(c, t4);
    let t2 = column_before(b, t3);
    let r7 = seq![g] + seq![h];
    let r6 = seq![f] + r7;
    let r5 = seq![e] + r6;
    let r4 = seq![d] + r5;
    let r3 = seq![c] + r4;
    let r2 = seq![b] + r3;
    law_column_reads_back(h, end);
    lemma_read_one_more(g, t8, 1, seq![h], end);
    lemma_read_one_more(f, t7, 2, r7, end);
    lemma_read_one_more(e, t6, 3, r6, end);
    lemma_read_one_more(d, t5, 4, r5, end);
    lemma_read_one_more(c, t4, 5, r4, end);
    lemma_read_one_more(b, t3, 6, r3, end);
    lemma_read_one_more(a, t2, 7, r2, end);
    assert(seq![a] + r2 =~= seq![a, b, c, d, e, f, g, h]);
}

/// A table is its heading and the lines of the alerts, one for each, in their order.
pub proof fn law_table_line_by_line(alerts: Seq<AlertView>, alert: AlertView)
    ensures
        csv_rows(Seq::empty()) == Seq::<char>::empty(),
        csv_rows(seq![alert] + alerts) == csv_row(alert) + csv_rows(alerts),
        all_lines(Seq::empty()) == Seq::<char>::empty(),
        all_lines(seq![alert] + alerts) == alert_lines(alert) + all_lines(alerts),
    decreases alerts.len(),
{
    let whole = seq![alert] + alerts;
    if alerts.len() == 0 {
        assert(whole.drop_last() =~= Seq::<AlertView>::empty());
        assert(whole.last() == alert);
        assert(csv_rows(whole.drop_last()) =~= Seq::<char>::empty());
        assert(all_lines(whole.drop_last()) =~= Seq::<char>::empty());
        assert(csv_rows(whole) =~= csv_row(alert) + csv_rows(alerts));
        assert(all_lines(whole) =~= alert_lines(alert) + all_lines(alerts));
    } else {
        law_table_line_by_line(alerts.drop_last(), alert);
        assert(whole.drop_last() =~= seq![alert] + alerts.drop_last());
        assert(csv_rows(whole) =~= csv_row(alert) + csv_rows(alerts));
        assert(all_lines(whole) =~= alert_lines(alert) + all_lines(alerts));
    }
}

/// The two formats, in small letters or in capitals, give a list of documents or a table with its
/// heading. Every other name is refused, and is in the refusal.
pub proof fn law_formats(alerts: &[Alert], format: &str, content: Result<String, UnknownFormat>)
    requires
        call_ensures(export_alerts, (alerts, format), content),
    ensures
        content is Ok <==> format@ == "json"@ || format@ == "JSON"@ || format@ == "csv"@ || format@
            == "CSV"@,
        format@ == "json"@ || format@ == "JSON"@ ==> (content matches Ok(s) && s@ == json_pretty(
            JsonTree::List(alert_views(alerts@).map_values(|a: AlertView| ecs_tree(a))),
        )),
        format@ == "csv"@ || format@ == "CSV"@ ==> (content matches Ok(s) && s@
            == "id,rule_id,severity,pid,timestamp,mitre_technique,description,action_taken\n"@
            + csv_rows(alert_views(alerts@))),
        content matches Err(e) ==> e.name@ == format@,
{
    reveal_strlit("json");
    reveal_strlit("JSON");
    reveal_strlit("csv");
    reveal_strlit("CSV");
    assert("json"@.len() == 4 && "csv"@.len() == 3 && "JSON"@.len() == 4 && "CSV"@.len() == 3);
}

/// The list of documents has one for each alert, in their order.
pub proof fn law_one_document_for_each(alerts: Seq<AlertView>, i: int)
    requires
        0 <= i < alerts.len(),
    ensures
        ecs_list(alerts) is List,
        ecs_list(alerts)->List_0.len() == alerts.len(),
        ecs_list(alerts)->List_0[i] == ecs_tree(alerts[i]),
{
}

/// The process of the daemon is what its file holds between blanks: its directory is looked up
/// under it, it is shown where it runs, and it is read as a number.
pub proof fn law_process_of_daemon(
    pid_text: &str,
    owned: Option<String>,
    alive: bool,
    before: Seq<char>,
    core: Seq<char>,
    behind: Seq<char>,
    path: String,
    state: DaemonState,
    pid: Result<i32, String>,
    n: i32,
)
    requires
        call_ensures(process_directory, (pid_text,), path),
        call_ensures(daemon_state, (owned, alive), state),
        call_ensures(daemon_pid, (pid_text,), pid),
        pid_text@ == before + core + behind,
        owned matches Some(s) ==> s@ == pid_text@,
        all_blank(before),
        all_blank(behind),
        core.len() > 0 ==> !is_whitespace(core[0]) && !is_whitespace(core[core.len() - 1]),
    ensures
        path@ == "/proc/"@ + core,
        owned is None ==> state is Unknown,
        owned is Some && alive ==> (state matches DaemonState::Running(shown) && shown@ == core),
        owned is Some && !alive ==> state is Dead,
        core == signed_decimal(n as int) ==> pid == Ok::<i32, String>(n),
        core.len() == 0 ==> pid is Err,
        core.len() > 0 && !('0' <= core[core.len() - 1] <= '9') ==> pid is Err,
        pid matches Err(message) ==> message@ == "PID invalide dans /run/edr.pid"@,
{
    law_only_ends_are_trimmed(before, core, behind);
    law_signed_decimal_reads_back(n as int, i32::MIN as int, i32::MAX as int);
    reveal_strlit("PID invalide dans ");
    reveal_strlit("/run/edr.pid");
    reveal_strlit("PID invalide dans /run/edr.pid");
    assert("PID invalide dans "@ + "/run/edr.pid"@ =~= "PID invalide dans /run/edr.pid"@);
    if core.len() > 0 && !('0' <= core[core.len() - 1] <= '9') {
        assert(!is_digit(core[core.len() - 1], 10));
        let digits = if core[0] == '-' || core[0] == '+' {
            core.drop_first()
        } else {
            core
        };
        if digits.len() > 0 {
            assert(digits[digits.len() - 1] == core[core.len() - 1]);
            assert(!is_digit(digits[digits.len() - 1], 10));
        }
    }
}

/// The text holds a part.
proof fn lemma_holds(text: Seq<char>, before: Seq<char>, part: Seq<char>, behind: Seq<char>)
    requires
        text == before + part + behind,
    ensures
        contains_text(text, part),
{
    lemma_contains_text(text, part);
}

/// The report on the state of the agent shows the process of the daemon, the three counts of the
/// database with its path, and the settings, each behind its own label.
pub proof fn law_what_the_report_shows(
    daemon: &DaemonState,
    database: &DbReport,
    config: &Config,
    report: String,
)
    requires
        call_ensures(status_report, (daemon, database, config), report),
    ensures
        *daemon matches DaemonState::Running(pid) ==> contains_text(
            report@,
            "  Daemon  : \x1b[32m● En cours\x1b[0m  (PID "@ + pid@ + ")\n"@,
        ),
        *daemon is Dead ==> contains_text(
            report@,
            "  Daemon  : \x1b[31m● Arrêté\x1b[0m  (PID file présent mais processus mort)\n"@,
        ),
        *daemon is Unknown ==> contains_text(
            report@,
            "  Daemon  : \x1b[33m● Inconnu\x1b[0m  (PID file absent)\n"@,
        ),
        *database matches DbReport::Counted(stats) ==> {
            &&& contains_text(
                report@,
                "  Événements   : "@ + padded_left(signed_decimal(stats.event_count as int), 10),
            )
            &&& contains_text(
                report@,
                "\n  Alertes      : "@ + padded_left(signed_decimal(stats.alert_count as int), 10),
            )
            &&& contains_text(
                report@,
                "\n  Critiques    : "@ + padded_left(signed_decimal(stats.critical_count as int), 10),
            )
            &&& contains_text(report@, "\n  DB           : "@ + config.storage.db_path@ + "\n"@)
        },
        *database matches DbReport::Unreadable(reason) ==> contains_text(
            report@,
            "  Erreur lecture DB : "@ + reason@ + "\n"@,
        ),
        *database matches DbReport::Unreachable(reason) ==> contains_text(
            report@,
            "\n  Base de données inaccessible : "@ + reason@ + "\n"@,
        ),
        contains_text(report@, "  Quarantaine  : "@ + config.agent.quarantine_dir@),
        contains_text(
            report@,
            "\n  Rétention    : "@ + decimal(config.storage.retention_days as nat)
                + " jours\n  Réseau       : "@ + if config.collector.network_monitoring {
                "true"@
            } else {
                "false"@
            },
        ),
{
    let head = STATUS_TITLE@;
    let first = daemon_text(*daemon);
    let second = database_text(*database, config.storage.db_path@);
    let third = settings_text(*config);
    assert(report@ =~= head + first + (second + third));
    lemma_holds(report@, head, first, second + third);
    lemma_database_shows(*database, config.storage.db_path@);
    lemma_settings_show(*config);
    lemma_holds_through(report@, head + first, second, third);
    lemma_holds_through(report@, head + first + second, third, Seq::empty());
}

/// What a part of a text holds, the text holds.
proof fn lemma_holds_through(
    text: Seq<char>,
    before: Seq<char>,
    middle: Seq<char>,
    behind: Seq<char>,
)
    requires
        text =~= before + middle + behind,
    ensures
        forall|part: Seq<char>| contains_text(middle, part) ==> #[trigger] contains_text(text, part),
{
    assert forall|part: Seq<char>| contains_text(middle, part) implies #[trigger] contains_text(
        text,
        part,
    ) by {
        let i = choose|i: int| occurs_at(middle, part, i);
        let at = before.len() + i;
        assert(text.subrange(at, at + part.len()) =~= middle.subrange(i, i + part.len()));
        assert(occurs_at(text, part, at));
    }
}

/// What the part of the report on the database shows.
proof fn lemma_database_shows(report: DbReport, db_path: Seq<char>)
    ensures
        report matches DbReport::Counted(stats) ==> {
            let text = database_text(report, db_path);
            &&& contains_text(
                text,
                "  Événements   : "@ + padded_left(signed_decimal(stats.event_count as int), 10),
            )
            &&& contains_text(
                text,
                "\n  Alertes      : "@ + padded_left(signed_decimal(stats.alert_count as int), 10),
            )
            &&& contains_text(
                text,
                "\n  Critiques    : "@ + padded_left(signed_decimal(stats.critical_count as int), 10),
            )
            &&& contains_text(text, "\n  DB           : "@ + db_path + "\n"@)
        },
        report matches DbReport::Unreadable(reason) ==> contains_text(
            database_text(report, db_path),
            "  Erreur lecture DB : "@ + reason@ + "\n"@,
        ),
        report matches DbReport::Unreachable(reason) ==> contains_text(
            database_text(report, db_path),
            "\n  Base de données inaccessible : "@ + reason@ + "\n"@,
        ),
{
    let text = database_text(report, db_path);
    let none = Seq::<char>::empty();
    if let DbReport::Counted(stats) = report {
        let title = "\n  ── Base de données ──────────────────\n"@;
        let a = "  Événements   : "@ + padded_left(signed_decimal(stats.event_count as int), 10);
        let b = "\n  Alertes      : "@ + padded_left(signed_decimal(stats.alert_count as int), 10);
        let c = "\n  Critiques    : "@ + padded_left(
            signed_decimal(stats.critical_count as int),
            10,
        );
        let d = "\n  DB           : "@ + db_path + "\n"@;
        assert(text =~= title + a + (b + c + d));
        lemma_holds(text, title, a, b + c + d);
        assert(text =~= (title + a) + b + (c + d));
        lemma_holds(text, title + a, b, c + d);
        assert(text =~= (title + a + b) + c + d);
        lemma_holds(text, title + a + b, c, d);
        assert(text =~= (title + a + b + c) + d + none);
        lemma_holds(text, title + a + b + c, d, none);
    } else {
        assert(text =~= none + text + none);
        lemma_holds(text, none, text, none);
    }
}

/// What the part of the report on the settings shows.
proof fn lemma_settings_show(config: Config)
    ensures
        contains_text(
            settings_text(config),
            "  Quarantaine  : "@ + config.agent.quarantine_dir@,
        ),
        contains_text(
            settings_text(config),
            "\n  Rétention    : "@ + decimal(config.storage.retention_days as nat)
                + " jours\n  Réseau       : "@ + if config.collector.network_monitoring {
                "true"@
            } else {
                "false"@
            },
        ),
{
    let text = settings_text(config);
    let title = "\n  ── Configuration ────────────────────\n"@;
    let a = "  Quarantaine  : "@ + config.agent.quarantine_dir@;
    let watched = if config.collector.network_monitoring {
        "true"@
    } else {
        "false"@
    };
    let b = "\n  Rétention    : "@ + decimal(config.storage.retention_days as nat)
        + " jours\n  Réseau       : "@ + watched;
    assert(text =~= title + a + (b + "\n\n"@));
    lemma_holds(text, title, a, b + "\n\n"@);
    assert(text =~= (title + a) + b + "\n\n"@);
    lemma_holds(text, title + a, b, "\n\n"@);
}

/// The line of an alert in the list has its columns at fixed places, as long as what stands in
/// them is not wider than they are: the number, the rule, the severity in its colour, the time,
/// the process, and at the end the description, cut to fifty bytes.
pub proof fn law_columns_of_the_list(alert: AlertView)
    requires
        alert.rule_id.len() <= 12,
        alert.id matches Some(id) ==> signed_decimal(id as int).len() <= 10,
        alert.timestamp.under("%Y-%m-%d %H:%M:%S"@).len() <= 25,
        decimal(alert.pid as nat).len() <= 14,
    ensures
        ({
            let line = alert_lines(alert);
            let described = truncated(alert.rule_description, 50);
            &&& line.subrange(0, 10) == padded(
                signed_decimal(
                    match alert.id {
                        Some(id) => id as int,
                        None => 0,
                    },
                ),
                10,
            )
            &&& line.subrange(11, 23) == padded(alert.rule_id, 12)
            &&& line.subrange(24, 29) == match alert.severity {
                Severity::Critical => "\x1b[31m"@,
                Severity::High => "\x1b[33m"@,
                Severity::Medium => "\x1b[34m"@,
                Severity::Low => "\x1b[37m"@,
            }
            &&& line.subrange(29, 39) == padded(alert.severity.label_text(), 10)
            &&& line.subrange(39, 44) == "\x1b[0m "@
            &&& line.subrange(44, 69) == padded(
                alert.timestamp.under("%Y-%m-%d %H:%M:%S"@),
                25,
            )
            &&& line.subrange(70, 84) == padded(decimal(alert.pid as nat), 14)
            &&& line.subrange(85, 85 + described.len() as int) == described
            &&& alert.mitre_technique is None ==> line.len() == 86 + described.len()
            &&& alert.mitre_technique matches Some(technique) ==> line.skip(
                86 + described.len() as int,
            ) == "           \x1b[36mMITRE ATT&CK: "@ + technique + "\x1b[0m\n"@
        }),
{
    reveal_strlit(" ");
    reveal_strlit("\n");
    reveal_strlit("\x1b[0m ");
    reveal_strlit("\x1b[31m");
    reveal_strlit("\x1b[33m");
    reveal_strlit("\x1b[34m");
    reveal_strlit("\x1b[37m");
    reveal_strlit("LOW");
    reveal_strlit("MEDIUM");
    reveal_strlit("HIGH");
    reveal_strlit("CRITICAL");
    let number = signed_decimal(
        match alert.id {
            Some(id) => id as int,
            None => 0,
        },
    );
    assert(number.len() <= 10) by {
        lemma_short_number();
    }
    let line = alert_lines(alert);
    let described = truncated(alert.rule_description, 50);
    let colour = match alert.severity {
        Severity::Critical => "\x1b[31m"@,
        Severity::High => "\x1b[33m"@,
        Severity::Medium => "\x1b[34m"@,
        Severity::Low => "\x1b[37m"@,
    };
    assert(line.subrange(0, 10) =~= padded(number, 10));
    assert(line.subrange(11, 23) =~= padded(alert.rule_id, 12));
    assert(line.subrange(24, 29) =~= colour);
    assert(line.subrange(29, 39) =~= padded(alert.severity.label_text(), 10));
    assert(line.subrange(39, 44) =~= "\x1b[0m "@);
    assert(line.subrange(44, 69) =~= padded(alert.timestamp.under("%Y-%m-%d %H:%M:%S"@), 25));
    assert(line.subrange(70, 84) =~= padded(decimal(alert.pid as nat), 14));
    assert(line.subrange(85, 85 + described.len() as int) =~= described);
    if let Some(technique) = alert.mitre_technique {
        assert(line.skip(86 + described.len() as int)
            =~= "           \x1b[36mMITRE ATT&CK: "@ + technique + "\x1b[0m\n"@);
    }
}

/// Nought is written with one digit.
proof fn lemma_short_number()
    ensures
        signed_decimal(0).len() == 1,
{
}

/// The list of alerts: the heading, the lines of the alerts, and how many they are. Where there
/// are none, it says so.
pub proof fn law_the_list(alerts: &[Alert], list: String)
    requires
        call_ensures(list_alerts, (alerts,), list),
    ensures
        alerts@.len() == 0 ==> list@ == "Aucune alerte trouvée.\n"@,
        alerts@.len() > 0 ==> list@ == ALERTS_TITLE@ + all_lines(alert_views(alerts@)) + "\n  "@
            + decimal(alerts@.len()) + " alerte(s) affichée(s)\n\n"@,
{
}

/// A text without commas, quotes and ends of lines stands in its column as it is; any other
/// stands between quotes.
pub proof fn law_quotes_only_where_needed(s: Seq<char>)
    ensures
        (forall|i: int|
            0 <= i < s.len() ==> (#[trigger] s[i]) != ',' && s[i] != '"' && s[i] != '\n')
            ==> csv_escaped(s) == s,
        (exists|i: int|
            0 <= i < s.len() && ((#[trigger] s[i]) == ',' || s[i] == '"' || s[i] == '\n'))
            ==> csv_escaped(s).len() >= s.len() + 2 && csv_escaped(s)[0] == '"' && csv_escaped(
            s,
        ).last() == '"',
{
    reveal_strlit("\"");
    reveal_strlit("\"\"");
    if exists|i: int|
        0 <= i < s.len() && ((#[trigger] s[i]) == ',' || s[i] == '"' || s[i] == '\n') {
        let i = choose|i: int|
            0 <= i < s.len() && ((#[trigger] s[i]) == ',' || s[i] == '"' || s[i] == '\n');
        assert(s.contains(s[i]));
        lemma_replaced_grows(s);
    }
}

/// Doubling quotes makes no text shorter.
proof fn lemma_replaced_grows(s: Seq<char>)
    ensures
        replaced(s, '"', "\"\""@).len() >= s.len(),
    decreases s.len(),
{
    reveal_strlit("\"\"");
    if s.len() > 0 {
        lemma_replaced_grows(s.drop_last());
    }
}

/// A name that stands for no format is told in the message.
pub proof fn law_unknown_format_is_told(refused: &UnknownFormat, message: String)
    requires
        call_ensures(UnknownFormat::message, (refused,), message),
    ensures
        message@ == "Format non supporté : "@ + refused.name@ + " (utiliser json ou csv)"@,
{
}

} // verus!
