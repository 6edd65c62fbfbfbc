//! The rules that the detection has when it is given none.

use super::meaning::{defaults_mean, lemma_meanings};
use super::rule::{
    compile_condition, compiled, condition_views, rule_views, simple_patterns_match,
    versions_match, Condition, ConditionView, EventType, LogicOp, Operator, Rule, RuleAction,
    RuleView,
};
use super::sequence::{CHMOD_RULE, CONNECT_RULE};
use vstd::prelude::*;

verus! {

/// A condition with its pattern compiled, where it has one.
pub open spec fn condition_of(
    field: Seq<char>,
    operator: Operator,
    value: Seq<char>,
) -> ConditionView {
    compiled(ConditionView { field, operator, value, compiled_regex: None })
}

/// A condition with its pattern compiled, where it has one.
fn condition(field: &str, operator: Operator, value: &str) -> (made: Condition)
    ensures
        made@ == condition_of(field@, operator, value@),
        operator == Operator::Regex ==> simple_patterns_match(value@) && versions_match(value@),
{
    let mut made = Condition {
        field: field.to_owned(),
        operator,
        value: value.to_owned(),
        compiled_regex: None,
    };
    compile_condition(&mut made);
    made
}

/// A list of one condition.
fn one(first: Condition) -> (list: Vec<Condition>)
    ensures
        condition_views(list@) == seq![first@],
{
    let mut list: Vec<Condition> = Vec::new();
    list.push(first);
    assert(condition_views(list@) =~= seq![first@]);
    list
}

/// A list of two conditions.
fn two(first: Condition, second: Condition) -> (list: Vec<Condition>)
    ensures
        condition_views(list@) == seq![first@, second@],
{
    let mut list: Vec<Condition> = Vec::new();
    list.push(first);
    list.push(second);
    assert(condition_views(list@) =~= seq![first@, second@]);
    list
}

/// A list of three conditions.
fn three(first: Condition, second: Condition, third: Condition) -> (list: Vec<Condition>)
    ensures
        condition_views(list@) == seq![first@, second@, third@],
{
    let mut list: Vec<Condition> = Vec::new();
    list.push(first);
    list.push(second);
    list.push(third);
    assert(condition_views(list@) =~= seq![first@, second@, third@]);
    list
}

/// A rule that raises an alert.
fn rule(
    id: &str,
    description: &str,
    severity: &str,
    event_type: EventType,
    conditions: Vec<Condition>,
    logic: LogicOp,
    technique: &str,
    score: u32,
) -> (made: Rule)
    ensures
        made@ == (RuleView {
            id: id@,
            description: description@,
            severity: severity@,
            event_type,
            conditions: condition_views(conditions@),
            logic,
            action: RuleAction::Alert,
            mitre_technique: Some(technique@),
            score,
        }),
{
    Rule {
        id: id.to_owned(),
        description: description.to_owned(),
        severity: severity.to_owned(),
        event_type,
        conditions,
        logic,
        action: RuleAction::Alert,
        mitre_technique: Some(technique.to_owned()),
        score,
    }
}

/// R-001: A program is executed from a directory that everybody can write to.
pub open spec fn run_from_tmp() -> RuleView {
    RuleView {
        id: "R-001"@,
        description: "Exécution d'un binaire depuis /tmp ou /dev/shm"@,
        severity: "High"@,
        event_type: EventType::Process,
        conditions: seq![
            condition_of("exe_path"@, Operator::Regex, "^(/tmp|/dev/shm)/"@),
        ],
        logic: LogicOp::Or,
        action: RuleAction::Alert,
        mitre_technique: Some("T1059"@),
        score: 25,
    }
}

/// R-002: A shell is executed by another user than root.
pub open spec fn shell_by_user() -> RuleView {
    RuleView {
        id: "R-002"@,
        description: "Shell interactif (bash/sh/zsh) spawné par un service non-interactif"@,
        severity: "Critical"@,
        event_type: EventType::Process,
        conditions: seq![
            condition_of("exe_path"@, Operator::Regex, "/(bash|sh|zsh|dash|fish)$"@),
            condition_of("uid"@, Operator::Gt, "0"@),
        ],
        logic: LogicOp::And,
        action: RuleAction::Alert,
        mitre_technique: Some("T1059.004"@),
        score: 40,
    }
}

/// R-003: The user database is changed.
pub open spec fn user_database_changed() -> RuleView {
    RuleView {
        id: "R-003"@,
        description: "Modification de /etc/passwd ou /etc/shadow"@,
        severity: "Critical"@,
        event_type: EventType::File,
        conditions: seq![
            condition_of("path"@, Operator::Regex, "^/etc/(passwd|shadow)$"@),
            condition_of("operation"@, Operator::Regex, "Write|Create"@),
        ],
        logic: LogicOp::And,
        action: RuleAction::Alert,
        mitre_technique: Some("T1098"@),
        score: 50,
    }
}

/// R-004: A scheduled task is created or modified.
pub open spec fn schedule_changed() -> RuleView {
    RuleView {
        id: "R-004"@,
        description: "Création ou modification d'une crontab ou timer systemd"@,
        severity: "High"@,
        event_type: EventType::File,
        conditions: seq![
            condition_of("path"@, Operator::Regex, "(/var/spool/cron|/etc/cron\\.|\\.timer$)"@),
            condition_of("operation"@, Operator::Regex, "Write|Create"@),
        ],
        logic: LogicOp::And,
        action: RuleAction::Alert,
        mitre_technique: Some("T1053.003"@),
        score: 30,
    }
}

/// R-005: A program is told to load a library ahead of the others, by its arguments or by its
/// environment.
pub open spec fn preload() -> RuleView {
    RuleView {
        id: "R-005"@,
        description: "Variable d'environnement LD_PRELOAD définie"@,
        severity: "High"@,
        event_type: EventType::Process,
        conditions: seq![
            condition_of("args"@, Operator::Contains, "LD_PRELOAD"@),
            condition_of(""@, Operator::Preloaded, ""@),
        ],
        logic: LogicOp::Or,
        action: RuleAction::Alert,
        mitre_technique: Some("T1574.006"@),
        score: 35,
    }
}

/// R-006: A process makes more than fifty connections within ten seconds.
pub open spec fn scan() -> RuleView {
    RuleView {
        id: "R-006"@,
        description: "Processus effectuant > 50 connexions réseau en 10 secondes"@,
        severity: "Medium"@,
        event_type: EventType::Network,
        conditions: seq![
            condition_of(""@, Operator::MoreConnections(50), ""@),
        ],
        logic: LogicOp::Or,
        action: RuleAction::Alert,
        mitre_technique: Some("T1046"@),
        score: 15,
    }
}

/// R-007: A process makes a connection less than two seconds after it executed a program.
pub open spec fn connection_after_program() -> RuleView {
    RuleView {
        id: "R-007"@,
        description: "Connexion réseau établie immédiatement après execve (< 2s)"@,
        severity: "High"@,
        event_type: EventType::Network,
        conditions: seq![
            condition_of(""@, Operator::Completes, CONNECT_RULE@),
        ],
        logic: LogicOp::Or,
        action: RuleAction::Alert,
        mitre_technique: Some("T1071"@),
        score: 30,
    }
}

/// R-008: A process executes a program less than five seconds after it changed the mode of its
/// file.
pub open spec fn program_after_chmod() -> RuleView {
    RuleView {
        id: "R-008"@,
        description: "Chmod +x sur un fichier suivi de son exécution (< 5s)"@,
        severity: "High"@,
        event_type: EventType::Process,
        conditions: seq![
            condition_of(""@, Operator::Completes, CHMOD_RULE@),
        ],
        logic: LogicOp::Or,
        action: RuleAction::Alert,
        mitre_technique: Some("T1222"@),
        score: 30,
    }
}

/// R-009: The password hashes are read.
pub open spec fn hashes_read() -> RuleView {
    RuleView {
        id: "R-009"@,
        description: "Lecture de /etc/shadow par un processus non autorisé"@,
        severity: "Critical"@,
        event_type: EventType::File,
        conditions: seq![
            condition_of("path"@, Operator::Equals, "/etc/shadow"@),
            condition_of("operation"@, Operator::Regex, "Open|Read"@),
        ],
        logic: LogicOp::And,
        action: RuleAction::Alert,
        mitre_technique: Some("T1003.008"@),
        score: 50,
    }
}

/// R-010: A library is created in a directory that everybody can write to.
pub open spec fn library_in_tmp() -> RuleView {
    RuleView {
        id: "R-010"@,
        description: "Création d'un fichier .so dans un répertoire world-writable"@,
        severity: "High"@,
        event_type: EventType::File,
        conditions: seq![
            condition_of("path"@, Operator::Regex, "^/(tmp|dev/shm|var/tmp)/"@),
            condition_of("path"@, Operator::Regex, "\\.so(\\.\\d+)*$"@),
            condition_of("operation"@, Operator::Equals, "Create"@),
        ],
        logic: LogicOp::And,
        action: RuleAction::Alert,
        mitre_technique: Some("T1574.001"@),
        score: 40,
    }
}

/// The rules that the detection has when it is given none.
pub open spec fn default_table() -> Seq<RuleView> {
    seq![
        run_from_tmp(),
        shell_by_user(),
        user_database_changed(),
        schedule_changed(),
        preload(),
        scan(),
        connection_after_program(),
        program_after_chmod(),
        hashes_read(),
        library_in_tmp(),
    ]
}

/// The rules that the detection has when it is given none. They fire for what they are meant
/// for, and for nothing else.
pub fn default_rules() -> (rules: Vec<Rule>)
    ensures
        rule_views(rules@) == default_table(),
        defaults_mean(),
{
    let mut rules: Vec<Rule> = Vec::new();
    rules.push(
        rule(
            "R-001",
            "Exécution d'un binaire depuis /tmp ou /dev/shm",
            "High",
            EventType::Process,
            one(condition("exe_path", Operator::Regex, "^(/tmp|/dev/shm)/")),
            LogicOp::Or,
            "T1059",
            25,
        ),
    );
    rules.push(
        rule(
            "R-002",
            "Shell interactif (bash/sh/zsh) spawné par un service non-interactif",
            "Critical",
            EventType::Process,
            two(
                condition("exe_path", Operator::Regex, "/(bash|sh|zsh|dash|fish)$"),
                condition("uid", Operator::Gt, "0"),
            ),
            LogicOp::And,
            "T1059.004",
            40,
        ),
    );
    rules.push(
        rule(
            "R-003",
            "Modification de /etc/passwd ou /etc/shadow",
            "Critical",
            EventType::File,
            two(
                condition("path", Operator::Regex, "^/etc/(passwd|shadow)$"),
                condition("operation", Operator::Regex, "Write|Create"),
            ),
            LogicOp::And,
            "T1098",
            50,
        ),
    );
    rules.push(
        rule(
            "R-004",
            "Création ou modification d'une crontab ou timer systemd",
            "High",
            EventType::File,
            two(
                condition("path", Operator::Regex, "(/var/spool/cron|/etc/cron\\.|\\.timer$)"),
                condition("operation", Operator::Regex, "Write|Create"),
            ),
            LogicOp::And,
            "T1053.003",
            30,
        ),
    );
    rules.push(
        rule(
            "R-005",
            "Variable d'environnement LD_PRELOAD définie",
            "High",
            EventType::Process,
            two(
                condition("args", Operator::Contains, "LD_PRELOAD"),
                condition("", Operator::Preloaded, ""),
            ),
            LogicOp::Or,
            "T1574.006",
            35,
        ),
    );
    rules.push(
        rule(
            "R-006",
            "Processus effectuant > 50 connexions réseau en 10 secondes",
            "Medium",
            EventType::Network,
            one(condition("", Operator::MoreConnections(50), "")),
            LogicOp::Or,
            "T1046",
            15,
        ),
    );
    rules.push(
        rule(
            "R-007",
            "Connexion réseau établie immédiatement après execve (< 2s)",
            "High",
            EventType::Network,
            one(condition("", Operator::Completes, CONNECT_RULE)),
            LogicOp::Or,
            "T1071",
            30,
        ),
    );
    rules.push(
        rule(
            "R-008",
            "Chmod +x sur un fichier suivi de son exécution (< 5s)",
            "High",
            EventType::Process,
            one(condition("", Operator::Completes, CHMOD_RULE)),
            LogicOp::Or,
            "T1222",
            30,
        ),
    );
    rules.push(
        rule(
            "R-009",
            "Lecture de /etc/shadow par un processus non autorisé",
            "Critical",
            EventType::File,
            two(
                condition("path", Operator::Equals, "/etc/shadow"),
                condition("operation", Operator::Regex, "Open|Read"),
            ),
            LogicOp::And,
            "T1003.008",
            50,
        ),
    );
    rules.push(
        rule(
            "R-010",
            "Création d'un fichier .so dans un répertoire world-writable",
            "High",
            EventType::File,
            three(
                condition("path", Operator::Regex, "^/(tmp|dev/shm|var/tmp)/"),
                condition("path", Operator::Regex, "\\.so(\\.\\d+)*$"),
                condition("operation", Operator::Equals, "Create"),
            ),
            LogicOp::And,
            "T1574.001",
            40,
        ),
    );
    assert(rule_views(rules@) =~= default_table());
    proof {
        lemma_meanings();
    }
    rules
}

} // verus!
