//! What holds of severities, and of the documents of alerts.

use crate::common::{ecs_severity, ecs_tree, AlertView, EdrEvent, Severity, UnknownSeverity};
use crate::json::{member, JsonTree};
use crate::text::{lowercase, small_letters};
use vstd::prelude::*;
use vstd::utf8::is_ascii_chars;

verus! {

/// A name in ASCII letters stands for a severity if and only if its small letters are those of
/// one of the four names. Any other is refused, or counts as medium.
pub proof fn law_names_of_severities(s: &str, found: Result<Severity, UnknownSeverity>, kept: Severity)
    requires
        call_ensures(Severity::from_str, (s,), found),
        call_ensures(Severity::from_str_or_medium, (s,), kept),
        is_ascii_chars(s@),
    ensures
        found == Ok::<Severity, UnknownSeverity>(Severity::Low) <==> small_letters(s@) == "low"@,
        found == Ok::<Severity, UnknownSeverity>(Severity::Medium) <==> small_letters(s@)
            == "medium"@,
        found == Ok::<Severity, UnknownSeverity>(Severity::High) <==> small_letters(s@) == "high"@,
        found == Ok::<Severity, UnknownSeverity>(Severity::Critical) <==> small_letters(s@)
            == "critical"@,
        found matches Ok(severity) ==> kept == severity,
        found is Err ==> kept == Severity::Medium,
        found matches Err(e) ==> e.name@ == lowercase(s@),
{
    reveal_strlit("low");
    reveal_strlit("medium");
    reveal_strlit("high");
    reveal_strlit("critical");
    assert("low"@.len() == 3 && "medium"@.len() == 6);
    assert("high"@.len() == 4 && "critical"@.len() == 8);
}

/// The name in capitals is, in small letters, the name that is read: a severity that is written
/// is read back, and two severities never have one name.
pub proof fn law_severity_reads_back(severity: Severity, other: Severity, s: &str, found: Result<
    Severity,
    UnknownSeverity,
>)
    requires
        call_ensures(Severity::from_str, (s,), found),
        s@ == severity.label_text(),
    ensures
        found == Ok::<Severity, UnknownSeverity>(severity),
        severity.label_text() == other.label_text() ==> severity == other,
        severity == Severity::Critical ==> severity.label_text() == "CRITICAL"@,
        severity == Severity::High ==> severity.label_text() == "HIGH"@,
        severity == Severity::Medium ==> severity.label_text() == "MEDIUM"@,
        severity == Severity::Low ==> severity.label_text() == "LOW"@,
{
    reveal_strlit("LOW");
    reveal_strlit("MEDIUM");
    reveal_strlit("HIGH");
    reveal_strlit("CRITICAL");
    assert("LOW"@.len() == 3 && "MEDIUM"@.len() == 6);
    assert("HIGH"@.len() == 4 && "CRITICAL"@.len() == 8);
}

/// The four severities stand in one order, from low to critical, and their numbers in documents
/// grow with it in even steps up to a hundred.
pub proof fn law_order_of_severities(a: Severity, b: Severity)
    ensures
        a.rank() < b.rank() <==> ecs_severity(a) < ecs_severity(b),
        a.rank() == b.rank() <==> a == b,
        ecs_severity(a) - ecs_severity(b) == 25 * (a.rank() - b.rank()),
        ecs_severity(Severity::Critical) == 100,
        Severity::Low.rank() < Severity::Medium.rank(),
        Severity::Medium.rank() < Severity::High.rank(),
        Severity::High.rank() < Severity::Critical.rank(),
        0 <= a.rank() <= 3,
{
}

/// What stands in a document under a list of names, one inside the other.
pub open spec fn found_at(tree: JsonTree, names: Seq<Seq<char>>) -> Option<JsonTree>
    decreases names.len(),
{
    if names.len() == 0 {
        Some(tree)
    } else {
        match found_at(tree, names.drop_last()) {
            Some(part) => member(part, names.last()),
            None => None,
        }
    }
}

/// What stands under one name, and under two and three.
proof fn lemma_found_at(tree: JsonTree, a: Seq<char>, b: Seq<char>, c: Seq<char>)
    ensures
        found_at(tree, seq![a]) == member(tree, a),
        member(tree, a) matches Some(part) ==> found_at(tree, seq![a, b]) == member(part, b),
        member(tree, a) matches Some(part) ==> (member(part, b) matches Some(inner) ==> found_at(
            tree,
            seq![a, b, c],
        ) == member(inner, c)),
{
    reveal_with_fuel(found_at, 4);
    assert(seq![a].drop_last() =~= Seq::<Seq<char>>::empty());
    assert(seq![a, b].drop_last() =~= seq![a]);
    assert(seq![a, b, c].drop_last() =~= seq![a, b]);
}

/// The names of the parts of a document differ.
proof fn lemma_part_names()
    ensures
        ({
            let names = seq![
                "@timestamp"@,
                "event"@,
                "rule"@,
                "process"@,
                "threat"@,
                "message"@,
                "labels"@,
            ];
            forall|i: int, j: int|
                0 <= i < 7 && 0 <= j < 7 && #[trigger] names[i] == #[trigger] names[j] ==> i == j
        }),
        "kind"@ != "severity"@,
        "category"@ != "severity"@,
        "type"@ != "severity"@,
        "kind"@ != "category"@,
        "kind"@ != "type"@,
        "category"@ != "type"@,
        "id"@ != "description"@,
{
    reveal_strlit("@timestamp");
    reveal_strlit("event");
    reveal_strlit("rule");
    reveal_strlit("process");
    reveal_strlit("threat");
    reveal_strlit("message");
    reveal_strlit("labels");
    reveal_strlit("kind");
    reveal_strlit("category");
    reveal_strlit("type");
    reveal_strlit("severity");
    reveal_strlit("id");
    reveal_strlit("description");
    let names = seq![
        "@timestamp"@,
        "event"@,
        "rule"@,
        "process"@,
        "threat"@,
        "message"@,
        "labels"@,
    ];
    assert(names[0].len() == 10 && names[1].len() == 5 && names[2].len() == 4);
    assert(names[3].len() == 7 && names[4].len() == 6 && names[5].len() == 7);
    assert(names[6].len() == 6 && names[4][0] == 't' && names[6][0] == 'l');
    assert(names[3][0] == 'p' && names[5][0] == 'm');
    assert("kind"@[0] == 'k' && "type"@[0] == 't' && "category"@[0] == 'c');
    assert("severity"@[0] == 's' && "id"@.len() == 2 && "description"@.len() == 11);
}

/// Where the document of an alert holds what: the time, how grave it is, the rule with its
/// description, the process, the technique, the message and what was done.
pub proof fn law_what_documents_hold(alert: AlertView)
    ensures
        ({
            let tree = ecs_tree(alert);
            &&& found_at(tree, seq!["@timestamp"@]) == Some(
                JsonTree::Text(alert.timestamp.rfc3339()),
            )
            &&& found_at(tree, seq!["event"@, "kind"@]) == Some(JsonTree::Text("alert"@))
            &&& found_at(tree, seq!["event"@, "severity"@]) == Some(
                JsonTree::Integer(
                    match alert.severity {
                        Severity::Low => 25,
                        Severity::Medium => 50,
                        Severity::High => 75,
                        Severity::Critical => 100,
                    },
                ),
            )
            &&& found_at(tree, seq!["event"@, "category"@]) == Some(
                JsonTree::List(seq![JsonTree::Text("intrusion_detection"@)]),
            )
            &&& found_at(tree, seq!["event"@, "type"@]) == Some(
                JsonTree::List(seq![JsonTree::Text("indicator"@)]),
            )
            &&& found_at(tree, seq!["rule"@, "id"@]) == Some(JsonTree::Text(alert.rule_id))
            &&& found_at(tree, seq!["rule"@, "description"@]) == Some(
                JsonTree::Text(alert.rule_description),
            )
            &&& found_at(tree, seq!["process"@, "pid"@]) == Some(
                JsonTree::Integer(alert.pid as int),
            )
            &&& found_at(tree, seq!["threat"@, "technique"@, "id"@]) == Some(
                match alert.mitre_technique {
                    Some(technique) => JsonTree::Text(technique),
                    None => JsonTree::Null,
                },
            )
            &&& found_at(tree, seq!["message"@]) == Some(JsonTree::Text(alert.rule_description))
            &&& found_at(tree, seq!["labels"@, "edr_action"@]) == Some(
                match alert.action_taken {
                    Some(action) => JsonTree::Text(action),
                    None => JsonTree::Null,
                },
            )
        }),
{
    let tree = ecs_tree(alert);
    lemma_part_names();
    let names = seq![
        "@timestamp"@,
        "event"@,
        "rule"@,
        "process"@,
        "threat"@,
        "message"@,
        "labels"@,
    ];
    assert(names[0] == "@timestamp"@ && names[1] == "event"@ && names[2] == "rule"@);
    assert(names[3] == "process"@ && names[4] == "threat"@ && names[5] == "message"@);
    assert(names[6] == "labels"@);
    lemma_found_at(tree, "@timestamp"@, "id"@, "id"@);
    lemma_found_at(tree, "event"@, "kind"@, "id"@);
    lemma_found_at(tree, "event"@, "severity"@, "id"@);
    lemma_found_at(tree, "event"@, "category"@, "id"@);
    lemma_found_at(tree, "event"@, "type"@, "id"@);
    lemma_found_at(tree, "rule"@, "id"@, "id"@);
    lemma_found_at(tree, "rule"@, "description"@, "id"@);
    lemma_found_at(tree, "process"@, "pid"@, "id"@);
    lemma_found_at(tree, "threat"@, "technique"@, "id"@);
    lemma_found_at(tree, "message"@, "id"@, "id"@);
    lemma_found_at(tree, "labels"@, "edr_action"@, "id"@);
}

/// Two kinds of events never have one name, and each kind has its own.
pub proof fn law_names_of_kinds(event: EdrEvent)
    ensures
        event.kind_text() == "process"@ <==> event is Process,
        event.kind_text() == "fork"@ <==> event is Fork,
        event.kind_text() == "exit"@ <==> event is Exit,
        event.kind_text() == "file"@ <==> event is File,
        event.kind_text() == "network"@ <==> event is Network,
{
    reveal_strlit("process");
    reveal_strlit("fork");
    reveal_strlit("exit");
    reveal_strlit("file");
    reveal_strlit("network");
    assert("process"@.len() == 7 && "process"@[0] == 'p' && "network"@[0] == 'n');
    assert("fork"@.len() == 4 && "exit"@.len() == 4 && "file"@.len() == 4);
    assert("fork"@[1] == 'o' && "exit"@[1] == 'x' && "file"@[1] == 'i');
}

/// A name that stands for no severity is told in the message.
pub proof fn law_unknown_severity_is_told(refused: &UnknownSeverity, message: String)
    requires
        call_ensures(UnknownSeverity::message, (refused,), message),
    ensures
        message@ == "Sévérité inconnue: "@ + refused.name@,
{
}

} // verus!
