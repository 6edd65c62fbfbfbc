//! What conditions ask of an event, operator by operator and field by field.

use super::rule::{
    compiled, condition_holds, field_text, fires, of_type, operator_holds, whole_number,
    ConditionView, EventType, LogicOp, NumericOrder, Operator, RuleAction, RuleView, SignalsView,
};
use super::{firing, law_every_rule_is_tried, rule_alert, rule_alerts, rule_scores};
use crate::common::{EdrEvent, FileEvent, NetworkEvent, ProcessEvent};
use crate::number::{
    after_plus, decimal, is_digit, law_decimal_reads_back, lemma_decimal_digits,
};
use crate::pattern::pattern_matches;
use crate::text::{contains_text, occurs_at};
use crate::time::Timestamp;
use vstd::prelude::*;

verus! {

/// A condition on a field, whose pattern, if it has one, is not compiled ahead.
pub open spec fn asks(field: Seq<char>, operator: Operator, value: Seq<char>) -> ConditionView {
    ConditionView { field, operator, value, compiled_regex: None }
}

/// A condition with `not_equals` holds if and only if the one with `equals` on the same field and
/// value does not. It never holds where the text of the field is the value itself, and it holds
/// wherever the two differ.
pub proof fn law_not_equals_denies_equals(
    field: Seq<char>,
    value: Seq<char>,
    event: EdrEvent,
    signals: SignalsView,
    order: NumericOrder,
    other: NumericOrder,
)
    ensures
        condition_holds(asks(field, Operator::NotEquals, value), event, signals, order)
            <==> !condition_holds(asks(field, Operator::Equals, value), event, signals, other),
        field_text(event, field) == value ==> !condition_holds(
            asks(field, Operator::NotEquals, value),
            event,
            signals,
            order,
        ),
        field_text(event, field) != value ==> condition_holds(
            asks(field, Operator::NotEquals, value),
            event,
            signals,
            order,
        ),
{
}

/// Between any text and any value, exactly one of `equals` and `not_equals` holds, whatever else
/// is known: `equals` where the two are one text, `not_equals` where they are not.
pub proof fn law_equal_or_not(
    text: Seq<char>,
    value: Seq<char>,
    hit: bool,
    order: NumericOrder,
    signals: SignalsView,
)
    ensures
        operator_holds(Operator::NotEquals, text, value, hit, order, signals) != operator_holds(
            Operator::Equals,
            text,
            value,
            hit,
            order,
            signals,
        ),
        operator_holds(Operator::Equals, text, text, hit, order, signals),
        operator_holds(Operator::Equals, text, value, hit, order, signals) ==> text =~= value,
{
}

/// A condition with `starts_with` holds if and only if the text of the field is the value with
/// something behind it, be it nothing.
pub proof fn law_starts_with(
    field: Seq<char>,
    value: Seq<char>,
    event: EdrEvent,
    signals: SignalsView,
    order: NumericOrder,
)
    ensures
        condition_holds(asks(field, Operator::StartsWith, value), event, signals, order) <==> exists|
            rest: Seq<char>,
        |
            field_text(event, field) == #[trigger] (value + rest),
{
    let text = field_text(event, field);
    if condition_holds(asks(field, Operator::StartsWith, value), event, signals, order) {
        let rest = text.skip(value.len() as int);
        assert(text =~= value + rest);
    }
    if exists|rest: Seq<char>| text == #[trigger] (value + rest) {
        let rest = choose|rest: Seq<char>| text == #[trigger] (value + rest);
        assert(value =~= text.take(value.len() as int));
    }
}

/// A condition with `contains` holds if and only if the text of the field is the value with
/// something before it and something behind it, be it nothing.
pub proof fn law_contains(
    field: Seq<char>,
    value: Seq<char>,
    event: EdrEvent,
    signals: SignalsView,
    order: NumericOrder,
)
    ensures
        condition_holds(asks(field, Operator::Contains, value), event, signals, order) <==> exists|
            before: Seq<char>,
            behind: Seq<char>,
        |
            field_text(event, field) == #[trigger] (before + value + behind),
{
    let text = field_text(event, field);
    lemma_contains_text(text, value);
}

/// A text holds another where it is made of it with something before it and something behind it.
pub proof fn lemma_contains_text(text: Seq<char>, value: Seq<char>)
    ensures
        contains_text(text, value) <==> exists|before: Seq<char>, behind: Seq<char>|
            text == #[trigger] (before + value + behind),
{
    if contains_text(text, value) {
        let i = choose|i: int| occurs_at(text, value, i);
        let before = text.take(i);
        let behind = text.skip(i + value.len());
        assert(text =~= before + value + behind) by {
            assert(text.subrange(i, i + value.len()) =~= value);
        }
    }
    if exists|before: Seq<char>, behind: Seq<char>| text == #[trigger] (before + value + behind) {
        let (before, behind) = choose|before: Seq<char>, behind: Seq<char>|
            text == #[trigger] (before + value + behind);
        let i = before.len() as int;
        assert(text.subrange(i, i + value.len()) =~= value);
        assert(occurs_at(text, value, i));
    }
}

/// A field and a value that write whole numbers compare as those numbers do: exactly one of
/// greater, less and equal holds, whatever is said of how the texts compare otherwise.
pub proof fn law_numbers_compare(
    field: Seq<char>,
    n: nat,
    m: nat,
    event: EdrEvent,
    signals: SignalsView,
    order: NumericOrder,
)
    requires
        field_text(event, field) == decimal(n),
        n <= 9_007_199_254_740_992,
        m <= 9_007_199_254_740_992,
    ensures
        condition_holds(asks(field, Operator::Gt, decimal(m)), event, signals, order) <==> n > m,
        condition_holds(asks(field, Operator::Lt, decimal(m)), event, signals, order) <==> n < m,
        condition_holds(asks(field, Operator::Equals, decimal(m)), event, signals, order) <==> n
            == m,
{
    law_decimal_reads_back(n, 9_007_199_254_740_992);
    law_decimal_reads_back(m, 9_007_199_254_740_992);
    lemma_decimal_digits(n);
    lemma_decimal_digits(m);
}

/// Where the field or the value writes no whole number, the two compare as they are said to: a
/// text that is no number is neither greater nor less.
pub proof fn law_other_numbers_compare(
    field: Seq<char>,
    value: Seq<char>,
    event: EdrEvent,
    signals: SignalsView,
    order: NumericOrder,
)
    requires
        ({
            let text = field_text(event, field);
            ||| text.len() > 0 && !('0' <= text[text.len() - 1] <= '9')
            ||| value.len() > 0 && !('0' <= value[value.len() - 1] <= '9')
        }),
    ensures
        condition_holds(asks(field, Operator::Gt, value), event, signals, order) <==> order
            == NumericOrder::Greater,
        condition_holds(asks(field, Operator::Lt, value), event, signals, order) <==> order
            == NumericOrder::Less,
{
    let text = field_text(event, field);
    lemma_no_whole_number(text);
    lemma_no_whole_number(value);
}

/// A field without a text, or a value without one, compares as nought.
pub proof fn law_no_text_is_nought(
    field: Seq<char>,
    n: nat,
    event: EdrEvent,
    signals: SignalsView,
    order: NumericOrder,
)
    requires
        n <= 9_007_199_254_740_992,
    ensures
        field_text(event, field).len() == 0 ==> {
            &&& condition_holds(asks(field, Operator::Lt, decimal(n)), event, signals, order) <==> 0
                < n
            &&& !condition_holds(asks(field, Operator::Gt, decimal(n)), event, signals, order)
        },
        field_text(event, field) == decimal(n) ==> {
            &&& condition_holds(asks(field, Operator::Gt, Seq::empty()), event, signals, order)
                <==> n > 0
            &&& !condition_holds(asks(field, Operator::Lt, Seq::empty()), event, signals, order)
        },
{
    law_decimal_reads_back(n, 9_007_199_254_740_992);
    lemma_decimal_digits(n);
}

/// A text that ends in something else than a digit writes no number.
proof fn lemma_no_whole_number(s: Seq<char>)
    ensures
        s.len() > 0 && !('0' <= s[s.len() - 1] <= '9') ==> whole_number(s) is None,
{
    if s.len() > 0 && !('0' <= s[s.len() - 1] <= '9') {
        let digits = after_plus(s);
        if digits.len() > 0 {
            assert(digits[digits.len() - 1] == s[s.len() - 1]);
            assert(!is_digit(digits[digits.len() - 1], 10));
        }
    }
}

/// A condition with a pattern holds if and only if the pattern matches the text of the field. It
/// does so whether or not the pattern was compiled ahead, and never where there is no such
/// pattern.
pub proof fn law_patterns(
    field: Seq<char>,
    pattern: Seq<char>,
    event: EdrEvent,
    signals: SignalsView,
    order: NumericOrder,
)
    ensures
        condition_holds(asks(field, Operator::Regex, pattern), event, signals, order) <==> (
        pattern_matches(pattern) is Some && pattern_matches(pattern)->0.contains(
            field_text(event, field),
        )),
        condition_holds(compiled(asks(field, Operator::Regex, pattern)), event, signals, order)
            <==> condition_holds(asks(field, Operator::Regex, pattern), event, signals, order),
{
}

/// To compile the patterns ahead changes no answer of a condition.
pub proof fn law_compiling_changes_nothing(
    condition: ConditionView,
    event: EdrEvent,
    signals: SignalsView,
    order: NumericOrder,
)
    requires
        condition.compiled_regex is None,
    ensures
        condition_holds(compiled(condition), event, signals, order) <==> condition_holds(
            condition,
            event,
            signals,
            order,
        ),
        compiled(condition).field == condition.field,
        compiled(condition).operator == condition.operator,
        compiled(condition).value == condition.value,
{
}

/// The operators of the built-in rules look at no field: one counts connections, one names the
/// rule of a sequence, one asks for a preloaded library.
pub proof fn law_operators_on_signals(
    field: Seq<char>,
    value: Seq<char>,
    limit: u32,
    event: EdrEvent,
    signals: SignalsView,
    order: NumericOrder,
)
    ensures
        condition_holds(asks(field, Operator::MoreConnections(limit), value), event, signals, order)
            <==> signals.connections > limit,
        condition_holds(asks(field, Operator::Completes, value), event, signals, order) <==> (
        signals.sequence is Some && signals.sequence->0 == value),
        condition_holds(asks(field, Operator::Preloaded, value), event, signals, order)
            <==> signals.ld_preload,
{
}

/// The names of the fields differ.
proof fn lemma_names_differ()
    ensures
        ({
            let names = seq![
                "exe_path"@,
                "args"@,
                "cwd"@,
                "username"@,
                "pid"@,
                "uid"@,
                "path"@,
                "operation"@,
                "dst_ip"@,
                "src_ip"@,
                "dst_port"@,
            ];
            forall|i: int, j: int|
                0 <= i < names.len() && 0 <= j < names.len() && #[trigger] names[i]
                    == #[trigger] names[j] ==> i == j
        }),
{
    reveal_strlit("exe_path");
    reveal_strlit("args");
    reveal_strlit("cwd");
    reveal_strlit("username");
    reveal_strlit("pid");
    reveal_strlit("uid");
    reveal_strlit("path");
    reveal_strlit("operation");
    reveal_strlit("dst_ip");
    reveal_strlit("src_ip");
    reveal_strlit("dst_port");
    let names = seq![
        "exe_path"@,
        "args"@,
        "cwd"@,
        "username"@,
        "pid"@,
        "uid"@,
        "path"@,
        "operation"@,
        "dst_ip"@,
        "src_ip"@,
        "dst_port"@,
    ];
    assert(names[0][0] == 'e' && names[1][0] == 'a' && names[2][0] == 'c');
    assert(names[3].len() == 8 && names[3][1] == 's');
    assert(names[4].len() == 3 && names[4][0] == 'p');
    assert(names[5].len() == 3 && names[5][1] == 'i' && names[5][0] == 'u');
    assert(names[6].len() == 4 && names[6][0] == 'p');
    assert(names[7].len() == 9);
    assert(names[8].len() == 6 && names[8][0] == 'd');
    assert(names[9].len() == 6 && names[9][0] == 's');
    assert(names[10].len() == 8 && names[10][0] == 'd');
    assert(names[0].len() == 8);
}

/// Each field of the start of a program is its own: the path, the arguments, the directory and
/// the user as they stand, the two numbers in decimal. It has no other fields.
pub proof fn law_fields_of_programs(e: ProcessEvent, field: Seq<char>)
    ensures
        field_text(EdrEvent::Process(e), "exe_path"@) == e.exe_path@,
        field_text(EdrEvent::Process(e), "args"@) == e.args@,
        field_text(EdrEvent::Process(e), "cwd"@) == e.cwd@,
        field_text(EdrEvent::Process(e), "username"@) == e.username@,
        field_text(EdrEvent::Process(e), "pid"@) == decimal(e.pid as nat),
        field_text(EdrEvent::Process(e), "uid"@) == decimal(e.uid as nat),
        field_text(EdrEvent::Process(e), field).len() > 0 ==> field == "exe_path"@ || field
            == "args"@ || field == "cwd"@ || field == "username"@ || field == "pid"@ || field
            == "uid"@,
{
    lemma_names_differ();
    let names = seq![
        "exe_path"@,
        "args"@,
        "cwd"@,
        "username"@,
        "pid"@,
        "uid"@,
        "path"@,
        "operation"@,
        "dst_ip"@,
        "src_ip"@,
        "dst_port"@,
    ];
    assert(names[0] == "exe_path"@ && names[1] == "args"@ && names[2] == "cwd"@);
    assert(names[3] == "username"@ && names[4] == "pid"@ && names[5] == "uid"@);
}

/// Each field of an access to a file is its own: the path as it stands, the name of the
/// operation, the number of the process in decimal. It has no other fields.
pub proof fn law_fields_of_files(e: FileEvent, field: Seq<char>)
    ensures
        field_text(EdrEvent::File(e), "path"@) == e.path@,
        field_text(EdrEvent::File(e), "operation"@) == e.operation.name_text(),
        field_text(EdrEvent::File(e), "pid"@) == decimal(e.pid as nat),
        field_text(EdrEvent::File(e), field).len() > 0 ==> field == "path"@ || field
            == "operation"@ || field == "pid"@,
{
    lemma_names_differ();
    let names = seq![
        "exe_path"@,
        "args"@,
        "cwd"@,
        "username"@,
        "pid"@,
        "uid"@,
        "path"@,
        "operation"@,
        "dst_ip"@,
        "src_ip"@,
        "dst_port"@,
    ];
    assert(names[4] == "pid"@ && names[6] == "path"@ && names[7] == "operation"@);
}

/// Each field of a connection is its own: the two addresses as they stand, the port at the other
/// end and the number of the process in decimal. It has no other fields.
pub proof fn law_fields_of_connections(e: NetworkEvent, field: Seq<char>)
    ensures
        field_text(EdrEvent::Network(e), "dst_ip"@) == e.dst_ip@,
        field_text(EdrEvent::Network(e), "src_ip"@) == e.src_ip@,
        field_text(EdrEvent::Network(e), "dst_port"@) == decimal(e.dst_port as nat),
        field_text(EdrEvent::Network(e), "pid"@) == decimal(e.pid as nat),
        field_text(EdrEvent::Network(e), field).len() > 0 ==> field == "dst_ip"@ || field
            == "src_ip"@ || field == "dst_port"@ || field == "pid"@,
{
    lemma_names_differ();
    let names = seq![
        "exe_path"@,
        "args"@,
        "cwd"@,
        "username"@,
        "pid"@,
        "uid"@,
        "path"@,
        "operation"@,
        "dst_ip"@,
        "src_ip"@,
        "dst_port"@,
    ];
    assert(names[4] == "pid"@ && names[8] == "dst_ip"@);
    assert(names[9] == "src_ip"@ && names[10] == "dst_port"@);
}

/// The end of a process has no fields that a condition can ask for.
pub proof fn law_no_fields_of_ends(event: EdrEvent, field: Seq<char>)
    requires
        !(event is Process),
        !(event is File),
        !(event is Network),
    ensures
        field_text(event, field).len() == 0,
{
}

/// The rule `rule` with the condition at `i` as its only one.
pub open spec fn only(rule: RuleView, i: int) -> RuleView {
    RuleView { conditions: seq![rule.conditions[i]], ..rule }
}

/// A rule with one condition fires for the events of its kind for which the condition holds,
/// however its conditions are taken together.
pub proof fn law_one_condition(
    rule: RuleView,
    event: EdrEvent,
    signals: SignalsView,
    orders: Seq<NumericOrder>,
)
    requires
        rule.conditions.len() == 1,
    ensures
        fires(rule, event, signals, orders) <==> {
            &&& match rule.event_type {
                EventType::Process => event is Process,
                EventType::File => event is File,
                EventType::Network => event is Network,
                EventType::Any => true,
            }
            &&& condition_holds(rule.conditions[0], event, signals, orders[0])
        },
{
}

/// A rule whose conditions are all asked for fires if and only if the rule would fire with each
/// of them alone; one that asks for any of them, if and only if it would fire with some of them
/// alone.
pub proof fn law_all_or_any(
    rule: RuleView,
    event: EdrEvent,
    signals: SignalsView,
    orders: Seq<NumericOrder>,
)
    requires
        rule.conditions.len() > 0,
    ensures
        rule.logic == LogicOp::And ==> (fires(rule, event, signals, orders) <==> forall|i: int|
            0 <= i < rule.conditions.len() ==> fires(
                #[trigger] only(rule, i),
                event,
                signals,
                seq![orders[i]],
            )),
        rule.logic == LogicOp::Or ==> (fires(rule, event, signals, orders) <==> exists|i: int|
            0 <= i < rule.conditions.len() && fires(
                #[trigger] only(rule, i),
                event,
                signals,
                seq![orders[i]],
            )),
{
    assert forall|i: int| 0 <= i < rule.conditions.len() implies fires(
        #[trigger] only(rule, i),
        event,
        signals,
        seq![orders[i]],
    ) == (of_type(event, rule.event_type) && condition_holds(
        rule.conditions[i],
        event,
        signals,
        orders[i],
    )) by {
        law_one_condition(only(rule, i), event, signals, seq![orders[i]]);
    }
    if fires(rule, event, signals, orders) {
        assert forall|i: int| 0 <= i < rule.conditions.len() && rule.logic
            == LogicOp::And implies fires(
            #[trigger] only(rule, i),
            event,
            signals,
            seq![orders[i]],
        ) by {
            assert(condition_holds(rule.conditions[i], event, signals, orders[i]));
        }
        if rule.logic == LogicOp::Or {
            let i = choose|i: int|
                0 <= i < rule.conditions.len() && #[trigger] condition_holds(
                    rule.conditions[i],
                    event,
                    signals,
                    orders[i],
                );
            assert(fires(only(rule, i), event, signals, seq![orders[i]]));
        }
    } else if rule.logic == LogicOp::And {
        if forall|i: int|
            0 <= i < rule.conditions.len() ==> fires(
                #[trigger] only(rule, i),
                event,
                signals,
                seq![orders[i]],
            ) {
            assert(fires(only(rule, 0), event, signals, seq![orders[0]]));
            assert forall|i: int| 0 <= i < rule.conditions.len() implies #[trigger] condition_holds(
                rule.conditions[i],
                event,
                signals,
                orders[i],
            ) by {
                assert(fires(only(rule, i), event, signals, seq![orders[i]]));
            }
        }
    }
}

/// The rules that fire are reported in the order in which they stand, each once.
pub proof fn law_alerts_in_the_order_of_rules(
    rules: Seq<RuleView>,
    event: EdrEvent,
    signals: SignalsView,
    orders: Seq<Seq<NumericOrder>>,
    k: int,
    l: int,
)
    requires
        0 <= k < l < firing(rules, event, signals, orders).len(),
    ensures
        firing(rules, event, signals, orders)[k] < firing(rules, event, signals, orders)[l],
    decreases rules.len(),
{
    let front = rules.drop_last();
    let before = firing(front, event, signals, orders);
    if l < before.len() {
        law_alerts_in_the_order_of_rules(front, event, signals, orders, k, l);
    } else {
        law_every_rule_is_tried(front, event, signals, orders, before[k]);
        assert(before.contains(before[k]));
    }
}

/// The alert of a rule tells of that rule and of that event: the rule's name, description,
/// technique and action, the event's process, the event in JSON and the time. It has no number
/// yet.
pub proof fn law_alert_tells_of_rule_and_event(
    rule: RuleView,
    event: EdrEvent,
    event_json: Seq<char>,
    stamp: Timestamp,
)
    ensures
        ({
            let alert = rule_alert(rule, event, event_json, stamp);
            &&& alert.id is None
            &&& alert.rule_id == rule.id
            &&& alert.rule_description == rule.description
            &&& alert.mitre_technique == rule.mitre_technique
            &&& alert.event_json == event_json
            &&& alert.timestamp == stamp
            &&& alert.pid == match event {
                EdrEvent::Process(e) => e.pid,
                EdrEvent::File(e) => e.pid,
                EdrEvent::Network(e) => e.pid,
                EdrEvent::Exit(e) => e.pid,
                EdrEvent::Fork(e) => e.parent_pid,
            }
            &&& alert.action_taken == Some(
                match rule.action {
                    RuleAction::Alert => "Alert"@,
                    RuleAction::Kill => "Kill"@,
                    RuleAction::Quarantine => "Quarantine"@,
                    RuleAction::BlockIp => "BlockIp"@,
                },
            )
        }),
{
}

/// There is one alert for each rule that fires, with its own time, and one score for each.
pub proof fn law_one_alert_for_each_rule(
    rules: Seq<RuleView>,
    places: Seq<int>,
    event: EdrEvent,
    event_json: Seq<char>,
    stamps: Seq<Timestamp>,
    k: int,
)
    requires
        0 <= k < places.len(),
    ensures
        rule_alerts(rules, places, event, event_json, stamps).len() == places.len(),
        rule_alerts(rules, places, event, event_json, stamps)[k] == rule_alert(
            rules[places[k]],
            event,
            event_json,
            stamps[k],
        ),
        rule_scores(rules, places).len() == places.len(),
        rule_scores(rules, places)[k] == rules[places[k]].score,
{
}

} // verus!
