//! What holds of the engine that tries the rules.

use super::defaults::default_table;
use super::operators::{law_alert_tells_of_rule_and_event, law_compiling_changes_nothing};
use super::rule::{
    compiled_rule, condition_holds, default_score, field_text, fires, rule_views, LogicOp,
    NumericOrder, RuleView, SignalsView,
};
use super::{
    evaluated, firing, law_every_rule_is_tried, rule_alert, signals_of, History, Rule, RuleEngine,
};
use crate::common::{AlertView, EdrEvent};
use crate::time::Timestamp;
use vstd::prelude::*;

verus! {

/// To compile the patterns of a rule ahead changes nothing about when it fires, nor anything
/// else of it.
pub proof fn law_compiled_rules_fire_alike(
    rule: RuleView,
    event: EdrEvent,
    signals: SignalsView,
    orders: Seq<NumericOrder>,
)
    requires
        forall|i: int|
            0 <= i < rule.conditions.len() ==> (#[trigger] rule.conditions[i]).compiled_regex
                is None,
    ensures
        fires(compiled_rule(rule), event, signals, orders) <==> fires(rule, event, signals, orders),
        compiled_rule(rule).id == rule.id,
        compiled_rule(rule).description == rule.description,
        compiled_rule(rule).severity == rule.severity,
        compiled_rule(rule).event_type == rule.event_type,
        compiled_rule(rule).logic == rule.logic,
        compiled_rule(rule).action == rule.action,
        compiled_rule(rule).mitre_technique == rule.mitre_technique,
        compiled_rule(rule).score == rule.score,
        compiled_rule(rule).conditions.len() == rule.conditions.len(),
{
    let other = compiled_rule(rule);
    assert forall|i: int| 0 <= i < rule.conditions.len() implies #[trigger] condition_holds(
        other.conditions[i],
        event,
        signals,
        orders[i],
    ) == condition_holds(rule.conditions[i], event, signals, orders[i]) by {
        law_compiling_changes_nothing(rule.conditions[i], event, signals, orders[i]);
    }
    assert forall|i: int| 0 <= i < rule.conditions.len() implies #[trigger] condition_holds(
        rule.conditions[i],
        event,
        signals,
        orders[i],
    ) == condition_holds(other.conditions[i], event, signals, orders[i]) by {
        law_compiling_changes_nothing(rule.conditions[i], event, signals, orders[i]);
    }
}

/// An engine has the rules that it is given, in their order, remembers nothing at first, and
/// takes a hundred points for its threshold.
pub proof fn law_new_engines(rules: Vec<Rule>, engine: RuleEngine, count: usize, pid: u32, i: int)
    requires
        call_ensures(RuleEngine::from_rules, (rules,), engine),
        call_ensures(RuleEngine::rule_count, (&engine,), count),
        0 <= i < rules@.len(),
    ensures
        count == rules@.len(),
        engine.table().len() == rules@.len(),
        engine.table()[i] == compiled_rule(rules@[i]@),
        engine.limit() == 100,
        engine.history(pid) == History::none(),
{
    assert(rule_views(rules@)[i] == rules@[i]@);
}

/// The operands of a condition are the text of its field and its value.
pub proof fn law_operands(
    engine: &RuleEngine,
    event: &EdrEvent,
    table: Vec<Vec<(String, String)>>,
    i: int,
    j: int,
)
    requires
        call_ensures(RuleEngine::operands, (engine, event), table),
        0 <= i < engine.table().len(),
        0 <= j < engine.table()[i].conditions.len(),
    ensures
        table@.len() == engine.table().len(),
        table@[i]@.len() == engine.table()[i].conditions.len(),
        table@[i]@[j].0@ == field_text(*event, engine.table()[i].conditions[j].field),
        table@[i]@[j].1@ == engine.table()[i].conditions[j].value,
{
    let row = table@[i]@.map_values(|p: (String, String)| (p.0@, p.1@));
    assert(row.len() == table@[i]@.len());
    assert(row[j] == (table@[i]@[j].0@, table@[i]@[j].1@));
}

/// Every rule that fires for an event raises an alert that tells of it and of the event, and
/// every alert is that of a rule that fires, or the one of the score.
pub proof fn law_rules_raise_their_alerts(
    before: RuleEngine,
    after: RuleEngine,
    event: EdrEvent,
    ld_preload: bool,
    event_json: Seq<char>,
    orders: Seq<Seq<NumericOrder>>,
    alerts: Seq<AlertView>,
    stamps: Seq<Timestamp>,
    stamp: Timestamp,
    now: u128,
    i: int,
    k: int,
)
    requires
        evaluated(
            before,
            after,
            event,
            ld_preload,
            event_json,
            orders,
            alerts,
            stamps,
            stamp,
            now,
        ),
        0 <= i < before.table().len(),
        0 <= k < alerts.len(),
    ensures
        ({
            let signals = signals_of(before.history(event.pid_of()), event, ld_preload, now);
            &&& fires(before.table()[i], event, signals, orders[i]) ==> exists|n: int|
                0 <= n < alerts.len() && (#[trigger] alerts[n]) == rule_alert(
                    before.table()[i],
                    event,
                    event_json,
                    stamps[n],
                )
            &&& alerts[k].rule_id == "SCORE-COMPOSITE"@ || exists|n: int|
                0 <= n < before.table().len() && alerts[k].rule_id == (
                #[trigger] before.table()[n]).id && fires(
                    before.table()[n],
                    event,
                    signals,
                    orders[n],
                )
            &&& alerts[k].pid == event.pid_of()
        }),
{
    let table = before.table();
    let signals = signals_of(before.history(event.pid_of()), event, ld_preload, now);
    let places = firing(table, event, signals, orders);
    law_every_rule_is_tried(table, event, signals, orders, i);
    if fires(table[i], event, signals, orders[i]) {
        let n = choose|n: int| 0 <= n < places.len() && places[n] == i;
        assert(alerts[n] == rule_alert(table[i], event, event_json, stamps[n]));
    }
    if k < places.len() {
        let n = places[k];
        assert(places.contains(n));
        law_every_rule_is_tried(table, event, signals, orders, n);
        law_alert_tells_of_rule_and_event(table[n], event, event_json, stamps[k]);
        assert(alerts[k] == rule_alert(table[n], event, event_json, stamps[k]));
        assert(alerts[k].rule_id == table[n].id);
    }
}

/// A rule that does not say what it is worth is worth ten points, and one that does not say how
/// its conditions are taken together asks for all of them.
pub proof fn law_what_rules_leave_open(score: u32, logic: LogicOp)
    requires
        call_ensures(default_score, (), score),
        call_ensures(LogicOp::default, (), logic),
    ensures
        score == 10,
        logic == LogicOp::And,
{
}

/// An engine that is given no rules has the ten built-in ones, the same threshold, and remembers
/// nothing at first.
pub proof fn law_default_engines(engine: RuleEngine, count: usize, pid: u32)
    requires
        call_ensures(RuleEngine::with_defaults, (), engine),
        call_ensures(RuleEngine::rule_count, (&engine,), count),
    ensures
        count == 10,
        engine.table() == default_table(),
        engine.limit() == 100,
        engine.history(pid).scores.len() == 0,
        engine.history(pid).notes.len() == 0,
        engine.history(pid).connections.len() == 0,
{
}

} // verus!
