//! What holds of the detection as a whole.

use super::defaults::default_table;
use super::meaning::lemma_signal_meanings;
use super::rule::{
    condition_holds, conditions_hold, fires, order_of, LogicOp, NumericOrder, RuleView,
    SignalsView, MAX_WHOLE,
};
use super::scoring::{composite_alert, Points};
use super::sequence::{completes, CHMOD_RULE, CONNECT_RULE};
use super::{
    all_alerts, firing, history_after, law_every_rule_is_tried, rule_scores, signals_of, History,
};
use crate::collector::network_proc::logged;
use crate::common::{AlertView, EdrEvent, Severity};
use crate::number::{decimal, law_decimal_reads_back, lemma_decimal_digits};
use crate::pattern::pattern_matches;
use crate::text::{contains_text, small_letters};
use crate::time::Timestamp;
use vstd::prelude::*;
use vstd::utf8::is_ascii_chars;

verus! {

/// A rule without conditions never fires.
pub proof fn law_no_conditions_no_alert(
    rule: RuleView,
    event: EdrEvent,
    signals: SignalsView,
    orders: Seq<NumericOrder>,
)
    requires
        rule.conditions.len() == 0,
    ensures
        !fires(rule, event, signals, orders),
{
}

/// Where no rule fires there is no alert, and no score changes.
pub proof fn law_quiet_event(
    rules: Seq<RuleView>,
    history: History,
    event: EdrEvent,
    signals: SignalsView,
    event_json: Seq<char>,
    orders: Seq<Seq<NumericOrder>>,
    stamps: Seq<Timestamp>,
    stamp: Timestamp,
    now: u128,
    threshold: u32,
)
    requires
        forall|i: int|
            0 <= i < rules.len() ==> !#[trigger] fires(rules[i], event, signals, orders[i]),
    ensures
        ({
            let places = firing(rules, event, signals, orders);
            &&& all_alerts(
                rules,
                places,
                history.scores,
                event,
                event_json,
                stamps,
                stamp,
                now,
                threshold,
            ).len() == 0
            &&& history_after(rules, places, history, event, now, threshold).scores
                == history.scores
        }),
{
    lemma_none_fires(rules, event, signals, orders);
    assert(rule_scores(rules, firing(rules, event, signals, orders)).len() == 0);
}

/// Where no rule fires, none is among those that do.
proof fn lemma_none_fires(
    rules: Seq<RuleView>,
    event: EdrEvent,
    signals: SignalsView,
    orders: Seq<Seq<NumericOrder>>,
)
    requires
        forall|i: int|
            0 <= i < rules.len() ==> !#[trigger] fires(rules[i], event, signals, orders[i]),
    ensures
        firing(rules, event, signals, orders).len() == 0,
    decreases rules.len(),
{
    if rules.len() > 0 {
        let front = rules.drop_last();
        assert forall|i: int| 0 <= i < front.len() implies !#[trigger] fires(
            front[i],
            event,
            signals,
            orders[i],
        ) by {
            assert(!fires(rules[i], event, signals, orders[i]));
        }
        lemma_none_fires(front, event, signals, orders);
        assert(!fires(rules[rules.len() - 1], event, signals, orders[rules.len() - 1]));
    }
}

/// Every alert for an event names its process. Those of the rules come first, one for each rule
/// that fires, and after them at most one of the score.
pub proof fn law_alerts_of_an_event(
    rules: Seq<RuleView>,
    places: Seq<int>,
    scores: Seq<Points>,
    event: EdrEvent,
    event_json: Seq<char>,
    stamps: Seq<Timestamp>,
    stamp: Timestamp,
    now: u128,
    threshold: u32,
)
    ensures
        ({
            let alerts = all_alerts(
                rules,
                places,
                scores,
                event,
                event_json,
                stamps,
                stamp,
                now,
                threshold,
            );
            let n = places.len();
            &&& n <= alerts.len() <= n + 1
            &&& forall|i: int|
                0 <= i < alerts.len() ==> (#[trigger] alerts[i]).pid == event.pid_of()
            &&& forall|i: int|
                0 <= i < n ==> (#[trigger] alerts[i]).event_json == event_json
            &&& alerts.len() == n + 1 ==> n > 0 && alerts[n as int] == composite_alert(
                event.pid_of(),
                threshold,
                stamp,
            )
        }),
{
}

/// None of the built-in rules is for the start or the end of a process.
pub proof fn law_defaults_ignore_fork_and_exit(
    event: EdrEvent,
    signals: SignalsView,
    orders: Seq<Seq<NumericOrder>>,
)
    requires
        event is Fork || event is Exit,
    ensures
        firing(default_table(), event, signals, orders).len() == 0,
{
    assert forall|i: int| 0 <= i < default_table().len() implies !#[trigger] fires(
        default_table()[i],
        event,
        signals,
        orders[i],
    ) by {}
    lemma_none_fires(default_table(), event, signals, orders);
}

/// The pattern matches the text; a pattern that cannot be compiled matches nothing.
pub open spec fn matched(pattern: Seq<char>, text: Seq<char>) -> bool {
    match pattern_matches(pattern) {
        Some(texts) => texts.contains(text),
        None => false,
    }
}

/// Each of the built-in rules is among those that fire if and only if it does.
proof fn lemma_defaults_tried(
    event: EdrEvent,
    signals: SignalsView,
    orders: Seq<Seq<NumericOrder>>,
)
    ensures
        forall|i: int|
            0 <= i < 10 ==> (#[trigger] firing(default_table(), event, signals, orders).contains(i)
                <==> fires(default_table()[i], event, signals, orders[i])),
{
    assert forall|i: int| 0 <= i < 10 implies (#[trigger] firing(
        default_table(),
        event,
        signals,
        orders,
    ).contains(i) <==> fires(default_table()[i], event, signals, orders[i])) by {
        law_every_rule_is_tried(default_table(), event, signals, orders, i);
    }
}

/// Which of the built-in rules for programs fire: the first for a program in a directory that
/// everybody can write to, the second for a shell of another user than root, the fifth for a
/// program whose arguments speak of `LD_PRELOAD` or whose environment holds it, the eighth for a
/// program that completes its sequence, and no others.
pub proof fn law_defaults_for_programs(
    event: EdrEvent,
    signals: SignalsView,
    orders: Seq<Seq<NumericOrder>>,
)
    requires
        event is Process,
    ensures
        ({
            let e = event->Process_0;
            let fired = firing(default_table(), event, signals, orders);
            &&& fired.contains(0) <==> matched("^(/tmp|/dev/shm)/"@, e.exe_path@)
            &&& fired.contains(1) <==> matched("/(bash|sh|zsh|dash|fish)$"@, e.exe_path@)
                && e.uid > 0
            &&& fired.contains(4) <==> contains_text(e.args@, "LD_PRELOAD"@) || signals.ld_preload
            &&& fired.contains(7) <==> signals.sequence == Some(CHMOD_RULE@)
            &&& forall|i: int|
                0 <= i < 10 && i != 0 && i != 1 && i != 4 && i != 7 ==> !#[trigger] fired.contains(
                    i,
                )
        }),
{
    let table = default_table();
    lemma_field_names();
    lemma_defaults_tried(event, signals, orders);
    lemma_signal_meanings();
    lemma_above_nought(event->Process_0.uid as nat, orders[1][1]);
    lemma_one_condition(table[0], event, signals, orders[0]);
    lemma_two_conditions(table[1], event, signals, orders[1]);
}

/// Which of the built-in rules for files fire: the third for a change of the user database, the
/// fourth for a change of a scheduled task, the ninth for a reading of the password hashes, the
/// tenth for a new library in a directory that everybody can write to, and no others.
pub proof fn law_defaults_for_files(
    event: EdrEvent,
    signals: SignalsView,
    orders: Seq<Seq<NumericOrder>>,
)
    requires
        event is File,
    ensures
        ({
            let e = event->File_0;
            let operation = e.operation.name_text();
            let fired = firing(default_table(), event, signals, orders);
            &&& fired.contains(2) <==> matched("^/etc/(passwd|shadow)$"@, e.path@) && matched(
                "Write|Create"@,
                operation,
            )
            &&& fired.contains(3) <==> matched(
                "(/var/spool/cron|/etc/cron\\.|\\.timer$)"@,
                e.path@,
            ) && matched("Write|Create"@, operation)
            &&& fired.contains(8) <==> e.path@ == "/etc/shadow"@ && matched(
                "Open|Read"@,
                operation,
            )
            &&& fired.contains(9) <==> matched("^/(tmp|dev/shm|var/tmp)/"@, e.path@) && matched(
                "\\.so(\\.\\d+)*$"@,
                e.path@,
            ) && operation == "Create"@
            &&& forall|i: int|
                0 <= i < 10 && i != 2 && i != 3 && i != 8 && i != 9 ==> !#[trigger] fired.contains(
                    i,
                )
        }),
{
    let table = default_table();
    lemma_field_names();
    lemma_defaults_tried(event, signals, orders);
    lemma_two_conditions(table[2], event, signals, orders[2]);
    lemma_two_conditions(table[3], event, signals, orders[3]);
    lemma_two_conditions(table[8], event, signals, orders[8]);
    lemma_three_conditions(table[9], event, signals, orders[9]);
}

/// Which of the built-in rules for connections fire: the sixth where the process has made more
/// than fifty within the window, the seventh for a connection that completes its sequence, and
/// no others.
pub proof fn law_defaults_for_connections(
    event: EdrEvent,
    signals: SignalsView,
    orders: Seq<Seq<NumericOrder>>,
)
    requires
        event is Network,
    ensures
        ({
            let fired = firing(default_table(), event, signals, orders);
            &&& fired.contains(5) <==> signals.connections > 50
            &&& fired.contains(6) <==> signals.sequence == Some(CONNECT_RULE@)
            &&& forall|i: int|
                0 <= i < 10 && i != 5 && i != 6 ==> !#[trigger] fired.contains(i)
        }),
{
    lemma_defaults_tried(event, signals, orders);
    lemma_signal_meanings();
}

/// An alert of the rule with the given name is among the alerts.
pub open spec fn reported(alerts: Seq<AlertView>, id: Seq<char>) -> bool {
    exists|k: int| 0 <= k < alerts.len() && (#[trigger] alerts[k]).rule_id == id
}

/// The names of the built-in rules differ, from each other and from that of the score.
pub(crate) proof fn lemma_default_names()
    ensures
        forall|i: int, j: int|
            0 <= i < 10 && 0 <= j < 10 && (#[trigger] default_table()[i]).id == (
            #[trigger] default_table()[j]).id ==> i == j,
        forall|i: int| 0 <= i < 10 ==> (#[trigger] default_table()[i]).id != "SCORE-COMPOSITE"@,
{
    reveal_strlit("R-001");
    reveal_strlit("R-002");
    reveal_strlit("R-003");
    reveal_strlit("R-004");
    reveal_strlit("R-005");
    reveal_strlit("R-006");
    reveal_strlit("R-007");
    reveal_strlit("R-008");
    reveal_strlit("R-009");
    reveal_strlit("R-010");
    reveal_strlit("SCORE-COMPOSITE");
    let table = default_table();
    assert(table[0].id[4] == '1' && table[1].id[4] == '2' && table[2].id[4] == '3'
        && table[3].id[4] == '4' && table[4].id[4] == '5' && table[5].id[4] == '6'
        && table[6].id[4] == '7' && table[7].id[4] == '8' && table[8].id[4] == '9'
        && table[9].id[4] == '0');
    assert forall|i: int| 0 <= i < 10 implies (#[trigger] table[i]).id.len() == 5 by {}
    assert("SCORE-COMPOSITE"@.len() == 15);
}

/// A built-in rule is reported if and only if it is among those that fire.
proof fn lemma_reported(
    places: Seq<int>,
    scores: Seq<Points>,
    event: EdrEvent,
    event_json: Seq<char>,
    stamps: Seq<Timestamp>,
    stamp: Timestamp,
    now: u128,
    threshold: u32,
    i: int,
)
    requires
        0 <= i < 10,
        forall|k: int| 0 <= k < places.len() ==> 0 <= #[trigger] places[k] < 10,
    ensures
        reported(
            all_alerts(
                default_table(),
                places,
                scores,
                event,
                event_json,
                stamps,
                stamp,
                now,
                threshold,
            ),
            default_table()[i].id,
        ) <==> places.contains(i),
{
    let table = default_table();
    let alerts = all_alerts(
        table,
        places,
        scores,
        event,
        event_json,
        stamps,
        stamp,
        now,
        threshold,
    );
    lemma_default_names();
    assert forall|k: int| 0 <= k < alerts.len() implies ((#[trigger] alerts[k]).rule_id
        == table[i].id <==> k < places.len() && places[k] == i) by {
        if k < places.len() {
            assert(alerts[k].rule_id == table[places[k]].id);
        } else {
            assert(alerts[k].rule_id == "SCORE-COMPOSITE"@);
        }
    }
    if places.contains(i) {
        let k = choose|k: int| 0 <= k < places.len() && places[k] == i;
        assert(alerts[k].rule_id == table[i].id);
    }
}

/// With the built-in rules, the sixth is reported if and only if the process has made more than
/// fifty connections within ten seconds, and the seventh and the eighth if and only if the event
/// completes their sequence, for whatever the process did before.
pub proof fn law_what_came_before_is_reported(
    history: History,
    event: EdrEvent,
    ld_preload: bool,
    event_json: Seq<char>,
    orders: Seq<Seq<NumericOrder>>,
    stamps: Seq<Timestamp>,
    stamp: Timestamp,
    now: u128,
    threshold: u32,
)
    ensures
        ({
            let signals = signals_of(history, event, ld_preload, now);
            let places = firing(default_table(), event, signals, orders);
            let alerts = all_alerts(
                default_table(),
                places,
                history.scores,
                event,
                event_json,
                stamps,
                stamp,
                now,
                threshold,
            );
            &&& reported(alerts, "R-006"@) <==> event is Network && logged(
                history.connections,
                now,
            ).len() > 50
            &&& reported(alerts, CONNECT_RULE@) <==> completes(history.notes, event, now) == Some(
                CONNECT_RULE@,
            )
            &&& reported(alerts, CHMOD_RULE@) <==> completes(history.notes, event, now) == Some(
                CHMOD_RULE@,
            )
        }),
{
    let signals = signals_of(history, event, ld_preload, now);
    let table = default_table();
    let places = firing(table, event, signals, orders);
    assert forall|k: int| 0 <= k < places.len() implies 0 <= #[trigger] places[k] < 10 by {
        law_every_rule_is_tried(table, event, signals, orders, places[k]);
        assert(places.contains(places[k]));
    }
    let scores = history.scores;
    lemma_reported(places, scores, event, event_json, stamps, stamp, now, threshold, 5);
    lemma_reported(places, scores, event, event_json, stamps, stamp, now, threshold, 6);
    lemma_reported(places, scores, event, event_json, stamps, stamp, now, threshold, 7);
    lemma_defaults_tried(event, signals, orders);
    lemma_signal_meanings();
    reveal_strlit("R-007");
    reveal_strlit("R-008");
    assert(CONNECT_RULE@[4] == '7' && CHMOD_RULE@[4] == '8');
}

/// How grave the alerts of the built-in rules are.
pub proof fn law_default_severities()
    ensures
        forall|i: int|
            0 <= i < default_table().len() ==> is_ascii_chars(
                (#[trigger] default_table()[i]).severity,
            ),
        default_table().map_values(|r: RuleView| Severity::of_ascii_or_medium(r.severity)) == seq![
            Severity::High,
            Severity::Critical,
            Severity::Critical,
            Severity::High,
            Severity::High,
            Severity::Medium,
            Severity::High,
            Severity::High,
            Severity::Critical,
            Severity::High,
        ],
{
    reveal_strlit("High");
    reveal_strlit("Critical");
    reveal_strlit("Medium");
    reveal_strlit("low");
    reveal_strlit("medium");
    reveal_strlit("high");
    reveal_strlit("critical");
    assert(small_letters("High"@) =~= "high"@);
    assert(small_letters("Critical"@) =~= "critical"@);
    assert(small_letters("Medium"@) =~= "medium"@);
    assert("low"@.len() == 3 && "medium"@.len() == 6 && "high"@.len() == 4 && "critical"@.len()
        == 8);
    assert(is_ascii_chars("High"@) && is_ascii_chars("Critical"@) && is_ascii_chars("Medium"@));
    assert(Severity::of_ascii_or_medium("High"@) == Severity::High);
    assert(Severity::of_ascii_or_medium("Critical"@) == Severity::Critical);
    assert(Severity::of_ascii_or_medium("Medium"@) == Severity::Medium);
}

/// The conditions of a rule that has one.
pub(crate) proof fn lemma_one_condition(
    rule: RuleView,
    event: EdrEvent,
    signals: SignalsView,
    orders: Seq<NumericOrder>,
)
    requires
        rule.conditions.len() == 1,
    ensures
        conditions_hold(rule, event, signals, orders) <==> condition_holds(
            rule.conditions[0],
            event,
            signals,
            orders[0],
        ),
{
    if condition_holds(rule.conditions[0], event, signals, orders[0]) {
        assert(conditions_hold(rule, event, signals, orders));
    }
}

/// The conditions of a rule that has two and asks for both.
pub(crate) proof fn lemma_two_conditions(
    rule: RuleView,
    event: EdrEvent,
    signals: SignalsView,
    orders: Seq<NumericOrder>,
)
    requires
        rule.conditions.len() == 2,
        rule.logic == LogicOp::And,
    ensures
        conditions_hold(rule, event, signals, orders) <==> condition_holds(
            rule.conditions[0],
            event,
            signals,
            orders[0],
        ) && condition_holds(rule.conditions[1], event, signals, orders[1]),
{
    if conditions_hold(rule, event, signals, orders) {
        assert(condition_holds(rule.conditions[0], event, signals, orders[0]));
        assert(condition_holds(rule.conditions[1], event, signals, orders[1]));
    }
}

/// The conditions of a rule that has two and asks for one of them.
pub(crate) proof fn lemma_either_condition(
    rule: RuleView,
    event: EdrEvent,
    signals: SignalsView,
    orders: Seq<NumericOrder>,
)
    requires
        rule.conditions.len() == 2,
        rule.logic == LogicOp::Or,
    ensures
        conditions_hold(rule, event, signals, orders) <==> condition_holds(
            rule.conditions[0],
            event,
            signals,
            orders[0],
        ) || condition_holds(rule.conditions[1], event, signals, orders[1]),
{
}

/// The conditions of a rule that has three and asks for all of them.
pub(crate) proof fn lemma_three_conditions(
    rule: RuleView,
    event: EdrEvent,
    signals: SignalsView,
    orders: Seq<NumericOrder>,
)
    requires
        rule.conditions.len() == 3,
        rule.logic == LogicOp::And,
    ensures
        conditions_hold(rule, event, signals, orders) <==> condition_holds(
            rule.conditions[0],
            event,
            signals,
            orders[0],
        ) && condition_holds(rule.conditions[1], event, signals, orders[1]) && condition_holds(
            rule.conditions[2],
            event,
            signals,
            orders[2],
        ),
{
    if conditions_hold(rule, event, signals, orders) {
        assert(condition_holds(rule.conditions[0], event, signals, orders[0]));
        assert(condition_holds(rule.conditions[1], event, signals, orders[1]));
        assert(condition_holds(rule.conditions[2], event, signals, orders[2]));
    }
}

/// A number is above nought as a text if and only if it is.
pub(crate) proof fn lemma_above_nought(n: nat, order: NumericOrder)
    requires
        n <= MAX_WHOLE,
    ensures
        order_of(decimal(n), "0"@, order) == NumericOrder::Greater <==> n > 0,
{
    reveal_strlit("0");
    assert("0"@ =~= decimal(0));
    law_decimal_reads_back(n, MAX_WHOLE as int);
    law_decimal_reads_back(0, MAX_WHOLE as int);
    lemma_decimal_digits(n);
}

/// The names of the fields differ.
pub(crate) proof fn lemma_field_names()
    ensures
        "args"@ != "exe_path"@,
        "uid"@ != "exe_path"@,
        "uid"@ != "args"@,
        "uid"@ != "cwd"@,
        "uid"@ != "username"@,
        "uid"@ != "pid"@,
        "operation"@ != "path"@,
{
    reveal_strlit("args");
    reveal_strlit("exe_path");
    reveal_strlit("uid");
    reveal_strlit("cwd");
    reveal_strlit("username");
    reveal_strlit("pid");
    reveal_strlit("operation");
    reveal_strlit("path");
    assert("uid"@[0] == 'u' && "cwd"@[0] == 'c' && "pid"@[0] == 'p');
    assert("args"@.len() == 4 && "exe_path"@.len() == 8 && "username"@.len() == 8
        && "operation"@.len() == 9 && "path"@.len() == 4);
}

} // verus!
