//! Detection: rules that are tried on every event, and what follows from their alerts.

pub mod defaults;
pub mod engine_laws;
pub mod history_laws;
pub mod laws;
pub mod meaning;
pub mod operators;
pub mod rule;
pub mod scoring;
pub mod sequence;
pub mod series;

use crate::collector::network_proc::{counted, logged, ScanDetector};
use crate::common::{alert_views, Alert, AlertView, EdrEvent, Severity};
use crate::time::Timestamp;
use vstd::prelude::*;
use vstd::utf8::is_ascii_chars;

pub use self::rule::{
    Condition, EventType, LogicOp, NumericOrder, Operator, Rule, RuleAction, Signals,
};

use self::defaults::{default_rules, default_table};
use self::meaning::defaults_mean;
use self::rule::{
    compile_condition, compiled, compiled_rule, evaluate_rule, event_matches_type,
    extract_field, fires, rule_operands, rule_views, ConditionView, RuleView, SignalsView,
};
use self::scoring::{composite_alerts, scored, Points, ScoringEngine};
use self::sequence::{completes, notes_after, SeqView, SequenceEngine};

verus! {

/// The score above which there is an alert of its own.
pub const SCORE_THRESHOLD: u32 = 100;

/// How the operands of each condition of each rule compare.
pub open spec fn order_table(orders: Seq<Vec<NumericOrder>>) -> Seq<Seq<NumericOrder>> {
    orders.map_values(|row: Vec<NumericOrder>| row@)
}

/// There is an order for each condition of each rule.
pub open spec fn one_for_each(rules: Seq<RuleView>, orders: Seq<Seq<NumericOrder>>) -> bool {
    &&& orders.len() == rules.len()
    &&& forall|i: int|
        0 <= i < rules.len() ==> (#[trigger] orders[i]).len() == rules[i].conditions.len()
}

/// What the detection remembers of a process: what it scored, what was noted of it for
/// sequences, and the times of its connections.
#[verifier::ext_equal]
pub struct History {
    pub scores: Seq<Points>,
    pub notes: Seq<SeqView>,
    pub connections: Seq<u128>,
}

impl History {
    /// Nothing is remembered.
    pub open spec fn none() -> History {
        History { scores: Seq::empty(), notes: Seq::empty(), connections: Seq::empty() }
    }
}

/// What is known of an event at the time `now`, from what its process did before.
pub open spec fn signals_of(
    history: History,
    event: EdrEvent,
    ld_preload: bool,
    now: u128,
) -> SignalsView {
    SignalsView {
        connections: if event is Network {
            counted(logged(history.connections, now))
        } else {
            0
        },
        sequence: completes(history.notes, event, now),
        ld_preload,
    }
}

/// The places of the rules that fire for an event, in the order of the rules.
pub open spec fn firing(
    rules: Seq<RuleView>,
    event: EdrEvent,
    signals: SignalsView,
    orders: Seq<Seq<NumericOrder>>,
) -> Seq<int>
    decreases rules.len(),
{
    if rules.len() == 0 {
        Seq::empty()
    } else {
        let before = firing(rules.drop_last(), event, signals, orders);
        let last = rules.len() - 1;
        if fires(rules[last], event, signals, orders[last]) {
            before.push(last)
        } else {
            before
        }
    }
}

/// What the rules at `places` score.
pub open spec fn rule_scores(rules: Seq<RuleView>, places: Seq<int>) -> Seq<u32> {
    places.map_values(|i: int| rules[i].score)
}

/// The alert of a rule that fires for an event.
pub open spec fn rule_alert(
    rule: RuleView,
    event: EdrEvent,
    event_json: Seq<char>,
    stamp: Timestamp,
) -> AlertView {
    AlertView {
        id: None,
        rule_id: rule.id,
        rule_description: rule.description,
        severity: Severity::of_text_or_medium(rule.severity),
        timestamp: stamp,
        pid: event.pid_of(),
        mitre_technique: rule.mitre_technique,
        event_json,
        action_taken: Some(rule.action.name_text()),
    }
}

/// The alerts of the rules at `places`. `stamps` are the times at which they are raised.
pub open spec fn rule_alerts(
    rules: Seq<RuleView>,
    places: Seq<int>,
    event: EdrEvent,
    event_json: Seq<char>,
    stamps: Seq<Timestamp>,
) -> Seq<AlertView> {
    Seq::new(
        places.len(),
        |k: int| rule_alert(rules[places[k]], event, event_json, stamps[k]),
    )
}

/// All alerts for an event: those of the rules that fire, then the one of the score, if the
/// rules' own scores bring it above the threshold.
pub open spec fn all_alerts(
    rules: Seq<RuleView>,
    places: Seq<int>,
    scores: Seq<Points>,
    event: EdrEvent,
    event_json: Seq<char>,
    stamps: Seq<Timestamp>,
    stamp: Timestamp,
    now: u128,
    threshold: u32,
) -> Seq<AlertView> {
    rule_alerts(rules, places, event, event_json, stamps) + composite_alerts(
        scores,
        event.pid_of(),
        rule_scores(rules, places),
        stamp,
        now,
        threshold,
    )
}

/// What is remembered of the process of an event after it.
pub open spec fn history_after(
    rules: Seq<RuleView>,
    places: Seq<int>,
    history: History,
    event: EdrEvent,
    now: u128,
    threshold: u32,
) -> History {
    History {
        scores: scored(history.scores, rule_scores(rules, places), now, threshold).0,
        notes: notes_after(history.notes, event, now),
        connections: if event is Network {
            logged(history.connections, now)
        } else {
            history.connections
        },
    }
}

/// The alerts of rules whose severity is named in ASCII letters have the severity of that name.
pub open spec fn severities_as_named(
    rules: Seq<RuleView>,
    places: Seq<int>,
    alerts: Seq<AlertView>,
) -> bool {
    forall|k: int|
        0 <= k < places.len() && is_ascii_chars(rules[places[k]].severity) ==> (
        #[trigger] alerts[k]).severity == Severity::of_ascii_or_medium(rules[places[k]].severity)
}

/// The same time for every alert that the rules can raise.
pub open spec fn same_stamps(rules: Seq<RuleView>, stamp: Timestamp) -> Seq<Timestamp> {
    Seq::new(rules.len(), |k: int| stamp)
}

/// The alert of a rule that fires for an event, raised at the given time. `event_json` is the
/// event in JSON.
pub fn build_alert_at(rule: &Rule, event: &EdrEvent, event_json: &str, stamp: Timestamp) -> (alert:
    Alert)
    ensures
        alert@ == rule_alert(rule@, *event, event_json@, stamp),
        is_ascii_chars(rule.severity@) ==> alert.severity == Severity::of_ascii_or_medium(
            rule.severity@,
        ),
{
    Alert {
        id: None,
        rule_id: rule.id.clone(),
        rule_description: rule.description.clone(),
        severity: Severity::from_str_or_medium(rule.severity.as_str()),
        timestamp: stamp,
        pid: event.pid(),
        mitre_technique: rule.mitre_technique.clone(),
        event_json: event_json.to_owned(),
        action_taken: Some(rule.action.name().to_owned()),
    }
}

/// The rules that fire for an event have places in the list, and there are no more of them than
/// rules.
proof fn lemma_firing_places(
    rules: Seq<RuleView>,
    event: EdrEvent,
    signals: SignalsView,
    orders: Seq<Seq<NumericOrder>>,
)
    ensures
        firing(rules, event, signals, orders).len() <= rules.len(),
        forall|k: int|
            0 <= k < firing(rules, event, signals, orders).len() ==> 0 <= #[trigger] firing(
                rules,
                event,
                signals,
                orders,
            )[k] < rules.len(),
    decreases rules.len(),
{
    if rules.len() > 0 {
        lemma_firing_places(rules.drop_last(), event, signals, orders);
    }
}

/// A rule is among those that fire if and only if its kind and conditions say so, and those that
/// fire have places in the list.
pub proof fn law_every_rule_is_tried(
    rules: Seq<RuleView>,
    event: EdrEvent,
    signals: SignalsView,
    orders: Seq<Seq<NumericOrder>>,
    i: int,
)
    ensures
        firing(rules, event, signals, orders).contains(i) <==> 0 <= i < rules.len() && fires(
            rules[i],
            event,
            signals,
            orders[i],
        ),
    decreases rules.len(),
{
    let all = firing(rules, event, signals, orders);
    lemma_firing_places(rules, event, signals, orders);
    if !(0 <= i < rules.len()) {
        if all.contains(i) {
            let k = choose|k: int| 0 <= k < all.len() && all[k] == i;
            assert(0 <= all[k] < rules.len());
        }
    } else {
        let front = rules.drop_last();
        let before = firing(front, event, signals, orders);
        let last = rules.len() - 1;
        lemma_firing_places(front, event, signals, orders);
        law_every_rule_is_tried(front, event, signals, orders, i);
        if i < last {
            assert(front[i] == rules[i]);
            if before.contains(i) {
                let k = choose|k: int| 0 <= k < before.len() && before[k] == i;
                assert(all[k] == i);
            }
            if all.contains(i) {
                let k = choose|k: int| 0 <= k < all.len() && all[k] == i;
                assert(before[k] == i);
            }
        } else {
            if fires(rules[i], event, signals, orders[i]) {
                assert(all[all.len() - 1] == i);
            }
            if all.contains(i) {
                let k = choose|k: int| 0 <= k < all.len() && all[k] == i;
                assert(k < before.len() ==> before[k] == i);
            }
        }
    }
}

/// What an event leads to: the alerts, and what is remembered after it. `stamps` and `stamp` are
/// the times at which the alerts are raised, and `now` is the time on the clock of the engine.
pub open spec fn evaluated(
    before: RuleEngine,
    after: RuleEngine,
    event: EdrEvent,
    ld_preload: bool,
    event_json: Seq<char>,
    orders: Seq<Seq<NumericOrder>>,
    alerts: Seq<AlertView>,
    stamps: Seq<Timestamp>,
    stamp: Timestamp,
    now: u128,
) -> bool {
    let table = before.table();
    let history = before.history(event.pid_of());
    let signals = signals_of(history, event, ld_preload, now);
    let places = firing(table, event, signals, orders);
    let limit = before.limit();
    &&& alerts == all_alerts(
        table,
        places,
        history.scores,
        event,
        event_json,
        stamps,
        stamp,
        now,
        limit,
    )
    &&& severities_as_named(table, places, alerts)
    &&& after.history(event.pid_of()) == history_after(table, places, history, event, now, limit)
}

/// The detection: rules that are tried on every event, with what is remembered of its process.
pub struct RuleEngine {
    rules: Vec<Rule>,
    scoring_engine: ScoringEngine,
    sequence_engine: SequenceEngine,
    scan_detector: ScanDetector,
}

impl RuleEngine {
    /// The rules of the engine.
    pub closed spec fn table(self) -> Seq<RuleView> {
        rule_views(self.rules@)
    }

    /// What is remembered of a process.
    pub closed spec fn history(self, pid: u32) -> History {
        History {
            scores: self.scoring_engine.log(pid),
            notes: self.sequence_engine.notes(pid),
            connections: self.scan_detector.log(pid),
        }
    }

    /// The number is a time on the clock of the engine, counted from when the engine was made.
    pub closed spec fn clock_shows(self, nanos: u128) -> bool {
        self.scoring_engine.clock_shows(nanos)
    }

    /// The score above which there is an alert of its own.
    pub closed spec fn limit(self) -> u32 {
        self.scoring_engine.limit()
    }

    /// An engine with rules whose patterns are compiled, which remembers nothing.
    fn of_compiled(rules: Vec<Rule>) -> (engine: RuleEngine)
        ensures
            engine.table() == rule_views(rules@),
            engine.limit() == SCORE_THRESHOLD,
            forall|pid: u32| #[trigger] engine.history(pid) == History::none(),
    {
        let engine = RuleEngine {
            rules,
            scoring_engine: ScoringEngine::new(SCORE_THRESHOLD),
            sequence_engine: SequenceEngine::new(),
            scan_detector: ScanDetector::new(),
        };
        assert forall|pid: u32| #[trigger] engine.history(pid) == History::none() by {
            assert(engine.scoring_engine.log(pid) =~= Seq::<Points>::empty());
            assert(engine.sequence_engine.notes(pid) =~= Seq::<SeqView>::empty());
            assert(engine.scan_detector.log(pid) =~= Seq::<u128>::empty());
        }
        engine
    }

    /// An engine with the given rules. Their patterns are compiled; one that cannot be compiled
    /// is left as it is.
    pub fn from_rules(rules: Vec<Rule>) -> (engine: RuleEngine)
        ensures
            engine.table() == rule_views(rules@).map_values(|r: RuleView| compiled_rule(r)),
            engine.limit() == SCORE_THRESHOLD,
            forall|pid: u32| #[trigger] engine.history(pid) == History::none(),
    {
        let ghost before = rule_views(rules@);
        let ghost wanted = before.map_values(|r: RuleView| compiled_rule(r));
        let mut done = rules;
        let n = done.len();
        for i in 0..n
            invariant
                n == done@.len(),
                before.len() == n,
                wanted == before.map_values(|r: RuleView| compiled_rule(r)),
                forall|k: int| 0 <= k < i ==> #[trigger] rule_views(done@)[k] == wanted[k],
                forall|k: int| i <= k < n ==> #[trigger] rule_views(done@)[k] == before[k],
        {
            let ghost earlier = rule_views(done@);
            assert(done@[i as int]@ == earlier[i as int]);
            compile_rule(&mut done[i]);
            assert(rule_views(done@) =~= earlier.update(i as int, wanted[i as int]));
        }
        assert(rule_views(done@) =~= wanted);
        RuleEngine::of_compiled(done)
    }

    /// An engine with the rules that the detection has when it is given none. They fire for what
    /// they are meant for, and for nothing else.
    pub fn with_defaults() -> (engine: RuleEngine)
        ensures
            engine.table() == default_table(),
            defaults_mean(),
            engine.limit() == SCORE_THRESHOLD,
            forall|pid: u32| #[trigger] engine.history(pid) == History::none(),
    {
        RuleEngine::of_compiled(default_rules())
    }

    /// How many rules there are.
    pub fn rule_count(&self) -> (n: usize)
        ensures
            n == self.table().len(),
    {
        self.rules.len()
    }

    /// The time on the clock of the engine.
    pub fn now(&self) -> (now: u128)
        ensures
            self.clock_shows(now),
    {
        self.scoring_engine.now()
    }

    /// What is known of an event at the time `now`, from what its process did before.
    /// `ld_preload` tells whether the process has `LD_PRELOAD` in its environment. Nothing is
    /// remembered.
    fn signals_at(&self, event: &EdrEvent, ld_preload: bool, now: u128) -> (signals: Signals)
        ensures
            signals@ == signals_of(self.history(event.pid_of()), *event, ld_preload, now),
    {
        let connections: u32 = match event {
            EdrEvent::Network(_) => self.scan_detector.count_at(event.pid(), now),
            _ => 0,
        };
        let sequence = self.sequence_engine.completed_at(event, now);
        Signals { connections, sequence, ld_preload }
    }

    /// For each condition of each rule, the text of its field and its value. How these compare
    /// as numbers is what [`RuleEngine::evaluate`] asks for.
    pub fn operands(&self, event: &EdrEvent) -> (table: Vec<Vec<(String, String)>>)
        ensures
            table@.len() == self.table().len(),
            forall|i: int|
                0 <= i < table@.len() ==> (#[trigger] table@[i])@.map_values(
                    |p: (String, String)| (p.0@, p.1@),
                ) == rule_operands(self.table()[i], *event),
    {
        let mut table: Vec<Vec<(String, String)>> = Vec::new();
        for i in 0..self.rules.len()
            invariant
                table@.len() == i,
                forall|k: int|
                    0 <= k < i ==> (#[trigger] table@[k])@.map_values(
                        |p: (String, String)| (p.0@, p.1@),
                    ) == rule_operands(self.rules@[k]@, *event),
        {
            table.push(operands_of(&self.rules[i], event));
        }
        table
    }

    /// The places of the rules that fire for an event.
    fn matching(&self, event: &EdrEvent, signals: &Signals, orders: &Vec<Vec<NumericOrder>>) -> (places:
        Vec<usize>)
        requires
            one_for_each(self.table(), order_table(orders@)),
        ensures
            places@.map_values(|p: usize| p as int) == firing(
                self.table(),
                *event,
                signals@,
                order_table(orders@),
            ),
    {
        let ghost rules = self.table();
        let ghost rows = order_table(orders@);
        let mut places: Vec<usize> = Vec::new();
        assert(places@.map_values(|p: usize| p as int) =~= Seq::<int>::empty());
        for i in 0..self.rules.len()
            invariant
                rules == self.table(),
                rows == order_table(orders@),
                one_for_each(rules, rows),
                places@.map_values(|p: usize| p as int) == firing(
                    rules.take(i as int),
                    *event,
                    signals@,
                    rows,
                ),
        {
            let ghost before = places@.map_values(|p: usize| p as int);
            proof {
                assert(rules.take(i + 1).drop_last() =~= rules.take(i as int));
                assert(rules[i as int] == self.rules@[i as int]@);
                assert(rows[i as int] == orders@[i as int]@);
            }
            if event_matches_type(event, &self.rules[i].event_type) {
                if evaluate_rule(&self.rules[i], event, signals, &orders[i]) {
                    places.push(i);
                    assert(places@.map_values(|p: usize| p as int) =~= before.push(i as int));
                }
            }
        }
        assert(rules.take(rules.len() as int) =~= rules);
        places
    }

    /// Raises the alerts of the rules at `places`, at the times `stamps`, and the one of the
    /// score, if it is passed. The event is remembered.
    fn raise(
        &mut self,
        places: &Vec<usize>,
        event: &EdrEvent,
        event_json: &str,
        stamps: &Vec<Timestamp>,
        stamp: Timestamp,
        now: u128,
    ) -> (alerts: Vec<Alert>)
        requires
            forall|k: int| 0 <= k < places@.len() ==> #[trigger] places@[k] < old(self).table().len(),
            stamps@.len() == places@.len(),
        ensures
            final(self).table() == old(self).table(),
            final(self).limit() == old(self).limit(),
            alert_views(alerts@) == all_alerts(
                old(self).table(),
                places@.map_values(|p: usize| p as int),
                old(self).history(event.pid_of()).scores,
                *event,
                event_json@,
                stamps@,
                stamp,
                now,
                old(self).limit(),
            ),
            severities_as_named(
                old(self).table(),
                places@.map_values(|p: usize| p as int),
                alert_views(alerts@),
            ),
            final(self).history(event.pid_of()) == history_after(
                old(self).table(),
                places@.map_values(|p: usize| p as int),
                old(self).history(event.pid_of()),
                *event,
                now,
                old(self).limit(),
            ),
            forall|other: u32|
                other != event.pid_of() ==> #[trigger] final(self).history(other) == old(
                    self,
                ).history(other),
            forall|n: u128| #[trigger] final(self).clock_shows(n) == old(self).clock_shows(n),
    {
        let ghost rules = self.table();
        let ghost fired = places@.map_values(|p: usize| p as int);
        let ghost own = rule_alerts(rules, fired, *event, event_json@, stamps@);
        let ghost wanted = rule_scores(rules, fired);
        let mut alerts: Vec<Alert> = Vec::new();
        let mut scores: Vec<u32> = Vec::new();
        for k in 0..places.len()
            invariant
                rules == self.table(),
                *self == *old(self),
                stamps@.len() == places@.len(),
                fired == places@.map_values(|p: usize| p as int),
                own == rule_alerts(rules, fired, *event, event_json@, stamps@),
                wanted == rule_scores(rules, fired),
                forall|k: int| 0 <= k < places@.len() ==> #[trigger] places@[k] < rules.len(),
                alert_views(alerts@) == own.take(k as int),
                scores@ == wanted.take(k as int),
                severities_as_named(rules, fired.take(k as int), alert_views(alerts@)),
        {
            let ghost before = alert_views(alerts@);
            assert(fired[k as int] == places@[k as int]);
            let rule = &self.rules[places[k]];
            assert(rules[fired[k as int]] == rule@);
            alerts.push(build_alert_at(rule, event, event_json, stamps[k]));
            scores.push(rule.score);
            assert(scores@ =~= wanted.take(k + 1));
            assert(alert_views(alerts@) =~= before.push(own[k as int]));
            assert(alert_views(alerts@) =~= own.take(k + 1));
            assert(severities_as_named(rules, fired.take(k + 1), alert_views(alerts@))) by {
                assert forall|n: int|
                    0 <= n < k + 1 && is_ascii_chars(rules[fired[n]].severity) implies (
                #[trigger] alert_views(alerts@)[n]).severity == Severity::of_ascii_or_medium(
                    rules[fired[n]].severity,
                ) by {
                    if n < k {
                        assert(alert_views(alerts@)[n] == before[n]);
                    }
                }
            }
        }
        assert(own.take(places@.len() as int) =~= own);
        assert(fired.take(places@.len() as int) =~= fired);
        assert(scores@ =~= wanted);
        let pid = event.pid();
        let mut composite = self.scoring_engine.score_at(pid, scores.as_slice(), stamp, now);
        let ghost extra = alert_views(composite@);
        alerts.append(&mut composite);
        assert(alert_views(alerts@) =~= own + extra);
        let _ = self.sequence_engine.process_at(event, now);
        match event {
            EdrEvent::Network(_) => {
                let _ = self.scan_detector.record(pid, now);
            },
            _ => {},
        }
        assert forall|other: u32| other != event.pid_of() implies #[trigger] self.history(other)
            == old(self).history(other) by {
            assert(self.scoring_engine.log(other) == old(self).scoring_engine.log(other));
            assert(self.sequence_engine.notes(other) == old(self).sequence_engine.notes(other));
            assert(self.scan_detector.log(other) == old(self).scan_detector.log(other));
        }
        alerts
    }

    /// The alerts for an event, all raised at `stamp`; `now` is the time on the clock of the
    /// engine, `event_json` the event in JSON, and `orders` how the operands of the conditions
    /// compare as numbers, where they are not both whole. `ld_preload` tells whether the process
    /// has `LD_PRELOAD` in its environment.
    pub fn evaluate_at(
        &mut self,
        event: &EdrEvent,
        ld_preload: bool,
        event_json: &str,
        orders: &Vec<Vec<NumericOrder>>,
        stamp: Timestamp,
        now: u128,
    ) -> (alerts: Vec<Alert>)
        requires
            one_for_each(old(self).table(), order_table(orders@)),
        ensures
            final(self).table() == old(self).table(),
            final(self).limit() == old(self).limit(),
            evaluated(
                *old(self),
                *final(self),
                *event,
                ld_preload,
                event_json@,
                order_table(orders@),
                alert_views(alerts@),
                same_stamps(old(self).table(), stamp),
                stamp,
                now,
            ),
            forall|other: u32|
                other != event.pid_of() ==> #[trigger] final(self).history(other) == old(
                    self,
                ).history(other),
            forall|n: u128| #[trigger] final(self).clock_shows(n) == old(self).clock_shows(n),
    {
        let signals = self.signals_at(event, ld_preload, now);
        let places = self.matching(event, &signals, orders);
        let mut stamps: Vec<Timestamp> = Vec::new();
        for k in 0..places.len()
            invariant
                stamps@.len() == k,
                forall|i: int| 0 <= i < k ==> stamps@[i] == stamp,
        {
            stamps.push(stamp);
        }
        let ghost fired = places@.map_values(|p: usize| p as int);
        proof {
            lemma_firing_places(self.table(), *event, signals@, order_table(orders@));
            assert forall|k: int| 0 <= k < places@.len() implies #[trigger] places@[k]
                < self.table().len() by {
                assert(fired[k] == places@[k]);
            }
            assert(rule_alerts(self.table(), fired, *event, event_json@, stamps@) =~= rule_alerts(
                self.table(),
                fired,
                *event,
                event_json@,
                same_stamps(self.table(), stamp),
            ));
        }
        self.raise(&places, event, event_json, &stamps, stamp, now)
    }

    /// The alerts for an event, each raised at the current time. `event_json` is the event in
    /// JSON, and `orders` how the operands of the conditions compare as numbers, where they are
    /// not both whole. `ld_preload` tells whether the process has `LD_PRELOAD` in its
    /// environment.
    pub fn evaluate(
        &mut self,
        event: &EdrEvent,
        ld_preload: bool,
        event_json: &str,
        orders: &Vec<Vec<NumericOrder>>,
    ) -> (alerts: Vec<Alert>)
        requires
            one_for_each(old(self).table(), order_table(orders@)),
        ensures
            final(self).table() == old(self).table(),
            final(self).limit() == old(self).limit(),
            exists|stamps: Seq<Timestamp>, stamp: Timestamp, now: u128|
                old(self).clock_shows(now) && #[trigger] evaluated(
                    *old(self),
                    *final(self),
                    *event,
                    ld_preload,
                    event_json@,
                    order_table(orders@),
                    alert_views(alerts@),
                    stamps,
                    stamp,
                    now,
                ),
            forall|other: u32|
                other != event.pid_of() ==> #[trigger] final(self).history(other) == old(
                    self,
                ).history(other),
            forall|n: u128| #[trigger] final(self).clock_shows(n) == old(self).clock_shows(n),
    {
        let now = self.now();
        let signals = self.signals_at(event, ld_preload, now);
        let places = self.matching(event, &signals, orders);
        let mut stamps: Vec<Timestamp> = Vec::new();
        for k in 0..places.len()
            invariant
                stamps@.len() == k,
        {
            stamps.push(Timestamp::now());
        }
        let stamp = Timestamp::now();
        let ghost fired = places@.map_values(|p: usize| p as int);
        proof {
            lemma_firing_places(self.table(), *event, signals@, order_table(orders@));
            assert forall|k: int| 0 <= k < places@.len() implies #[trigger] places@[k]
                < self.table().len() by {
                assert(fired[k] == places@[k]);
            }
        }
        let alerts = self.raise(&places, event, event_json, &stamps, stamp, now);
        assert(evaluated(
            *old(self),
            *self,
            *event,
            ld_preload,
            event_json@,
            order_table(orders@),
            alert_views(alerts@),
            stamps@,
            stamp,
            now,
        ));
        alerts
    }
}

/// Compiles the patterns of a rule.
fn compile_rule(rule: &mut Rule)
    ensures
        final(rule)@ == compiled_rule(old(rule)@),
{
    let ghost before = rule@.conditions;
    let ghost wanted = compiled_rule(rule@).conditions;
    let n = rule.conditions.len();
    for i in 0..n
        invariant
            n == rule.conditions@.len(),
            before.len() == n,
            wanted == before.map_values(|c: ConditionView| compiled(c)),
            rule@ == (RuleView { conditions: rule@.conditions, ..old(rule)@ }),
            forall|k: int| 0 <= k < i ==> #[trigger] rule@.conditions[k] == wanted[k],
            forall|k: int| i <= k < n ==> #[trigger] rule@.conditions[k] == before[k],
    {
        let ghost earlier = rule@.conditions;
        assert(rule.conditions@[i as int]@ == earlier[i as int]);
        compile_condition(&mut rule.conditions[i]);
        assert(rule@.conditions =~= earlier.update(i as int, wanted[i as int]));
    }
    assert(rule@.conditions =~= wanted);
}

/// For each condition of a rule, the text of its field and its value.
fn operands_of(rule: &Rule, event: &EdrEvent) -> (row: Vec<(String, String)>)
    ensures
        row@.map_values(|p: (String, String)| (p.0@, p.1@)) == rule_operands(rule@, *event),
{
    let ghost wanted = rule_operands(rule@, *event);
    let mut row: Vec<(String, String)> = Vec::new();
    for i in 0..rule.conditions.len()
        invariant
            wanted == rule_operands(rule@, *event),
            row@.map_values(|p: (String, String)| (p.0@, p.1@)) =~= wanted.take(i as int),
    {
        let ghost before = row@.map_values(|p: (String, String)| (p.0@, p.1@));
        let text = extract_field(event, rule.conditions[i].field.as_str());
        let value = rule.conditions[i].value.clone();
        assert(rule@.conditions[i as int] == rule.conditions@[i as int]@);
        assert(wanted[i as int] == (text@, value@));
        row.push((text, value));
        assert(row@.map_values(|p: (String, String)| (p.0@, p.1@)) =~= before.push(
            wanted[i as int],
        ));
        assert(wanted.take(i + 1) =~= wanted.take(i as int).push(wanted[i as int]));
    }
    assert(wanted.take(wanted.len() as int) =~= wanted);
    row
}

} // verus!
