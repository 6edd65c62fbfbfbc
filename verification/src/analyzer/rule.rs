//! Rules: what an event has to be like for an alert.

use crate::common::EdrEvent;
use crate::number::{decimal, read_unsigned, to_decimal, unsigned_value};
use crate::pattern::{
    all_literal, compile, is_match, matches_versions, pattern_matches, regex_matches, versioned,
    Simple,
};
use crate::text::{contains, contains_text, opt_text, same_text, starts_with, to_chars};
use regex::Regex;
use std::sync::Arc;
use vstd::prelude::*;

verus! {

/// The kind of event that a rule is for.
#[derive(Debug, Clone, Copy, PartialEq, Eq, Structural)]
pub enum EventType {
    Process,
    File,
    Network,
    Any,
}

/// How a condition compares a field with its value. The last three are for the built-in rules:
/// they look at no field, but at what is known of the event beyond that.
#[derive(Debug, Clone, Copy, PartialEq, Eq, Structural)]
pub enum Operator {
    StartsWith,
    Contains,
    Equals,
    Regex,
    Gt,
    Lt,
    NotEquals,
    /// The process has made more connections than this within the window of a scan.
    MoreConnections(u32),
    /// The event completes the sequence of the rule that the value names.
    Completes,
    /// The process has `LD_PRELOAD` in its environment.
    Preloaded,
}

/// How the conditions of a rule are taken together.
#[derive(Debug, Clone, Copy, PartialEq, Eq, Structural)]
pub enum LogicOp {
    And,
    Or,
}

impl Default for LogicOp {
    fn default() -> (logic: LogicOp)
        ensures
            logic == LogicOp::And,
    {
        LogicOp::And
    }
}

/// The largest whole number up to which floating point holds all of them.
pub const MAX_WHOLE: u64 = 9_007_199_254_740_992;

/// How two numbers compare. Where one of them is not a number, they are unordered.
#[derive(Debug, Clone, Copy, PartialEq, Eq, Structural)]
pub enum NumericOrder {
    Less,
    Equal,
    Greater,
    Unordered,
}

/// A condition on one field of an event.
#[derive(Debug, Clone)]
pub struct Condition {
    pub field: String,
    pub operator: Operator,
    pub value: String,
    pub compiled_regex: Option<Arc<Regex>>,
}

/// What a condition holds. Of a compiled pattern these are the texts that it matches.
#[verifier::ext_equal]
pub struct ConditionView {
    pub field: Seq<char>,
    pub operator: Operator,
    pub value: Seq<char>,
    pub compiled_regex: Option<Set<Seq<char>>>,
}

impl View for Condition {
    type V = ConditionView;

    open spec fn view(&self) -> ConditionView {
        ConditionView {
            field: self.field@,
            operator: self.operator,
            value: self.value@,
            compiled_regex: match self.compiled_regex {
                Some(re) => Some(regex_matches(*re)),
                None => None,
            },
        }
    }
}

/// What each condition of a list holds.
pub open spec fn condition_views(conditions: Seq<Condition>) -> Seq<ConditionView> {
    conditions.map_values(|c: Condition| c@)
}

/// What a rule asks for when it fires.
#[derive(Debug, Clone, Copy, PartialEq, Eq, Structural)]
pub enum RuleAction {
    Alert,
    Kill,
    Quarantine,
    BlockIp,
}

impl RuleAction {
    /// The name of the action.
    pub open spec fn name_text(self) -> Seq<char> {
        match self {
            RuleAction::Alert => "Alert"@,
            RuleAction::Kill => "Kill"@,
            RuleAction::Quarantine => "Quarantine"@,
            RuleAction::BlockIp => "BlockIp"@,
        }
    }

    /// The name of the action.
    pub fn name(&self) -> (s: &'static str)
        ensures
            s@ == self.name_text(),
    {
        match self {
            RuleAction::Alert => "Alert",
            RuleAction::Kill => "Kill",
            RuleAction::Quarantine => "Quarantine",
            RuleAction::BlockIp => "BlockIp",
        }
    }
}

/// A rule of the detection.
#[derive(Debug, Clone)]
pub struct Rule {
    pub id: String,
    pub description: String,
    pub severity: String,
    pub event_type: EventType,
    pub conditions: Vec<Condition>,
    pub logic: LogicOp,
    pub action: RuleAction,
    pub mitre_technique: Option<String>,
    /// What an alert of the rule adds to the score of its process.
    pub score: u32,
}

/// What a rule holds.
#[verifier::ext_equal]
pub struct RuleView {
    pub id: Seq<char>,
    pub description: Seq<char>,
    pub severity: Seq<char>,
    pub event_type: EventType,
    pub conditions: Seq<ConditionView>,
    pub logic: LogicOp,
    pub action: RuleAction,
    pub mitre_technique: Option<Seq<char>>,
    pub score: u32,
}

impl View for Rule {
    type V = RuleView;

    open spec fn view(&self) -> RuleView {
        RuleView {
            id: self.id@,
            description: self.description@,
            severity: self.severity@,
            event_type: self.event_type,
            conditions: condition_views(self.conditions@),
            logic: self.logic,
            action: self.action,
            mitre_technique: opt_text(self.mitre_technique),
            score: self.score,
        }
    }
}

/// What each rule of a list holds.
pub open spec fn rule_views(rules: Seq<Rule>) -> Seq<RuleView> {
    rules.map_values(|r: Rule| r@)
}

/// What a rule is worth that does not say so.
pub fn default_score() -> (score: u32)
    ensures
        score == 10,
{
    10
}

/// What is known of an event beyond what it holds itself.
#[derive(Debug, Clone, Copy)]
pub struct Signals {
    /// How many connections its process has made within the window of a scan, where it is one.
    pub connections: u32,
    /// The rule of the sequence that it completes.
    pub sequence: Option<&'static str>,
    /// Whether its process has `LD_PRELOAD` in its environment.
    pub ld_preload: bool,
}

/// What is known of an event beyond what it holds itself.
#[verifier::ext_equal]
pub struct SignalsView {
    pub connections: u32,
    pub sequence: Option<Seq<char>>,
    pub ld_preload: bool,
}

impl View for Signals {
    type V = SignalsView;

    open spec fn view(&self) -> SignalsView {
        SignalsView {
            connections: self.connections,
            sequence: match self.sequence {
                Some(rule) => Some(rule@),
                None => None,
            },
            ld_preload: self.ld_preload,
        }
    }
}

/// The text of a field of an event; nothing where the event has no such field.
pub open spec fn field_text(event: EdrEvent, field: Seq<char>) -> Seq<char> {
    match event {
        EdrEvent::Process(e) => if field == "exe_path"@ {
            e.exe_path@
        } else if field == "args"@ {
            e.args@
        } else if field == "cwd"@ {
            e.cwd@
        } else if field == "username"@ {
            e.username@
        } else if field == "pid"@ {
            decimal(e.pid as nat)
        } else if field == "uid"@ {
            decimal(e.uid as nat)
        } else {
            Seq::empty()
        },
        EdrEvent::File(e) => if field == "path"@ {
            e.path@
        } else if field == "operation"@ {
            e.operation.name_text()
        } else if field == "pid"@ {
            decimal(e.pid as nat)
        } else {
            Seq::empty()
        },
        EdrEvent::Network(e) => if field == "dst_ip"@ {
            e.dst_ip@
        } else if field == "src_ip"@ {
            e.src_ip@
        } else if field == "dst_port"@ {
            decimal(e.dst_port as nat)
        } else if field == "pid"@ {
            decimal(e.pid as nat)
        } else {
            Seq::empty()
        },
        _ => Seq::empty(),
    }
}

/// The text of a field of an event; nothing where the event has no such field.
pub fn extract_field(event: &EdrEvent, field: &str) -> (text: String)
    ensures
        text@ == field_text(*event, field@),
{
    match event {
        EdrEvent::Process(e) => {
            if same_text(field, "exe_path") {
                e.exe_path.clone()
            } else if same_text(field, "args") {
                e.args.clone()
            } else if same_text(field, "cwd") {
                e.cwd.clone()
            } else if same_text(field, "username") {
                e.username.clone()
            } else if same_text(field, "pid") {
                to_decimal(e.pid as u64)
            } else if same_text(field, "uid") {
                to_decimal(e.uid as u64)
            } else {
                String::new()
            }
        },
        EdrEvent::File(e) => {
            if same_text(field, "path") {
                e.path.clone()
            } else if same_text(field, "operation") {
                e.operation.name()
            } else if same_text(field, "pid") {
                to_decimal(e.pid as u64)
            } else {
                String::new()
            }
        },
        EdrEvent::Network(e) => {
            if same_text(field, "dst_ip") {
                e.dst_ip.clone()
            } else if same_text(field, "src_ip") {
                e.src_ip.clone()
            } else if same_text(field, "dst_port") {
                to_decimal(e.dst_port as u64)
            } else if same_text(field, "pid") {
                to_decimal(e.pid as u64)
            } else {
                String::new()
            }
        },
        _ => String::new(),
    }
}

/// The event is of the kind that a rule is for.
pub open spec fn of_type(event: EdrEvent, kind: EventType) -> bool {
    match kind {
        EventType::Any => true,
        EventType::Process => event is Process,
        EventType::File => event is File,
        EventType::Network => event is Network,
    }
}

/// Tells whether an event is of the kind that a rule is for.
pub fn event_matches_type(event: &EdrEvent, rule_type: &EventType) -> (yes: bool)
    ensures
        yes == of_type(*event, *rule_type),
{
    match rule_type {
        EventType::Any => true,
        EventType::Process => matches!(event, EdrEvent::Process(_)),
        EventType::File => matches!(event, EdrEvent::File(_)),
        EventType::Network => matches!(event, EdrEvent::Network(_)),
    }
}

/// The whole number that a text stands for, where it is one that floating point holds exactly;
/// no text stands for nought.
pub open spec fn whole_number(s: Seq<char>) -> Option<int> {
    if s.len() == 0 {
        Some(0)
    } else {
        unsigned_value(s, 10, MAX_WHOLE as int)
    }
}

/// How two texts compare as numbers, where both are whole.
pub open spec fn whole_order(a: Seq<char>, b: Seq<char>) -> Option<NumericOrder> {
    match (whole_number(a), whole_number(b)) {
        (Some(x), Some(y)) => Some(
            if x < y {
                NumericOrder::Less
            } else if x == y {
                NumericOrder::Equal
            } else {
                NumericOrder::Greater
            },
        ),
        _ => None,
    }
}

/// Reads a whole number.
fn read_whole(s: &str) -> (n: Option<u64>)
    ensures
        match n {
            Some(n) => whole_number(s@) == Some(n as int),
            None => whole_number(s@) is None,
        },
{
    if s.is_empty() {
        return Some(0);
    }
    read_unsigned(to_chars(s).as_slice(), 10, MAX_WHOLE)
}

/// Compares two texts as numbers, where both are whole.
pub fn compare_whole(a: &str, b: &str) -> (order: Option<NumericOrder>)
    ensures
        order == whole_order(a@, b@),
{
    match (read_whole(a), read_whole(b)) {
        (Some(x), Some(y)) => {
            if x < y {
                Some(NumericOrder::Less)
            } else if x == y {
                Some(NumericOrder::Equal)
            } else {
                Some(NumericOrder::Greater)
            }
        },
        _ => None,
    }
}

/// An operator holds between the text of a field and the value of a condition. `hit` tells
/// whether the pattern of the condition matches the text, `order` how the two compare as numbers,
/// and `signals` what is known of the event beyond its fields.
pub open spec fn operator_holds(
    operator: Operator,
    text: Seq<char>,
    value: Seq<char>,
    hit: bool,
    order: NumericOrder,
    signals: SignalsView,
) -> bool {
    match operator {
        Operator::StartsWith => value.is_prefix_of(text),
        Operator::Contains => contains_text(text, value),
        Operator::Equals => text == value,
        Operator::NotEquals => text != value,
        Operator::Regex => hit,
        Operator::Gt => order == NumericOrder::Greater,
        Operator::Lt => order == NumericOrder::Less,
        Operator::MoreConnections(limit) => signals.connections > limit,
        Operator::Completes => signals.sequence == Some(value),
        Operator::Preloaded => signals.ld_preload,
    }
}

/// Tells whether an operator holds between the text of a field and the value of a condition.
pub fn apply_operator(
    operator: Operator,
    text: &str,
    value: &str,
    hit: bool,
    order: NumericOrder,
    signals: &Signals,
) -> (holds: bool)
    ensures
        holds == operator_holds(operator, text@, value@, hit, order, signals@),
{
    match operator {
        Operator::StartsWith => starts_with(text, value),
        Operator::Contains => contains(text, value),
        Operator::Equals => same_text(text, value),
        Operator::NotEquals => !same_text(text, value),
        Operator::Regex => hit,
        Operator::Gt => order == NumericOrder::Greater,
        Operator::Lt => order == NumericOrder::Less,
        Operator::MoreConnections(limit) => signals.connections > limit,
        Operator::Completes => match signals.sequence {
            Some(rule) => same_text(rule, value),
            None => false,
        },
        Operator::Preloaded => signals.ld_preload,
    }
}

/// The pattern of a condition matches a text. A pattern that was not compiled ahead is compiled
/// now; one that cannot be compiled matches nothing.
pub open spec fn pattern_hit(condition: ConditionView, text: Seq<char>) -> bool {
    match condition.compiled_regex {
        Some(texts) => texts.contains(text),
        None => match pattern_matches(condition.value) {
            Some(texts) => texts.contains(text),
            None => false,
        },
    }
}

/// How the text of a field and the value of a condition compare as numbers. `order` is how they
/// do where they are not both whole.
pub open spec fn order_of(text: Seq<char>, value: Seq<char>, order: NumericOrder) -> NumericOrder {
    match whole_order(text, value) {
        Some(known) => known,
        None => order,
    }
}

/// A condition holds for an event.
pub open spec fn condition_holds(
    condition: ConditionView,
    event: EdrEvent,
    signals: SignalsView,
    order: NumericOrder,
) -> bool {
    let text = field_text(event, condition.field);
    operator_holds(
        condition.operator,
        text,
        condition.value,
        pattern_hit(condition, text),
        order_of(text, condition.value, order),
        signals,
    )
}

/// Tells whether a condition holds for an event. `order` is how the text of the field and the
/// value of the condition compare as numbers, where they are not both whole.
pub fn evaluate_condition(
    condition: &Condition,
    event: &EdrEvent,
    signals: &Signals,
    order: NumericOrder,
) -> (holds: bool)
    ensures
        holds == condition_holds(condition@, *event, signals@, order),
{
    let text = extract_field(event, condition.field.as_str());
    let hit = match condition.operator {
        Operator::Regex => match &condition.compiled_regex {
            Some(re) => is_match(re, text.as_str()),
            None => match compile(condition.value.as_str()) {
                Some(re) => is_match(&re, text.as_str()),
                None => false,
            },
        },
        _ => false,
    };
    let order = match compare_whole(text.as_str(), condition.value.as_str()) {
        Some(known) => known,
        None => order,
    };
    apply_operator(condition.operator, text.as_str(), condition.value.as_str(), hit, order, signals)
}

/// The conditions of a rule hold for an event. A rule without conditions never does.
pub open spec fn conditions_hold(
    rule: RuleView,
    event: EdrEvent,
    signals: SignalsView,
    orders: Seq<NumericOrder>,
) -> bool {
    &&& rule.conditions.len() > 0
    &&& match rule.logic {
        LogicOp::And => forall|i: int|
            0 <= i < rule.conditions.len() ==> #[trigger] condition_holds(
                rule.conditions[i],
                event,
                signals,
                orders[i],
            ),
        LogicOp::Or => exists|i: int|
            0 <= i < rule.conditions.len() && #[trigger] condition_holds(
                rule.conditions[i],
                event,
                signals,
                orders[i],
            ),
    }
}

/// Tells whether the conditions of a rule hold for an event. `orders` tells, condition by
/// condition, how the text of the field and the value compare as numbers, where they are not
/// both whole.
pub fn evaluate_rule(rule: &Rule, event: &EdrEvent, signals: &Signals, orders: &Vec<NumericOrder>) -> (holds:
    bool)
    requires
        orders@.len() == rule.conditions@.len(),
    ensures
        holds == conditions_hold(rule@, *event, signals@, orders@),
{
    if rule.conditions.len() == 0 {
        return false;
    }
    let ghost views = condition_views(rule.conditions@);
    let mut all: bool = true;
    let mut any: bool = false;
    for i in 0..rule.conditions.len()
        invariant
            views == condition_views(rule.conditions@),
            orders@.len() == rule.conditions@.len(),
            all == (forall|k: int|
                0 <= k < i ==> #[trigger] condition_holds(views[k], *event, signals@, orders@[k])),
            any == (exists|k: int|
                0 <= k < i && #[trigger] condition_holds(views[k], *event, signals@, orders@[k])),
    {
        let holds = evaluate_condition(&rule.conditions[i], event, signals, orders[i]);
        assert(views[i as int] == rule.conditions@[i as int]@);
        assert(holds == condition_holds(views[i as int], *event, signals@, orders@[i as int]));
        all = all && holds;
        any = any || holds;
    }
    match rule.logic {
        LogicOp::And => all,
        LogicOp::Or => any,
    }
}

/// A rule fires for an event.
pub open spec fn fires(
    rule: RuleView,
    event: EdrEvent,
    signals: SignalsView,
    orders: Seq<NumericOrder>,
) -> bool {
    of_type(event, rule.event_type) && conditions_hold(rule, event, signals, orders)
}

/// What the texts of the fields and the values of the conditions of a rule are.
pub open spec fn rule_operands(rule: RuleView, event: EdrEvent) -> Seq<(Seq<char>, Seq<char>)> {
    rule.conditions.map_values(
        |c: ConditionView| (field_text(event, c.field), c.value),
    )
}

/// A condition with its pattern compiled, where it has one that can be compiled.
pub open spec fn compiled(condition: ConditionView) -> ConditionView {
    match (condition.operator, pattern_matches(condition.value)) {
        (Operator::Regex, Some(texts)) => ConditionView { compiled_regex: Some(texts), ..condition },
        _ => condition,
    }
}

/// A rule with its patterns compiled.
pub open spec fn compiled_rule(rule: RuleView) -> RuleView {
    RuleView { conditions: rule.conditions.map_values(|c: ConditionView| compiled(c)), ..rule }
}

/// A pattern, if it is a simple one, matches as simple patterns do.
pub open spec fn simple_patterns_match(pattern: Seq<char>) -> bool {
    forall|simple: Simple|
        pattern == #[trigger] simple.written() && simple.well_formed() && pattern.len() <= 100
            ==> pattern_matches(pattern) == Some(simple.texts())
}

/// A pattern, if it is one of an ending with a version, matches as those do.
pub open spec fn versions_match(pattern: Seq<char>) -> bool {
    forall|ending: Seq<char>|
        pattern == #[trigger] versioned(ending) && all_literal(ending) && pattern.len() <= 100
            ==> (pattern_matches(pattern) matches Some(texts) && matches_versions(texts, ending))
}

/// Compiles the pattern of a condition, where it has one that can be compiled.
pub fn compile_condition(condition: &mut Condition)
    ensures
        final(condition)@ == compiled(old(condition)@),
        old(condition).operator == Operator::Regex ==> simple_patterns_match(
            old(condition).value@,
        ) && versions_match(old(condition).value@),
{
    if condition.operator == Operator::Regex {
        match compile(condition.value.as_str()) {
            Some(re) => {
                condition.compiled_regex = Some(Arc::new(re));
            },
            None => {},
        }
    }
}

} // verus!
