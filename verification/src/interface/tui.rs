//! The dashboard: what it shows, and how it changes.

use crate::common::{Alert, Severity};
use crate::number::{decimal, signed_decimal, to_decimal, to_signed_decimal};
use crate::storage::DbStats;
use crate::text::{pad, padded, truncate, truncated};
use crate::time::{SECOND, TIME_OF_DAY};
use vstd::prelude::*;

verus! {

/// For how many seconds the dashboard shows the number of events.
pub const HISTORY: usize = 60;

/// How many alerts the dashboard shows.
pub const SHOWN_ALERTS: usize = 10;

/// How many hours back the shown alerts reach.
pub const SHOWN_HOURS: u64 = 24;

/// A colour of the terminal.
#[derive(Debug, Clone, Copy, PartialEq, Eq, Structural)]
pub enum Colour {
    Red,
    Yellow,
    Blue,
    Green,
    Gray,
}

/// What the dashboard shows.
#[derive(Debug)]
pub struct Dashboard {
    /// The number of events of each of the last seconds.
    pub events_per_sec: Vec<u64>,
    /// The number of events at the last refresh; none before the first count.
    pub last_event_count: Option<i64>,
    pub recent_alerts: Vec<Alert>,
    pub total_events: i64,
    pub total_alerts: i64,
    pub critical_alerts: i64,
    /// How often the dashboard was refreshed.
    pub tick: u64,
}

/// How many events came since the last count; none where there are fewer now, and none at the
/// first count.
pub open spec fn growth(before: Option<i64>, now: i64) -> int {
    match before {
        Some(count) if now > count => now - count,
        _ => 0,
    }
}

/// A history after one more second: the oldest number goes where there would be too many.
pub open spec fn extended(history: Seq<u64>, n: u64) -> Seq<u64> {
    if history.len() + 1 > HISTORY {
        history.push(n).drop_first()
    } else {
        history.push(n)
    }
}

/// What a dashboard shows after a refresh with what the database says. What it does not say stays
/// as it was.
pub open spec fn refreshed(
    before: Dashboard,
    after: Dashboard,
    stats: Option<DbStats>,
    alerts: Option<Vec<Alert>>,
) -> bool {
    &&& after.tick == before.tick + 1
    &&& match stats {
        Some(s) => {
            &&& after.events_per_sec@ == extended(
                before.events_per_sec@,
                growth(before.last_event_count, s.event_count) as u64,
            )
            &&& after.last_event_count == Some(s.event_count)
            &&& after.total_events == s.event_count
            &&& after.total_alerts == s.alert_count
            &&& after.critical_alerts == s.critical_count
        },
        None => {
            &&& after.events_per_sec == before.events_per_sec
            &&& after.last_event_count == before.last_event_count
            &&& after.total_events == before.total_events
            &&& after.total_alerts == before.total_alerts
            &&& after.critical_alerts == before.critical_alerts
        },
    }
    &&& after.recent_alerts == match alerts {
        Some(list) => list,
        None => before.recent_alerts,
    }
}

impl Dashboard {
    /// The history covers the whole time that is shown.
    pub open spec fn well_formed(self) -> bool {
        self.events_per_sec@.len() == HISTORY
    }

    /// A dashboard before its first refresh.
    pub fn new() -> (dashboard: Dashboard)
        ensures
            dashboard.well_formed(),
            dashboard.events_per_sec@ == Seq::new(HISTORY as nat, |i: int| 0u64),
            dashboard.last_event_count is None,
            dashboard.recent_alerts@.len() == 0,
            dashboard.total_events == 0,
            dashboard.total_alerts == 0,
            dashboard.critical_alerts == 0,
            dashboard.tick == 0,
    {
        let mut events_per_sec: Vec<u64> = Vec::new();
        for i in 0..HISTORY
            invariant
                events_per_sec@ == Seq::new(i as nat, |k: int| 0u64),
        {
            events_per_sec.push(0);
            assert(events_per_sec@ =~= Seq::new((i + 1) as nat, |k: int| 0u64));
        }
        Dashboard {
            events_per_sec,
            last_event_count: None,
            recent_alerts: Vec::new(),
            total_events: 0,
            total_alerts: 0,
            critical_alerts: 0,
            tick: 0,
        }
    }

    /// Takes over what the database says. What it does not say stays as it was. The numbers of
    /// events have to lie within a 64-bit difference of each other.
    pub fn refresh(&mut self, stats: Option<DbStats>, alerts: Option<Vec<Alert>>)
        requires
            old(self).well_formed(),
            old(self).tick < u64::MAX,
            stats matches Some(s) ==> (old(self).last_event_count matches Some(count) ==> i64::MIN
                <= s.event_count - count <= i64::MAX),
        ensures
            final(self).well_formed(),
            refreshed(*old(self), *final(self), stats, alerts),
    {
        self.tick = self.tick + 1;
        if let Some(stats) = stats {
            let delta: i64 = match self.last_event_count {
                Some(count) => stats.event_count - count,
                None => 0,
            };
            let delta: u64 = if delta > 0 {
                delta as u64
            } else {
                0
            };
            self.events_per_sec.push(delta);
            if self.events_per_sec.len() > HISTORY {
                self.events_per_sec.remove(0);
            }
            assert(self.events_per_sec@ =~= extended(old(self).events_per_sec@, delta));
            self.last_event_count = Some(stats.event_count);
            self.total_events = stats.event_count;
            self.total_alerts = stats.alert_count;
            self.critical_alerts = stats.critical_count;
        }
        if let Some(alerts) = alerts {
            self.recent_alerts = alerts;
        }
    }

    /// The line at the top.
    pub fn header(&self) -> (s: String)
        ensures
            s@ == " EDR Linux  ─  Événements: "@ + signed_decimal(self.total_events as int)
                + "  │  Alertes: "@ + signed_decimal(self.total_alerts as int)
                + "  │  Critiques: "@ + signed_decimal(self.critical_alerts as int)
                + "  │  Refresh #"@ + decimal(self.tick as nat) + " "@,
    {
        let mut s = " EDR Linux  ─  Événements: ".to_owned();
        s.push_str(to_signed_decimal(self.total_events).as_str());
        s.push_str("  │  Alertes: ");
        s.push_str(to_signed_decimal(self.total_alerts).as_str());
        s.push_str("  │  Critiques: ");
        s.push_str(to_signed_decimal(self.critical_alerts).as_str());
        s.push_str("  │  Refresh #");
        s.push_str(to_decimal(self.tick).as_str());
        s.push_str(" ");
        s
    }
}

/// The history after a series of refreshes, each with its number of events.
pub open spec fn extended_by(history: Seq<u64>, numbers: Seq<u64>) -> Seq<u64>
    decreases numbers.len(),
{
    if numbers.len() == 0 {
        history
    } else {
        extended(extended_by(history, numbers.drop_last()), numbers.last())
    }
}

/// The history always holds the numbers of the last refreshes, as many as are shown, in their
/// order.
pub proof fn law_history_is_the_last_minute(history: Seq<u64>, numbers: Seq<u64>)
    requires
        history.len() == HISTORY,
    ensures
        extended_by(history, numbers) == (history + numbers).skip(numbers.len() as int),
    decreases numbers.len(),
{
    if numbers.len() == 0 {
        assert((history + numbers).skip(0) =~= history);
    } else {
        let front = numbers.drop_last();
        law_history_is_the_last_minute(history, front);
        assert(extended_by(history, numbers) =~= (history + numbers).skip(numbers.len() as int));
    }
}

/// Tells whether it is time to refresh, by the nanoseconds since the last time.
pub fn refresh_is_due(nanos: u128) -> (due: bool)
    ensures
        due == (nanos >= SECOND),
{
    nanos >= SECOND
}

/// What a key of the dashboard does.
#[derive(Debug, Clone, Copy, PartialEq, Eq, Structural)]
pub enum KeyAction {
    Quit,
    Refresh,
    Nothing,
}

/// What a key with a character does, pressed alone or together with the control key.
pub fn key_action(key: char, control: bool) -> (action: KeyAction)
    ensures
        action == if key == 'q' || (key == 'c' && control) {
            KeyAction::Quit
        } else if key == 'r' {
            KeyAction::Refresh
        } else {
            KeyAction::Nothing
        },
{
    if key == 'q' || (key == 'c' && control) {
        KeyAction::Quit
    } else if key == 'r' {
        KeyAction::Refresh
    } else {
        KeyAction::Nothing
    }
}

/// The colour of a severity.
pub open spec fn badge_colour(severity: Severity) -> Colour {
    match severity {
        Severity::Critical => Colour::Red,
        Severity::High => Colour::Yellow,
        Severity::Medium => Colour::Blue,
        Severity::Low => Colour::Gray,
    }
}

/// The short name of a severity.
pub open spec fn badge_label(severity: Severity) -> Seq<char> {
    match severity {
        Severity::Critical => "CRIT"@,
        Severity::High => "HIGH"@,
        Severity::Medium => " MED"@,
        Severity::Low => " LOW"@,
    }
}

/// The colour and the short name of a severity.
pub fn badge(severity: Severity) -> (badge: (Colour, &'static str))
    ensures
        badge.0 == badge_colour(severity),
        badge.1@ == badge_label(severity),
{
    match severity {
        Severity::Critical => (Colour::Red, "CRIT"),
        Severity::High => (Colour::Yellow, "HIGH"),
        Severity::Medium => (Colour::Blue, " MED"),
        Severity::Low => (Colour::Gray, " LOW"),
    }
}

/// The parts of the line of an alert.
#[derive(Debug, Clone)]
pub struct AlertSpans {
    pub colour: Colour,
    pub label: String,
    pub rule: String,
    pub pid: String,
    pub time: String,
    pub description: String,
}

/// The parts of the line of an alert.
pub fn alert_spans(alert: &Alert) -> (spans: AlertSpans)
    ensures
        spans.colour == badge_colour(alert.severity),
        spans.label@ == " "@ + padded(badge_label(alert.severity), 4) + " "@,
        spans.rule@ == padded(alert.rule_id@, 6) + " "@,
        spans.pid@ == "PID:"@ + padded(decimal(alert.pid as nat), 7) + " "@,
        spans.time@ == alert.timestamp.under(TIME_OF_DAY@),
        spans.description@ == truncated(alert.rule_description@, 40),
{
    let (colour, short) = badge(alert.severity);
    let mut label = " ".to_owned();
    label.push_str(pad(short, 4).as_str());
    label.push_str(" ");
    let mut rule = pad(alert.rule_id.as_str(), 6);
    rule.push_str(" ");
    let mut pid = "PID:".to_owned();
    pid.push_str(pad(to_decimal(alert.pid as u64).as_str(), 7).as_str());
    pid.push_str(" ");
    AlertSpans {
        colour,
        label,
        rule,
        pid,
        time: alert.timestamp.format(TIME_OF_DAY),
        description: truncate(alert.rule_description.as_str(), 40),
    }
}

/// The share of the gravest alerts, in per cent; nought where there are no alerts.
pub open spec fn critical_share(critical: i64, total: i64) -> int {
    if total > 0 {
        critical as int * 100 / total as int
    } else {
        0
    }
}

/// The share of the gravest alerts, in per cent. A hundred times their number has to fit 64
/// bits.
pub fn critical_percentage(critical: i64, total: i64) -> (percentage: u16)
    requires
        0 <= critical,
        critical * 100 <= i64::MAX,
    ensures
        percentage == critical_share(critical, total) as u16,
        critical <= total ==> percentage == critical_share(critical, total) && percentage <= 100,
{
    if total > 0 {
        let share: i64 = (critical * 100) / total;
        proof {
            let c = critical as int;
            let t = total as int;
            assert(c * 100 / t >= 0) by (nonlinear_arith)
                requires
                    c >= 0,
                    t > 0,
            ;
            assert(c <= t ==> c * 100 / t <= 100) by (nonlinear_arith)
                requires
                    c >= 0,
                    t > 0,
            ;
        }
        share as u16
    } else {
        0
    }
}

/// The colour of a share of the gravest alerts.
pub fn gauge_colour(percentage: u16) -> (colour: Colour)
    ensures
        colour == if percentage <= 20 {
            Colour::Green
        } else if percentage <= 50 {
            Colour::Yellow
        } else {
            Colour::Red
        },
{
    if percentage <= 20 {
        Colour::Green
    } else if percentage <= 50 {
        Colour::Yellow
    } else {
        Colour::Red
    }
}

/// The line with a share of the gravest alerts.
pub fn gauge_text(percentage: u16) -> (s: String)
    ensures
        s@ == " Criticité : "@ + decimal(percentage as nat) + "%"@,
{
    let mut s = " Criticité : ".to_owned();
    s.push_str(to_decimal(percentage as u64).as_str());
    s.push_str("%");
    s
}

} // verus!
