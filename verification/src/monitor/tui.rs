//! The dashboard of the monitor.

use crate::interface::tui::Colour;
use crate::number::{signed_decimal, to_signed_decimal};
use crate::text::{pad, padded, same_text};
use vstd::prelude::*;

verus! {

/// How many alerts the dashboard shows.
pub const SHOWN_ALERTS: usize = 30;

/// The line in place of the alerts where there are none.
pub const NO_ALERTS: &'static str = "  Aucune alerte pour l'instant…";

/// The line at the bottom.
pub const FOOTER: &'static str =
    "  q / Esc : fermer le dashboard  (la surveillance continue en arrière-plan)";

/// The line at the top.
pub fn header(total_events: i64, total_alerts: i64) -> (s: String)
    ensures
        s@ == "  EDR Linux  │  Événements : "@ + signed_decimal(total_events as int)
            + "  │  Alertes : "@ + signed_decimal(total_alerts as int)
            + "  │  rafraîchissement : 300ms"@,
{
    let mut s = "  EDR Linux  │  Événements : ".to_owned();
    s.push_str(to_signed_decimal(total_events).as_str());
    s.push_str("  │  Alertes : ");
    s.push_str(to_signed_decimal(total_alerts).as_str());
    s.push_str("  │  rafraîchissement : 300ms");
    s
}

/// The title of the list of alerts.
pub fn title(total_alerts: i64) -> (s: String)
    ensures
        s@ == " Alertes ("@ + signed_decimal(total_alerts as int)
            + ") — les plus récentes en haut "@,
{
    let mut s = " Alertes (".to_owned();
    s.push_str(to_signed_decimal(total_alerts).as_str());
    s.push_str(") — les plus récentes en haut ");
    s
}

/// The colour of a severity, by its name in capitals.
pub open spec fn colour_of(severity: Seq<char>) -> Colour {
    if severity == "CRITICAL"@ {
        Colour::Red
    } else if severity == "HIGH"@ {
        Colour::Yellow
    } else if severity == "MEDIUM"@ {
        Colour::Blue
    } else {
        Colour::Gray
    }
}

/// The parts of the line of an alert.
#[derive(Debug, Clone)]
pub struct AlertSpans {
    pub colour: Colour,
    pub severity: String,
    pub rule: String,
    pub time: String,
    pub message: String,
}

/// The parts of the line of an alert.
pub fn alert_spans(rule: &str, severity: &str, message: &str, time: &str) -> (spans: AlertSpans)
    ensures
        spans.colour == colour_of(severity@),
        spans.severity@ == " "@ + padded(severity@, 8) + " "@,
        spans.rule@ == padded(rule@, 8) + " "@,
        spans.time@ == "["@ + time@ + "] "@,
        spans.message@ == message@,
{
    let colour = if same_text(severity, "CRITICAL") {
        Colour::Red
    } else if same_text(severity, "HIGH") {
        Colour::Yellow
    } else if same_text(severity, "MEDIUM") {
        Colour::Blue
    } else {
        Colour::Gray
    };
    let mut badge = " ".to_owned();
    badge.push_str(pad(severity, 8).as_str());
    badge.push_str(" ");
    let mut rule = pad(rule, 8);
    rule.push_str(" ");
    let mut stamp = "[".to_owned();
    stamp.push_str(time);
    stamp.push_str("] ");
    AlertSpans { colour, severity: badge, rule, time: stamp, message: message.to_owned() }
}

/// A key of the dashboard.
#[derive(Debug, Clone, Copy, PartialEq, Eq, Structural)]
pub enum Key {
    Char(char),
    Esc,
    Other,
}

/// Tells whether a key closes the dashboard.
pub fn closes(key: Key) -> (yes: bool)
    ensures
        yes == (key == Key::Char('q') || key == Key::Esc),
{
    match key {
        Key::Char(c) => c == 'q',
        Key::Esc => true,
        Key::Other => false,
    }
}

} // verus!
