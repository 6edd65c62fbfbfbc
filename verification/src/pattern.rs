//! Regular expressions.

use crate::number::all_digits;
use crate::split::split_on;
use crate::text::{contains_text, replaced};
use regex::Regex;
use vstd::prelude::*;
use vstd::utf8::is_ascii_chars;

verus! {

/// A compiled regular expression.
#[verifier::external_type_specification]
#[verifier::external_body]
pub struct ExRegex(regex::Regex);

/// The texts for which `Regex::is_match` answers yes.
pub uninterp spec fn regex_matches(re: Regex) -> Set<Seq<char>>;

/// The texts that the regular expression matches which `Regex::new` makes of a pattern; none
/// where it refuses the pattern.
pub uninterp spec fn pattern_matches(pattern: Seq<char>) -> Option<Set<Seq<char>>>;

/// A character that stands for itself in a pattern; the dot does so behind a backslash.
pub open spec fn is_literal(c: char) -> bool {
    'a' <= c <= 'z' || 'A' <= c <= 'Z' || '0' <= c <= '9' || c == '/' || c == '.'
}

/// All characters of a text stand for themselves in a pattern.
pub open spec fn all_literal(s: Seq<char>) -> bool {
    forall|i: int| 0 <= i < s.len() ==> is_literal(#[trigger] s[i])
}

/// How a text is written in a pattern.
pub open spec fn escaped(s: Seq<char>) -> Seq<char> {
    replaced(s, '.', "\\."@)
}

/// Texts with bars between them.
pub open spec fn barred(parts: Seq<Seq<char>>) -> Seq<char>
    decreases parts.len(),
{
    if parts.len() == 0 {
        Seq::empty()
    } else if parts.len() == 1 {
        parts[0]
    } else {
        barred(parts.drop_last()) + "|"@ + parts.last()
    }
}

/// One of the texts that a pattern gives to choose from, anywhere or at the end.
pub struct Choice {
    pub text: Seq<char>,
    pub at_end: bool,
}

impl Choice {
    /// The choice as it is written.
    pub open spec fn written(self) -> Seq<char> {
        if self.at_end {
            escaped(self.text) + "$"@
        } else {
            escaped(self.text)
        }
    }
}

/// A simple pattern: one of several texts, alone or between two others, anywhere or at the
/// start or the end.
pub struct Simple {
    pub at_start: bool,
    pub head: Seq<char>,
    pub grouped: bool,
    pub choices: Seq<Choice>,
    pub tail: Seq<char>,
    pub at_end: bool,
}

impl Simple {
    /// The characters stand for themselves, choices that are not in brackets stand alone, and
    /// nothing follows a choice at the end.
    pub open spec fn well_formed(self) -> bool {
        &&& all_literal(self.head)
        &&& all_literal(self.tail)
        &&& self.choices.len() > 0
        &&& forall|i: int|
            0 <= i < self.choices.len() ==> all_literal((#[trigger] self.choices[i]).text) && (
            self.choices[i].at_end ==> self.tail.len() == 0)
        &&& self.grouped || (!self.at_start && !self.at_end && self.head.len() == 0
            && self.tail.len() == 0)
    }

    /// The choices as they are written.
    pub open spec fn parts(self) -> Seq<Seq<char>> {
        self.choices.map_values(|c: Choice| c.written())
    }

    /// The pattern as it is written.
    pub open spec fn written(self) -> Seq<char> {
        if self.grouped {
            (if self.at_start {
                "^"@
            } else {
                Seq::empty()
            }) + escaped(self.head) + "("@ + barred(self.parts()) + ")"@ + escaped(self.tail) + (
            if self.at_end {
                "$"@
            } else {
                Seq::empty()
            })
        } else {
            barred(self.parts())
        }
    }

    /// The pattern matches the text by one of its choices.
    pub open spec fn matches_by(self, text: Seq<char>, choice: Choice) -> bool {
        let core = self.head + choice.text + self.tail;
        let at_end = self.at_end || choice.at_end;
        if self.at_start && at_end {
            text == core
        } else if self.at_start {
            core.is_prefix_of(text)
        } else if at_end {
            core.is_suffix_of(text)
        } else {
            contains_text(text, core)
        }
    }

    /// The texts that the pattern matches.
    pub open spec fn texts(self) -> Set<Seq<char>> {
        Set::new(
            |text: Seq<char>|
                exists|i: int|
                    0 <= i < self.choices.len() && #[trigger] self.matches_by(
                        text,
                        self.choices[i],
                    ),
        )
    }
}

/// The pattern of an ending that a version may follow: dots, each with digits behind it.
pub open spec fn versioned(ending: Seq<char>) -> Seq<char> {
    escaped(ending) + "(\\.\\d+)*$"@
}

/// A version: nothing, or dots with decimal digits of ASCII behind each.
pub open spec fn is_version(s: Seq<char>) -> bool {
    s.len() == 0 || s[0] == '.' && forall|i: int|
        0 <= i < split_on(s.skip(1), '.').len() ==> (#[trigger] split_on(s.skip(1), '.')[i]).len()
            > 0 && all_digits(split_on(s.skip(1), '.')[i], 10)
}

/// A text ends in `ending` and a version behind it.
pub open spec fn ends_versioned(text: Seq<char>, ending: Seq<char>) -> bool {
    exists|k: int|
        0 <= k <= text.len() && #[trigger] ending.is_suffix_of(text.take(k)) && is_version(
            text.skip(k),
        )
}

/// The texts are those that the pattern of an ending with a version matches: of the ASCII texts
/// exactly those that end so. Of the others, in which digits of any script count, those that
/// end so too, and only such as hold the ending.
pub open spec fn matches_versions(texts: Set<Seq<char>>, ending: Seq<char>) -> bool {
    &&& forall|text: Seq<char>|
        is_ascii_chars(text) ==> (#[trigger] texts.contains(text) <==> ends_versioned(
            text,
            ending,
        ))
    &&& forall|text: Seq<char>| ends_versioned(text, ending) ==> #[trigger] texts.contains(text)
    &&& forall|text: Seq<char>| #[trigger] texts.contains(text) ==> contains_text(text, ending)
}

/// `Regex::new`, without the reason of a refusal. The contract names which patterns are refused
/// and what the others match. It claims that a simple pattern of at most a hundred characters
/// is not refused, and that it matches by the syntax of the crate: characters that stand for
/// themselves, escaped dots, alternatives, groups, and the anchors of the start and of the
/// end. Of the pattern of an ending with a version it claims the same, as far as the digits are
/// those of ASCII: `\d` stands for every decimal digit of Unicode, and the others are left open.
#[verifier::external_body]
pub(crate) fn compile(pattern: &str) -> (re: Option<Regex>)
    ensures
        match re {
            Some(re) => pattern_matches(pattern@) == Some(regex_matches(re)),
            None => pattern_matches(pattern@) is None,
        },
        forall|simple: Simple|
            pattern@ == #[trigger] simple.written() && simple.well_formed() && pattern@.len()
                <= 100 ==> (re matches Some(re) && regex_matches(re) == simple.texts()),
        forall|ending: Seq<char>|
            pattern@ == #[trigger] versioned(ending) && all_literal(ending) && pattern@.len()
                <= 100 ==> (re matches Some(re) && matches_versions(regex_matches(re), ending)),
{
    Regex::new(pattern).ok()
}

/// `Regex::is_match`. The contract names the texts that are matched.
#[verifier::external_body]
pub(crate) fn is_match(re: &Regex, text: &str) -> (hit: bool)
    ensures
        hit == regex_matches(*re).contains(text@),
{
    re.is_match(text)
}

} // verus!
