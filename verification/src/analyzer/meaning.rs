//! What the built-in rules mean, said without patterns.

use super::defaults::{
    connection_after_program, hashes_read, library_in_tmp, preload, program_after_chmod,
    run_from_tmp, scan, schedule_changed, shell_by_user, user_database_changed,
};
use super::laws::{
    lemma_above_nought, lemma_either_condition, lemma_field_names, lemma_one_condition,
    lemma_three_conditions, lemma_two_conditions, matched,
};
use super::rule::{fires, simple_patterns_match, versions_match, NumericOrder, SignalsView};
use super::sequence::{CHMOD_RULE, CONNECT_RULE};
use crate::common::{EdrEvent, FileOperation};
use crate::number::{decimal, lemma_decimal_digits};
use crate::pattern::{
    all_literal, barred, ends_versioned, escaped, matches_versions, pattern_matches, versioned,
    Choice, Simple,
};
use crate::text::{contains_text, lemma_replaced_adds, occurs_at};
use vstd::prelude::*;
use vstd::utf8::is_ascii_chars;

verus! {

/// The first of the built-in rules fires for the programs below `/tmp` and `/dev/shm`.
pub open spec fn first_means() -> bool {
    forall|event: EdrEvent, signals: SignalsView, orders: Seq<NumericOrder>| #[trigger]
        fires(run_from_tmp(), event, signals, orders) <==> (event matches EdrEvent::Process(e) && (
        "/tmp/"@.is_prefix_of(e.exe_path@) || "/dev/shm/"@.is_prefix_of(e.exe_path@)))
}

/// The program is a shell.
pub open spec fn is_shell(exe: Seq<char>) -> bool {
    "/bash"@.is_suffix_of(exe) || "/sh"@.is_suffix_of(exe) || "/zsh"@.is_suffix_of(exe)
        || "/dash"@.is_suffix_of(exe) || "/fish"@.is_suffix_of(exe)
}

/// The second of the built-in rules fires for the shells of other users than root.
pub open spec fn second_means() -> bool {
    forall|event: EdrEvent, signals: SignalsView, orders: Seq<NumericOrder>| #[trigger]
        fires(shell_by_user(), event, signals, orders) <==> (event matches EdrEvent::Process(e)
            && is_shell(e.exe_path@) && e.uid > 0)
}

/// The third of the built-in rules fires where one of the two files of the user database is
/// written or created.
pub open spec fn third_means() -> bool {
    forall|event: EdrEvent, signals: SignalsView, orders: Seq<NumericOrder>| #[trigger]
        fires(user_database_changed(), event, signals, orders) <==> (event matches EdrEvent::File(e)
            && (e.path@ == "/etc/passwd"@ || e.path@ == "/etc/shadow"@) && (e.operation
            == FileOperation::Write || e.operation == FileOperation::Create))
}

/// The path is that of a scheduled task.
pub open spec fn is_schedule(path: Seq<char>) -> bool {
    contains_text(path, "/var/spool/cron"@) || contains_text(path, "/etc/cron."@)
        || ".timer"@.is_suffix_of(path)
}

/// The fourth of the built-in rules fires where a scheduled task is written or created.
pub open spec fn fourth_means() -> bool {
    forall|event: EdrEvent, signals: SignalsView, orders: Seq<NumericOrder>| #[trigger]
        fires(schedule_changed(), event, signals, orders) <==> (event matches EdrEvent::File(e)
            && is_schedule(e.path@) && (e.operation == FileOperation::Write || e.operation
            == FileOperation::Create))
}

/// The fifth of the built-in rules fires for the programs whose arguments speak of `LD_PRELOAD`
/// or whose environment holds it.
pub open spec fn fifth_means() -> bool {
    forall|event: EdrEvent, signals: SignalsView, orders: Seq<NumericOrder>| #[trigger]
        fires(preload(), event, signals, orders) <==> (event matches EdrEvent::Process(e) && (
        contains_text(e.args@, "LD_PRELOAD"@) || signals.ld_preload))
}

/// The sixth of the built-in rules fires for a connection with which its process has made more
/// than fifty within the window.
pub open spec fn sixth_means() -> bool {
    forall|event: EdrEvent, signals: SignalsView, orders: Seq<NumericOrder>| #[trigger]
        fires(scan(), event, signals, orders) <==> event is Network && signals.connections > 50
}

/// The seventh of the built-in rules fires for a connection that completes its sequence.
pub open spec fn seventh_means() -> bool {
    forall|event: EdrEvent, signals: SignalsView, orders: Seq<NumericOrder>| #[trigger]
        fires(connection_after_program(), event, signals, orders) <==> event is Network
            && signals.sequence == Some(CONNECT_RULE@)
}

/// The eighth of the built-in rules fires for a program that completes its sequence.
pub open spec fn eighth_means() -> bool {
    forall|event: EdrEvent, signals: SignalsView, orders: Seq<NumericOrder>| #[trigger]
        fires(program_after_chmod(), event, signals, orders) <==> event is Process
            && signals.sequence == Some(CHMOD_RULE@)
}

/// The ninth of the built-in rules fires where the password hashes are opened or read.
pub open spec fn ninth_means() -> bool {
    forall|event: EdrEvent, signals: SignalsView, orders: Seq<NumericOrder>| #[trigger]
        fires(hashes_read(), event, signals, orders) <==> (event matches EdrEvent::File(e)
            && e.path@ == "/etc/shadow"@ && (e.operation == FileOperation::Open || e.operation
            == FileOperation::Read))
}

/// The path lies in a directory that everybody can write to.
pub open spec fn below_tmp(path: Seq<char>) -> bool {
    "/tmp/"@.is_prefix_of(path) || "/dev/shm/"@.is_prefix_of(path) || "/var/tmp/"@.is_prefix_of(
        path,
    )
}

/// What an event is for which the tenth of the built-in rules fires: a library is created in a
/// directory that everybody can write to. A library has a name in `.so`, with or without a
/// version behind it; of a path that is not written in ASCII, whose version may have other
/// digits, it is only said that it holds `.so`.
pub open spec fn tenth_means_for(event: EdrEvent, fired: bool) -> bool {
    &&& fired ==> (event matches EdrEvent::File(e) && below_tmp(e.path@) && e.operation
        == FileOperation::Create && contains_text(e.path@, ".so"@))
    &&& event matches EdrEvent::File(e) ==> e.operation == FileOperation::Create && below_tmp(
        e.path@,
    ) && ends_versioned(e.path@, ".so"@) ==> fired
    &&& event matches EdrEvent::File(e) ==> fired && is_ascii_chars(e.path@) ==> ends_versioned(
        e.path@,
        ".so"@,
    )
}

/// The tenth of the built-in rules fires where a library is created in a directory that
/// everybody can write to.
pub open spec fn tenth_means() -> bool {
    forall|event: EdrEvent, signals: SignalsView, orders: Seq<NumericOrder>|
        tenth_means_for(event, #[trigger] fires(library_in_tmp(), event, signals, orders))
}

/// What each of the built-in rules fires for.
pub open spec fn defaults_mean() -> bool {
    &&& first_means()
    &&& second_means()
    &&& third_means()
    &&& fourth_means()
    &&& fifth_means()
    &&& sixth_means()
    &&& seventh_means()
    &&& eighth_means()
    &&& ninth_means()
    &&& tenth_means()
}

/// A text without the first character of a part does not contain the part.
proof fn lemma_first_char(whole: Seq<char>, part: Seq<char>)
    requires
        part.len() > 0,
        forall|i: int| 0 <= i < whole.len() ==> whole[i] != part[0],
    ensures
        !contains_text(whole, part),
{
    assert forall|i: int| !#[trigger] occurs_at(whole, part, i) by {
        if occurs_at(whole, part, i) {
            assert(whole.subrange(i, i + part.len())[0] == whole[i]);
        }
    }
}

/// A text contains itself.
proof fn lemma_contains_itself(s: Seq<char>)
    ensures
        contains_text(s, s),
{
    assert(s.subrange(0, s.len() as int) =~= s);
    assert(occurs_at(s, s, 0));
}

/// The name of an unknown operation has none of the first letters of the others.
proof fn lemma_unknown_name(n: u32)
    ensures
        forall|i: int|
            0 <= i < FileOperation::Unknown(n).name_text().len() ==> {
                let c = #[trigger] FileOperation::Unknown(n).name_text()[i];
                c != 'W' && c != 'C' && c != 'O' && c != 'R'
            },
{
    reveal_strlit("Unknown(");
    reveal_strlit(")");
    lemma_decimal_digits(n as nat);
    let name = FileOperation::Unknown(n).name_text();
    let digits = decimal(n as nat);
    assert forall|i: int| 0 <= i < name.len() implies {
        let c = #[trigger] name[i];
        c != 'W' && c != 'C' && c != 'O' && c != 'R'
    } by {
        if 8 <= i < 8 + digits.len() {
            assert(name[i] == digits[i - 8]);
        }
    }
}

/// Only one operation has a name that contains `Write`.
proof fn lemma_name_write(operation: FileOperation)
    ensures
        contains_text(operation.name_text(), "Write"@) <==> operation == FileOperation::Write,
{
    reveal_strlit("Open");
    reveal_strlit("Read");
    reveal_strlit("Write");
    reveal_strlit("Create");
    reveal_strlit("Delete");
    reveal_strlit("Rename");
    reveal_strlit("Chmod");
    let name = operation.name_text();
    match operation {
        FileOperation::Write => {
            lemma_contains_itself(name);
        },
        FileOperation::Unknown(n) => {
            lemma_unknown_name(n);
            lemma_first_char(name, "Write"@);
        },
        _ => {
            lemma_first_char(name, "Write"@);
        },
    }
}

/// Only one operation has a name that contains `Create`.
proof fn lemma_name_create(operation: FileOperation)
    ensures
        contains_text(operation.name_text(), "Create"@) <==> operation == FileOperation::Create,
{
    reveal_strlit("Open");
    reveal_strlit("Read");
    reveal_strlit("Write");
    reveal_strlit("Create");
    reveal_strlit("Delete");
    reveal_strlit("Rename");
    reveal_strlit("Chmod");
    let name = operation.name_text();
    match operation {
        FileOperation::Create => {
            lemma_contains_itself(name);
        },
        FileOperation::Unknown(n) => {
            lemma_unknown_name(n);
            lemma_first_char(name, "Create"@);
        },
        FileOperation::Chmod => {
            assert(name.len() < "Create"@.len());
        },
        _ => {
            lemma_first_char(name, "Create"@);
        },
    }
}

/// Only one operation has a name that contains `Open`.
proof fn lemma_name_open(operation: FileOperation)
    ensures
        contains_text(operation.name_text(), "Open"@) <==> operation == FileOperation::Open,
{
    reveal_strlit("Open");
    reveal_strlit("Read");
    reveal_strlit("Write");
    reveal_strlit("Create");
    reveal_strlit("Delete");
    reveal_strlit("Rename");
    reveal_strlit("Chmod");
    let name = operation.name_text();
    match operation {
        FileOperation::Open => {
            lemma_contains_itself(name);
        },
        FileOperation::Unknown(n) => {
            lemma_unknown_name(n);
            lemma_first_char(name, "Open"@);
        },
        _ => {
            lemma_first_char(name, "Open"@);
        },
    }
}

/// Only one operation has a name that contains `Read`.
proof fn lemma_name_read(operation: FileOperation)
    ensures
        contains_text(operation.name_text(), "Read"@) <==> operation == FileOperation::Read,
{
    reveal_strlit("Open");
    reveal_strlit("Read");
    reveal_strlit("Write");
    reveal_strlit("Create");
    reveal_strlit("Delete");
    reveal_strlit("Rename");
    reveal_strlit("Chmod");
    let name = operation.name_text();
    match operation {
        FileOperation::Read => {
            lemma_contains_itself(name);
        },
        FileOperation::Unknown(n) => {
            lemma_unknown_name(n);
            lemma_first_char(name, "Read"@);
        },
        FileOperation::Rename => {
            assert forall|i: int| !#[trigger] occurs_at(name, "Read"@, i) by {
                if occurs_at(name, "Read"@, i) {
                    assert(name.subrange(i, i + 4)[0] == name[i]);
                    assert(name.subrange(i, i + 4)[2] == name[i + 2]);
                }
            }
        },
        _ => {
            lemma_first_char(name, "Read"@);
        },
    }
}

/// A pattern of two choices, with what surrounds them.
spec fn of_two(
    at_start: bool,
    head: Seq<char>,
    grouped: bool,
    first: Seq<char>,
    second: Seq<char>,
    tail: Seq<char>,
    at_end: bool,
) -> Simple {
    let choices = seq![
        Choice { text: first, at_end: false },
        Choice { text: second, at_end: false },
    ];
    Simple { at_start, head, grouped, choices, tail, at_end }
}

/// What a pattern of two choices matches.
proof fn lemma_of_two(simple: Simple, text: Seq<char>)
    requires
        simple.choices.len() == 2,
    ensures
        simple.texts().contains(text) <==> simple.matches_by(text, simple.choices[0])
            || simple.matches_by(text, simple.choices[1]),
{
    if simple.matches_by(text, simple.choices[0]) {
        assert(simple.texts().contains(text));
    }
    if simple.matches_by(text, simple.choices[1]) {
        assert(simple.texts().contains(text));
    }
}

/// A text without dots is written as it is.
proof fn lemma_no_dots(s: Seq<char>)
    requires
        forall|i: int| 0 <= i < s.len() ==> s[i] != '.',
    ensures
        escaped(s) == s,
    decreases s.len(),
{
    if s.len() > 0 {
        assert(s[s.len() - 1] != '.');
        lemma_no_dots(s.drop_last());
        assert(s.drop_last().push(s.last()) =~= s);
    }
}

/// How a pattern of two choices without dots is written.
proof fn lemma_two_written(simple: Simple)
    requires
        simple.choices.len() == 2,
        forall|i: int|
            0 <= i < simple.choices.len() ==> !(#[trigger] simple.choices[i]).at_end,
        forall|i: int, j: int|
            0 <= i < simple.choices.len() && 0 <= j < simple.choices[i].text.len()
                ==> simple.choices[i].text[j] != '.',
        forall|i: int| 0 <= i < simple.head.len() ==> simple.head[i] != '.',
        forall|i: int| 0 <= i < simple.tail.len() ==> simple.tail[i] != '.',
    ensures
        barred(simple.parts()) == simple.choices[0].text + "|"@ + simple.choices[1].text,
        escaped(simple.head) == simple.head,
        escaped(simple.tail) == simple.tail,
{
    let first = simple.choices[0].text;
    let second = simple.choices[1].text;
    lemma_no_dots(first);
    lemma_no_dots(second);
    lemma_no_dots(simple.head);
    lemma_no_dots(simple.tail);
    assert(simple.parts() =~= seq![first, second]);
    assert(seq![first, second].drop_last() =~= seq![first]);
    assert(barred(seq![first]) == first);
}

/// What the pattern of the first rule matches.
proof fn lemma_tmp_pattern(text: Seq<char>)
    requires
        simple_patterns_match("^(/tmp|/dev/shm)/"@),
    ensures
        matched("^(/tmp|/dev/shm)/"@, text) <==> "/tmp/"@.is_prefix_of(text)
            || "/dev/shm/"@.is_prefix_of(text),
{
    reveal_strlit("^(/tmp|/dev/shm)/");
    reveal_strlit("/tmp");
    reveal_strlit("/dev/shm");
    reveal_strlit("/tmp/");
    reveal_strlit("/dev/shm/");
    reveal_strlit("^");
    reveal_strlit("(");
    reveal_strlit("|");
    reveal_strlit(")");
    reveal_strlit("/");
    let simple = of_two(true, Seq::empty(), true, "/tmp"@, "/dev/shm"@, "/"@, false);
    lemma_two_written(simple);
    assert(simple.written() =~= "^(/tmp|/dev/shm)/"@);
    assert(simple.well_formed());
    lemma_of_two(simple, text);
    assert(simple.head + "/tmp"@ + simple.tail =~= "/tmp/"@);
    assert(simple.head + "/dev/shm"@ + simple.tail =~= "/dev/shm/"@);
}

/// What the pattern of the user database matches.
proof fn lemma_database_pattern(text: Seq<char>)
    requires
        simple_patterns_match("^/etc/(passwd|shadow)$"@),
    ensures
        matched("^/etc/(passwd|shadow)$"@, text) <==> text == "/etc/passwd"@ || text
            == "/etc/shadow"@,
{
    reveal_strlit("^/etc/(passwd|shadow)$");
    reveal_strlit("/etc/");
    reveal_strlit("passwd");
    reveal_strlit("shadow");
    reveal_strlit("/etc/passwd");
    reveal_strlit("/etc/shadow");
    reveal_strlit("^");
    reveal_strlit("(");
    reveal_strlit("|");
    reveal_strlit(")");
    reveal_strlit("$");
    let simple = of_two(true, "/etc/"@, true, "passwd"@, "shadow"@, Seq::empty(), true);
    lemma_two_written(simple);
    assert(simple.written() =~= "^/etc/(passwd|shadow)$"@);
    assert(simple.well_formed());
    lemma_of_two(simple, text);
    assert(simple.head + "passwd"@ + simple.tail =~= "/etc/passwd"@);
    assert(simple.head + "shadow"@ + simple.tail =~= "/etc/shadow"@);
}

/// What the patterns of operations match.
proof fn lemma_operation_patterns(operation: FileOperation)
    requires
        simple_patterns_match("Write|Create"@),
        simple_patterns_match("Open|Read"@),
    ensures
        matched("Write|Create"@, operation.name_text()) <==> operation == FileOperation::Write
            || operation == FileOperation::Create,
        matched("Open|Read"@, operation.name_text()) <==> operation == FileOperation::Open
            || operation == FileOperation::Read,
{
    lemma_name_write(operation);
    lemma_name_create(operation);
    lemma_name_open(operation);
    lemma_name_read(operation);
    reveal_strlit("Write|Create");
    reveal_strlit("Open|Read");
    reveal_strlit("Write");
    reveal_strlit("Create");
    reveal_strlit("Open");
    reveal_strlit("Read");
    reveal_strlit("|");
    let none = Seq::<char>::empty();
    let changes = of_two(false, none, false, "Write"@, "Create"@, none, false);
    let reads = of_two(false, none, false, "Open"@, "Read"@, none, false);
    lemma_two_written(changes);
    lemma_two_written(reads);
    assert(changes.written() =~= "Write|Create"@);
    assert(reads.written() =~= "Open|Read"@);
    assert(changes.well_formed());
    assert(reads.well_formed());
    lemma_of_two(changes, operation.name_text());
    lemma_of_two(reads, operation.name_text());
    assert(none + "Write"@ + none =~= "Write"@);
    assert(none + "Create"@ + none =~= "Create"@);
    assert(none + "Open"@ + none =~= "Open"@);
    assert(none + "Read"@ + none =~= "Read"@);
}

/// What the pattern of shells matches.
proof fn lemma_shell_pattern(text: Seq<char>)
    requires
        simple_patterns_match("/(bash|sh|zsh|dash|fish)$"@),
    ensures
        matched("/(bash|sh|zsh|dash|fish)$"@, text) <==> is_shell(text),
{
    reveal_strlit("/(bash|sh|zsh|dash|fish)$");
    reveal_strlit("bash");
    reveal_strlit("sh");
    reveal_strlit("zsh");
    reveal_strlit("dash");
    reveal_strlit("fish");
    reveal_strlit("/bash");
    reveal_strlit("/sh");
    reveal_strlit("/zsh");
    reveal_strlit("/dash");
    reveal_strlit("/fish");
    reveal_strlit("(");
    reveal_strlit("|");
    reveal_strlit(")");
    reveal_strlit("$");
    reveal_strlit("/");
    let none = Seq::<char>::empty();
    let texts = seq!["bash"@, "sh"@, "zsh"@, "dash"@, "fish"@];
    let choices = texts.map_values(|text: Seq<char>| Choice { text, at_end: false });
    let simple = Simple {
        at_start: false,
        head: "/"@,
        grouped: true,
        choices,
        tail: none,
        at_end: true,
    };
    lemma_no_dots("bash"@);
    lemma_no_dots("sh"@);
    lemma_no_dots("zsh"@);
    lemma_no_dots("dash"@);
    lemma_no_dots("fish"@);
    lemma_no_dots("/"@);
    lemma_no_dots(none);
    assert(simple.parts() =~= texts);
    let three = texts.drop_last().drop_last();
    let two = three.drop_last();
    assert(two =~= seq!["bash"@, "sh"@]);
    assert(two.drop_last() =~= seq!["bash"@]);
    assert(barred(two.drop_last()) == "bash"@);
    assert(three.last() == "zsh"@);
    assert(texts.drop_last().last() == "dash"@);
    assert(texts.last() == "fish"@);
    assert(barred(two) =~= "bash"@ + "|"@ + "sh"@);
    assert(barred(three) =~= barred(two) + "|"@ + "zsh"@);
    assert(barred(texts.drop_last()) =~= barred(three) + "|"@ + "dash"@);
    assert(simple.written() =~= "/(bash|sh|zsh|dash|fish)$"@);
    assert(simple.well_formed());
    assert("/"@ + "bash"@ + none =~= "/bash"@);
    assert("/"@ + "sh"@ + none =~= "/sh"@);
    assert("/"@ + "zsh"@ + none =~= "/zsh"@);
    assert("/"@ + "dash"@ + none =~= "/dash"@);
    assert("/"@ + "fish"@ + none =~= "/fish"@);
    assert(simple.matches_by(text, choices[0]) == "/bash"@.is_suffix_of(text));
    assert(simple.matches_by(text, choices[1]) == "/sh"@.is_suffix_of(text));
    assert(simple.matches_by(text, choices[2]) == "/zsh"@.is_suffix_of(text));
    assert(simple.matches_by(text, choices[3]) == "/dash"@.is_suffix_of(text));
    assert(simple.matches_by(text, choices[4]) == "/fish"@.is_suffix_of(text));
}

/// What the pattern of scheduled tasks matches.
proof fn lemma_schedule_pattern(text: Seq<char>)
    requires
        simple_patterns_match("(/var/spool/cron|/etc/cron\\.|\\.timer$)"@),
    ensures
        matched("(/var/spool/cron|/etc/cron\\.|\\.timer$)"@, text) <==> is_schedule(text),
{
    reveal_strlit("(/var/spool/cron|/etc/cron\\.|\\.timer$)");
    reveal_strlit("/var/spool/cron");
    reveal_strlit("/etc/cron");
    reveal_strlit("/etc/cron.");
    reveal_strlit("timer");
    reveal_strlit(".timer");
    reveal_strlit("\\.");
    reveal_strlit("(");
    reveal_strlit("|");
    reveal_strlit(")");
    reveal_strlit("$");
    let none = Seq::<char>::empty();
    let choices = seq![
        Choice { text: "/var/spool/cron"@, at_end: false },
        Choice { text: "/etc/cron."@, at_end: false },
        Choice { text: ".timer"@, at_end: true },
    ];
    let simple = Simple {
        at_start: false,
        head: none,
        grouped: true,
        choices,
        tail: none,
        at_end: false,
    };
    lemma_no_dots("/var/spool/cron"@);
    lemma_no_dots("/etc/cron"@);
    lemma_no_dots("timer"@);
    lemma_no_dots(none);
    assert("/etc/cron."@.drop_last() =~= "/etc/cron"@);
    assert(escaped("/etc/cron."@) =~= "/etc/cron"@ + "\\."@);
    assert(seq!['.'].drop_last() =~= none);
    assert(escaped(seq!['.']) =~= "\\."@);
    assert(".timer"@ =~= seq!['.'] + "timer"@);
    lemma_replaced_adds(seq!['.'], "timer"@, '.', "\\."@);
    assert(escaped(".timer"@) =~= "\\."@ + "timer"@);
    let last = "\\."@ + "timer"@ + "$"@;
    let parts = seq!["/var/spool/cron"@, "/etc/cron"@ + "\\."@, last];
    assert(simple.parts() =~= parts);
    let two = parts.drop_last();
    assert(two.drop_last() =~= seq!["/var/spool/cron"@]);
    assert(barred(two.drop_last()) == "/var/spool/cron"@);
    assert(two.last() == "/etc/cron"@ + "\\."@);
    assert(parts.last() == last);
    assert(barred(two) =~= "/var/spool/cron"@ + "|"@ + ("/etc/cron"@ + "\\."@));
    assert(barred(parts) =~= barred(two) + "|"@ + last);
    assert(simple.written() =~= "(/var/spool/cron|/etc/cron\\.|\\.timer$)"@);
    assert(simple.well_formed());
    assert(none + "/var/spool/cron"@ + none =~= "/var/spool/cron"@);
    assert(none + "/etc/cron."@ + none =~= "/etc/cron."@);
    assert(none + ".timer"@ + none =~= ".timer"@);
    assert(simple.matches_by(text, choices[0]) == contains_text(text, "/var/spool/cron"@));
    assert(simple.matches_by(text, choices[1]) == contains_text(text, "/etc/cron."@));
    assert(simple.matches_by(text, choices[2]) == ".timer"@.is_suffix_of(text));
}

/// What the pattern of directories that everybody can write to matches.
proof fn lemma_writable_pattern(text: Seq<char>)
    requires
        simple_patterns_match("^/(tmp|dev/shm|var/tmp)/"@),
    ensures
        matched("^/(tmp|dev/shm|var/tmp)/"@, text) <==> below_tmp(text),
{
    reveal_strlit("^/(tmp|dev/shm|var/tmp)/");
    reveal_strlit("tmp");
    reveal_strlit("dev/shm");
    reveal_strlit("var/tmp");
    reveal_strlit("/tmp/");
    reveal_strlit("/dev/shm/");
    reveal_strlit("/var/tmp/");
    reveal_strlit("^");
    reveal_strlit("(");
    reveal_strlit("|");
    reveal_strlit(")");
    reveal_strlit("/");
    let texts = seq!["tmp"@, "dev/shm"@, "var/tmp"@];
    let choices = texts.map_values(|text: Seq<char>| Choice { text, at_end: false });
    let simple = Simple {
        at_start: true,
        head: "/"@,
        grouped: true,
        choices,
        tail: "/"@,
        at_end: false,
    };
    lemma_no_dots("tmp"@);
    lemma_no_dots("dev/shm"@);
    lemma_no_dots("var/tmp"@);
    lemma_no_dots("/"@);
    assert(simple.parts() =~= texts);
    let two = texts.drop_last();
    assert(two.drop_last() =~= seq!["tmp"@]);
    assert(barred(two.drop_last()) == "tmp"@);
    assert(two.last() == "dev/shm"@);
    assert(texts.last() == "var/tmp"@);
    assert(barred(two) =~= "tmp"@ + "|"@ + "dev/shm"@);
    assert(barred(texts) =~= barred(two) + "|"@ + "var/tmp"@);
    assert(simple.written() =~= "^/(tmp|dev/shm|var/tmp)/"@);
    assert(simple.well_formed());
    assert("/"@ + "tmp"@ + "/"@ =~= "/tmp/"@);
    assert("/"@ + "dev/shm"@ + "/"@ =~= "/dev/shm/"@);
    assert("/"@ + "var/tmp"@ + "/"@ =~= "/var/tmp/"@);
    assert(simple.matches_by(text, choices[0]) == "/tmp/"@.is_prefix_of(text));
    assert(simple.matches_by(text, choices[1]) == "/dev/shm/"@.is_prefix_of(text));
    assert(simple.matches_by(text, choices[2]) == "/var/tmp/"@.is_prefix_of(text));
}

/// What the pattern of libraries matches.
proof fn lemma_library_pattern(text: Seq<char>)
    requires
        versions_match("\\.so(\\.\\d+)*$"@),
    ensures
        matched("\\.so(\\.\\d+)*$"@, text) ==> contains_text(text, ".so"@),
        ends_versioned(text, ".so"@) ==> matched("\\.so(\\.\\d+)*$"@, text),
        is_ascii_chars(text) && matched("\\.so(\\.\\d+)*$"@, text) ==> ends_versioned(
            text,
            ".so"@,
        ),
{
    reveal_strlit("\\.so(\\.\\d+)*$");
    reveal_strlit("(\\.\\d+)*$");
    reveal_strlit(".so");
    reveal_strlit("so");
    reveal_strlit("\\.");
    let none = Seq::<char>::empty();
    lemma_no_dots("so"@);
    assert(seq!['.'].drop_last() =~= none);
    assert(escaped(none) =~= none);
    assert(escaped(seq!['.']) =~= "\\."@);
    assert(".so"@ =~= seq!['.'] + "so"@);
    lemma_replaced_adds(seq!['.'], "so"@, '.', "\\."@);
    assert(escaped(".so"@) =~= "\\."@ + "so"@);
    assert(versioned(".so"@) =~= "\\.so(\\.\\d+)*$"@);
    assert(all_literal(".so"@));
    let texts = pattern_matches("\\.so(\\.\\d+)*$"@)->0;
    assert(matches_versions(texts, ".so"@));
    assert(matched("\\.so(\\.\\d+)*$"@, text) == texts.contains(text));
}

/// What the rules for sequences, scans and preloaded libraries mean.
pub(crate) proof fn lemma_signal_meanings()
    ensures
        fifth_means(),
        sixth_means(),
        seventh_means(),
        eighth_means(),
{
    lemma_field_names();
    assert forall|event: EdrEvent, signals: SignalsView, orders: Seq<NumericOrder>| #[trigger]
        fires(preload(), event, signals, orders) <==> (event matches EdrEvent::Process(e) && (
        contains_text(e.args@, "LD_PRELOAD"@) || signals.ld_preload)) by {
        lemma_either_condition(preload(), event, signals, orders);
    }
    assert forall|event: EdrEvent, signals: SignalsView, orders: Seq<NumericOrder>| #[trigger]
        fires(scan(), event, signals, orders) <==> event is Network && signals.connections
            > 50 by {
        lemma_one_condition(scan(), event, signals, orders);
    }
    assert forall|event: EdrEvent, signals: SignalsView, orders: Seq<NumericOrder>| #[trigger]
        fires(connection_after_program(), event, signals, orders) <==> event is Network
            && signals.sequence == Some(CONNECT_RULE@) by {
        lemma_one_condition(connection_after_program(), event, signals, orders);
    }
    assert forall|event: EdrEvent, signals: SignalsView, orders: Seq<NumericOrder>| #[trigger]
        fires(program_after_chmod(), event, signals, orders) <==> event is Process
            && signals.sequence == Some(CHMOD_RULE@) by {
        lemma_one_condition(program_after_chmod(), event, signals, orders);
    }
}

/// What the built-in rules mean.
pub(crate) proof fn lemma_meanings()
    requires
        simple_patterns_match("^(/tmp|/dev/shm)/"@),
        simple_patterns_match("/(bash|sh|zsh|dash|fish)$"@),
        simple_patterns_match("^/etc/(passwd|shadow)$"@),
        simple_patterns_match("Write|Create"@),
        simple_patterns_match("Open|Read"@),
        simple_patterns_match("(/var/spool/cron|/etc/cron\\.|\\.timer$)"@),
        simple_patterns_match("^/(tmp|dev/shm|var/tmp)/"@),
        versions_match("\\.so(\\.\\d+)*$"@),
    ensures
        defaults_mean(),
{
    lemma_field_names();
    lemma_signal_meanings();
    assert forall|event: EdrEvent, signals: SignalsView, orders: Seq<NumericOrder>| #[trigger]
        fires(run_from_tmp(), event, signals, orders) <==> (event matches EdrEvent::Process(e) && (
        "/tmp/"@.is_prefix_of(e.exe_path@) || "/dev/shm/"@.is_prefix_of(e.exe_path@))) by {
        lemma_one_condition(run_from_tmp(), event, signals, orders);
        if let EdrEvent::Process(e) = event {
            lemma_tmp_pattern(e.exe_path@);
        }
    }
    assert forall|event: EdrEvent, signals: SignalsView, orders: Seq<NumericOrder>| #[trigger]
        fires(shell_by_user(), event, signals, orders) <==> (event matches EdrEvent::Process(e)
            && is_shell(e.exe_path@) && e.uid > 0) by {
        lemma_two_conditions(shell_by_user(), event, signals, orders);
        if let EdrEvent::Process(e) = event {
            lemma_shell_pattern(e.exe_path@);
            lemma_above_nought(e.uid as nat, orders[1]);
        }
    }
    assert forall|event: EdrEvent, signals: SignalsView, orders: Seq<NumericOrder>| #[trigger]
        fires(user_database_changed(), event, signals, orders) <==> (event matches EdrEvent::File(e)
            && (e.path@ == "/etc/passwd"@ || e.path@ == "/etc/shadow"@) && (e.operation
            == FileOperation::Write || e.operation == FileOperation::Create)) by {
        lemma_two_conditions(user_database_changed(), event, signals, orders);
        if let EdrEvent::File(e) = event {
            lemma_database_pattern(e.path@);
            lemma_operation_patterns(e.operation);
        }
    }
    assert forall|event: EdrEvent, signals: SignalsView, orders: Seq<NumericOrder>| #[trigger]
        fires(schedule_changed(), event, signals, orders) <==> (event matches EdrEvent::File(e)
            && is_schedule(e.path@) && (e.operation == FileOperation::Write || e.operation
            == FileOperation::Create)) by {
        lemma_two_conditions(schedule_changed(), event, signals, orders);
        if let EdrEvent::File(e) = event {
            lemma_schedule_pattern(e.path@);
            lemma_operation_patterns(e.operation);
        }
    }
    assert forall|event: EdrEvent, signals: SignalsView, orders: Seq<NumericOrder>| #[trigger]
        fires(hashes_read(), event, signals, orders) <==> (event matches EdrEvent::File(e)
            && e.path@ == "/etc/shadow"@ && (e.operation == FileOperation::Open || e.operation
            == FileOperation::Read)) by {
        lemma_two_conditions(hashes_read(), event, signals, orders);
        if let EdrEvent::File(e) = event {
            lemma_operation_patterns(e.operation);
        }
    }
    assert(tenth_means()) by {
        lemma_tenth_means();
    }
}

/// The last of the built-in rules fires where its three conditions hold.
proof fn lemma_library_conditions(
    event: EdrEvent,
    signals: SignalsView,
    orders: Seq<NumericOrder>,
)
    ensures
        fires(library_in_tmp(), event, signals, orders) <==> (event matches EdrEvent::File(e)
            && matched("^/(tmp|dev/shm|var/tmp)/"@, e.path@) && matched(
            "\\.so(\\.\\d+)*$"@,
            e.path@,
        ) && e.operation.name_text() == "Create"@),
{
    lemma_field_names();
    lemma_three_conditions(library_in_tmp(), event, signals, orders);
}

/// What the last of the built-in rules means for an event.
proof fn lemma_tenth_means_for(
    event: EdrEvent,
    signals: SignalsView,
    orders: Seq<NumericOrder>,
)
    requires
        simple_patterns_match("^/(tmp|dev/shm|var/tmp)/"@),
        versions_match("\\.so(\\.\\d+)*$"@),
    ensures
        tenth_means_for(event, fires(library_in_tmp(), event, signals, orders)),
{
    lemma_library_conditions(event, signals, orders);
    if let EdrEvent::File(e) = event {
        lemma_library_pattern(e.path@);
        lemma_writable_pattern(e.path@);
        lemma_name_create(e.operation);
        lemma_contains_itself("Create"@);
    }
}

/// What the last of the built-in rules means.
proof fn lemma_tenth_means()
    requires
        simple_patterns_match("^/(tmp|dev/shm|var/tmp)/"@),
        versions_match("\\.so(\\.\\d+)*$"@),
    ensures
        tenth_means(),
{
    assert forall|event: EdrEvent, signals: SignalsView, orders: Seq<NumericOrder>|
        tenth_means_for(event, #[trigger] fires(library_in_tmp(), event, signals, orders)) by {
        lemma_tenth_means_for(event, signals, orders);
    }
}

} // verus!
