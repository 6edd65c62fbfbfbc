//! What stands in the user database and in the files of `/proc` is what is read from them.

use super::proc_enricher::{
    cmdline_text, environ_block, environ_of, informed, lemma_equals_at, lemma_no_equals,
    opt_bytes, passwd_name, resolved, sets_preload, status_of, with_setting, zero_separated,
    Environ, ProcEnricher, ProcInfo, ProcSnapshot,
};
use crate::encoding::utf8_lossy;
use crate::number::{
    decimal, is_digit, law_decimal_reads_back, law_numbers_without_sign, lemma_decimal_digits,
    unsigned_value,
};
use crate::split::{
    law_lines_one_by_one, law_split_part_by_part, law_words_between_blanks, lines, split_on, words,
};
use crate::text::{
    all_blank, is_whitespace, law_only_ends_are_trimmed, law_replaced_one_by_one,
    lemma_replaced_adds, opt_text, replaced,
};
use vstd::prelude::*;

verus! {

/// The text holds no character `c`.
pub open spec fn without(s: Seq<char>, c: char) -> bool {
    forall|i: int| 0 <= i < s.len() ==> s[i] != c
}

/// A number in decimal is written with the ten digits alone.
pub proof fn lemma_decimal_plain(n: nat)
    ensures
        decimal(n).len() > 0,
        forall|i: int| 0 <= i < decimal(n).len() ==> '0' <= #[trigger] decimal(n)[i] <= '9',
        forall|i: int| 0 <= i < decimal(n).len() ==> !is_whitespace(#[trigger] decimal(n)[i]),
{
    lemma_decimal_digits(n);
    assert forall|i: int| 0 <= i < decimal(n).len() implies '0' <= #[trigger] decimal(n)[i]
        <= '9' by {
        assert(is_digit(decimal(n)[i], 10));
    }
}

/// The third field of a line of the user database writes the number of a user.
pub open spec fn third_field_is(line: Seq<char>, uid: u32) -> bool {
    let fields = split_on(line, ':');
    fields.len() >= 3 && unsigned_value(fields[2], 10, 0xffff_ffff) == Some(uid as int)
}

/// A line of the user database: a name, the field of the password, the number of the user, and
/// what stands behind it, with colons between them.
pub open spec fn user_line(
    name: Seq<char>,
    password: Seq<char>,
    uid: u32,
    rest: Seq<char>,
) -> Seq<char> {
    name + seq![':'] + (password + seq![':'] + (decimal(uid as nat) + seq![':'] + rest))
}

/// The first fields of a line of the user database.
proof fn lemma_user_fields(name: Seq<char>, password: Seq<char>, uid: u32, rest: Seq<char>)
    requires
        without(name, ':'),
        without(password, ':'),
    ensures
        split_on(user_line(name, password, uid, rest), ':').len() >= 3,
        split_on(user_line(name, password, uid, rest), ':')[0] == name,
        split_on(user_line(name, password, uid, rest), ':')[1] == password,
        split_on(user_line(name, password, uid, rest), ':')[2] == decimal(uid as nat),
        third_field_is(user_line(name, password, uid, rest), uid),
{
    let number = decimal(uid as nat);
    let third = number + seq![':'] + rest;
    lemma_decimal_plain(uid as nat);
    law_split_part_by_part(name, password + seq![':'] + third, ':');
    law_split_part_by_part(password, third, ':');
    law_split_part_by_part(number, rest, ':');
    assert(split_on(user_line(name, password, uid, rest), ':') =~= seq![name] + (seq![password] + (
    seq![number] + split_on(rest, ':'))));
    law_decimal_reads_back(uid as nat, 0xffff_ffff);
}

/// A user database whose first line holds a name, a password field, the number of a user and
/// more, gives that name for that number, whatever the rest of the line and the lines behind it
/// hold.
pub proof fn law_first_user_is_found(
    name: Seq<char>,
    password: Seq<char>,
    uid: u32,
    rest: Seq<char>,
    more: Seq<char>,
)
    requires
        without(name, ':'),
        without(name, '\n'),
        without(password, ':'),
        without(password, '\n'),
        without(rest, '\n'),
    ensures
        passwd_name(lines(user_line(name, password, uid, rest) + seq!['\n'] + more), uid) == Some(
            name,
        ),
        passwd_name(lines(user_line(name, password, uid, rest)), uid) == Some(name),
{
    let line = user_line(name, password, uid, rest);
    lemma_decimal_plain(uid as nat);
    assert(without(line, '\n'));
    law_lines_one_by_one(line, more);
    lemma_user_fields(name, password, uid, rest);
    let first = lines(line + seq!['\n'] + more)[0];
    if line[line.len() - 1] == '\r' {
        assert(rest.len() > 0) by {
            if rest.len() == 0 {
                assert(line.last() == ':');
            }
        }
        let shorter = rest.take(rest.len() - 1);
        assert(first =~= user_line(name, password, uid, shorter));
        lemma_user_fields(name, password, uid, shorter);
    } else {
        assert(first == line);
    }
}

/// No name is given for a number that is the third field of no line. Where it is the third field
/// of one, the first field of the first such line is the name.
pub proof fn law_users_by_number(database: Seq<Seq<char>>, uid: u32)
    ensures
        passwd_name(database, uid) is None <==> forall|i: int|
            0 <= i < database.len() ==> !third_field_is(#[trigger] database[i], uid),
        forall|i: int|
            0 <= i < database.len() && third_field_is(#[trigger] database[i], uid) && (forall|
                j: int,
            |
                0 <= j < i ==> !third_field_is(#[trigger] database[j], uid)) ==> passwd_name(
                database,
                uid,
            ) == Some(split_on(database[i], ':')[0]),
    decreases database.len(),
{
    if database.len() > 0 {
        let rest = database.drop_first();
        law_users_by_number(rest, uid);
        assert(forall|i: int| 0 <= i < rest.len() ==> #[trigger] rest[i] == database[i + 1]);
        if third_field_is(database[0], uid) {
            assert(passwd_name(database, uid) == Some(split_on(database[0], ':')[0]));
        } else {
            assert(passwd_name(database, uid) == passwd_name(rest, uid));
            if passwd_name(database, uid) is None {
                assert forall|i: int| 0 <= i < database.len() implies !third_field_is(
                    #[trigger] database[i],
                    uid,
                ) by {
                    if i > 0 {
                        assert(!third_field_is(rest[i - 1], uid));
                    }
                }
            } else {
                let k = choose|k: int| 0 <= k < rest.len() && third_field_is(#[trigger] rest[k], uid);
                assert(third_field_is(database[k + 1], uid));
            }
            assert forall|i: int|
                0 <= i < database.len() && third_field_is(#[trigger] database[i], uid) && (forall|
                    j: int,
                |
                    0 <= j < i ==> !third_field_is(#[trigger] database[j], uid)) implies passwd_name(
                database,
                uid,
            ) == Some(split_on(database[i], ':')[0]) by {
                let k = i - 1;
                assert(third_field_is(rest[k], uid));
                assert forall|j: int| 0 <= j < k implies !third_field_is(#[trigger] rest[j], uid) by {
                    assert(!third_field_is(database[j + 1], uid));
                }
            }
        }
    }
}

/// A name that is not known yet comes from the user database and is known from then on; the
/// other names stay as they were. Where the database has none, or cannot be read, there is no
/// name and nothing changes.
pub proof fn law_names_are_learnt(
    known: Map<u32, Seq<char>>,
    uid: u32,
    content: Seq<char>,
    other: u32,
)
    ensures
        known.contains_key(uid) ==> resolved(known, uid, Some(content)) == (
            known,
            Some(known[uid]),
        ) && resolved(known, uid, None) == (known, Some(known[uid])),
        !known.contains_key(uid) ==> {
            &&& resolved(known, uid, Some(content)).1 == passwd_name(lines(content), uid)
            &&& resolved(known, uid, None) == (known, None::<Seq<char>>)
            &&& passwd_name(lines(content), uid) is None ==> resolved(
                known,
                uid,
                Some(content),
            ).0 == known
            &&& passwd_name(lines(content), uid) matches Some(name) ==> resolved(
                known,
                uid,
                Some(content),
            ).0.contains_pair(uid, name)
        },
        other != uid ==> {
            let after = resolved(known, uid, Some(content)).0;
            &&& after.contains_key(other) == known.contains_key(other)
            &&& known.contains_key(other) ==> after[other] == known[other]
        },
{
}

/// Words behind blanks are the same words.
proof fn lemma_words_behind_blanks(blanks: Seq<char>, s: Seq<char>)
    requires
        all_blank(blanks),
    ensures
        words(blanks + s) == words(s),
    decreases blanks.len(),
{
    if blanks.len() == 0 {
        assert(blanks + s =~= s);
    } else {
        let rest = blanks.drop_first();
        assert(is_whitespace(blanks[0]));
        assert forall|i: int| 0 <= i < rest.len() implies is_whitespace(#[trigger] rest[i]) by {
            assert(is_whitespace(blanks[i + 1]));
        }
        lemma_words_behind_blanks(rest, s);
        let none = Seq::<char>::empty();
        law_words_between_blanks(none, blanks[0], rest + s);
        assert(none + seq![blanks[0]] + (rest + s) =~= blanks + s);
        assert(words(none) + words(rest + s) =~= words(s));
    }
}

/// The line of a process status that tells the parent: its number in decimal between blanks.
pub open spec fn parent_line(line: Seq<char>, ppid: u32) -> bool {
    exists|before: Seq<char>, behind: Seq<char>|
        all_blank(before) && all_blank(behind) && line == #[trigger] ("PPid:"@ + (before + decimal(
            ppid as nat,
        ) + behind))
}

/// The line of a process status that tells the user: the number comes first among the words.
pub open spec fn user_numbers_line(line: Seq<char>, uid: u32) -> bool {
    exists|before: Seq<char>, behind: Seq<char>|
        all_blank(before) && (behind.len() > 0 ==> is_whitespace(behind[0])) && line
            == #[trigger] ("Uid:"@ + (before + (decimal(uid as nat) + behind)))
}

/// A line of a process status that tells neither the parent nor the user.
pub open spec fn other_line(line: Seq<char>) -> bool {
    !("PPid:"@.is_prefix_of(line)) && !("Uid:"@.is_prefix_of(line))
}

/// A process status is read line by line. As long as one of the two numbers is missing, the line
/// of the parent and that of the user set theirs, also where it was set before; they clear it
/// where they hold no number. Once both are known, nothing changes any more.
pub proof fn law_status_line_by_line(status: Seq<Seq<char>>, ppid: u32, uid: u32, text: Seq<char>)
    requires
        status.len() > 0,
    ensures
        ({
            let before = status_of(status.drop_last());
            let line = status.last();
            &&& before.0 is Some && before.1 is Some ==> status_of(status) == before
            &&& before.0 is None || before.1 is None ==> {
                &&& parent_line(line, ppid) ==> status_of(status) == (Some(ppid as int), before.1)
                &&& user_numbers_line(line, uid) ==> status_of(status) == (
                    before.0,
                    Some(uid as int),
                )
                &&& other_line(line) ==> status_of(status) == before
                &&& line == "PPid:"@ + text && text.len() > 0 && !is_whitespace(text[0])
                    && !is_whitespace(text[text.len() - 1]) && !('0' <= text[text.len() - 1] <= '9')
                    ==> status_of(status) == (None::<int>, before.1)
                &&& line == "Uid:"@ + text && all_blank(text) ==> status_of(status) == (
                    before.0,
                    None::<int>,
                )
            }
        }),
{
    let line = status.last();
    let before = status_of(status.drop_last());
    if before.0 is None || before.1 is None {
        lemma_status_line(status, ppid, uid);
        reveal_strlit("PPid:");
        reveal_strlit("Uid:");
        if line == "PPid:"@ + text && text.len() > 0 && !is_whitespace(text[0]) && !is_whitespace(
            text[text.len() - 1],
        ) && !('0' <= text[text.len() - 1] <= '9') {
            let none = Seq::<char>::empty();
            law_only_ends_are_trimmed(none, text, none);
            assert(none + text + none =~= text);
            assert("PPid:"@ =~= line.subrange(0, 5));
            assert(line.skip(5) =~= text);
            law_numbers_without_sign(text, 0, u32::MAX as int, text.len() - 1);
            if text.len() == 1 && text[0] == '+' {
                assert(text =~= seq!['+']);
            }
        }
        if line == "Uid:"@ + text && all_blank(text) {
            let none = Seq::<char>::empty();
            lemma_words_behind_blanks(text, none);
            law_words_between_blanks(none, ' ', none);
            assert(text + none =~= text);
            assert("Uid:"@ =~= line.subrange(0, 4));
            assert(line.skip(4) =~= text);
            assert(line[0] == 'U');
            if "PPid:"@.is_prefix_of(line) {
                assert(line.subrange(0, 5)[0] == "PPid:"@[0]);
            }
        }
    }
}

/// One line of a process status, when not all is known yet.
proof fn lemma_status_line(status: Seq<Seq<char>>, ppid: u32, uid: u32)
    requires
        status.len() > 0,
        status_of(status.drop_last()).0 is None || status_of(status.drop_last()).1 is None,
    ensures
        parent_line(status.last(), ppid) ==> status_of(status) == (
            Some(ppid as int),
            status_of(status.drop_last()).1,
        ),
        user_numbers_line(status.last(), uid) ==> status_of(status) == (
            status_of(status.drop_last()).0,
            Some(uid as int),
        ),
        other_line(status.last()) ==> status_of(status) == status_of(status.drop_last()),
{
    let line = status.last();
    reveal_strlit("PPid:");
    reveal_strlit("Uid:");
    if parent_line(line, ppid) {
        let number = decimal(ppid as nat);
        let (before, behind) = choose|before: Seq<char>, behind: Seq<char>|
            all_blank(before) && all_blank(behind) && line == #[trigger] ("PPid:"@ + (before
                + decimal(ppid as nat) + behind));
        lemma_decimal_plain(ppid as nat);
        law_only_ends_are_trimmed(before, number, behind);
        assert("PPid:"@ =~= line.subrange(0, 5));
        assert(line.skip(5) =~= before + number + behind);
        law_decimal_reads_back(ppid as nat, u32::MAX as int);
    }
    if user_numbers_line(line, uid) {
        let number = decimal(uid as nat);
        let (before, behind) = choose|before: Seq<char>, behind: Seq<char>|
            all_blank(before) && (behind.len() > 0 ==> is_whitespace(behind[0])) && line
                == #[trigger] ("Uid:"@ + (before + (decimal(uid as nat) + behind)));
        lemma_decimal_plain(uid as nat);
        lemma_words_behind_blanks(before, number + behind);
        if behind.len() > 0 {
            law_words_between_blanks(number, behind[0], behind.drop_first());
            assert(number + seq![behind[0]] + behind.drop_first() =~= number + behind);
        } else {
            law_words_between_blanks(number, ' ', behind);
            assert(number + behind =~= number);
        }
        assert(words(number + behind)[0] == number);
        assert("Uid:"@ =~= line.subrange(0, 4));
        assert(line.skip(4) =~= before + (number + behind));
        assert(line[0] == 'U');
        assert("PPid:"@[0] == 'P');
        if "PPid:"@.is_prefix_of(line) {
            assert(line.subrange(0, 5)[0] == 'P');
        }
        law_decimal_reads_back(uid as nat, u32::MAX as int);
    }
}

/// A process status with one line for the parent and one for the user, in whatever order and
/// with whatever other lines, gives those two numbers.
pub proof fn law_status_reads_back(status: Seq<Seq<char>>, i: int, ppid: u32, j: int, uid: u32)
    requires
        0 <= i < status.len(),
        0 <= j < status.len(),
        i != j,
        parent_line(status[i], ppid),
        user_numbers_line(status[j], uid),
        forall|k: int|
            0 <= k < status.len() && k != i && k != j ==> other_line(#[trigger] status[k]),
    ensures
        status_of(status) == (Some(ppid as int), Some(uid as int)),
{
    lemma_status_up_to(status, i, ppid, j, uid, status.len() as int);
    assert(status.take(status.len() as int) =~= status);
}

/// What the first lines of a process status tell.
proof fn lemma_status_up_to(
    status: Seq<Seq<char>>,
    i: int,
    ppid: u32,
    j: int,
    uid: u32,
    n: int,
)
    requires
        0 <= i < status.len(),
        0 <= j < status.len(),
        i != j,
        0 <= n <= status.len(),
        parent_line(status[i], ppid),
        user_numbers_line(status[j], uid),
        forall|k: int|
            0 <= k < status.len() && k != i && k != j ==> other_line(#[trigger] status[k]),
    ensures
        status_of(status.take(n)) == (
            if i < n {
                Some(ppid as int)
            } else {
                None
            },
            if j < n {
                Some(uid as int)
            } else {
                None
            },
        ),
    decreases n,
{
    if n > 0 {
        lemma_status_up_to(status, i, ppid, j, uid, n - 1);
        let part = status.take(n);
        assert(part.drop_last() =~= status.take(n - 1));
        assert(part.last() == status[n - 1]);
        if i < n - 1 && j < n - 1 {
            assert(status_of(part) == status_of(part.drop_last()));
        } else {
            lemma_status_line(part, ppid, uid);
        }
    }
}

/// A status without a line for one of the two numbers does not give it.
pub proof fn law_status_without_lines(status: Seq<Seq<char>>)
    ensures
        (forall|k: int| 0 <= k < status.len() ==> !("PPid:"@.is_prefix_of(#[trigger] status[k])))
            ==> status_of(status).0 is None,
        (forall|k: int| 0 <= k < status.len() ==> !("Uid:"@.is_prefix_of(#[trigger] status[k])))
            ==> status_of(status).1 is None,
    decreases status.len(),
{
    if status.len() > 0 {
        let front = status.drop_last();
        law_status_without_lines(front);
        assert(forall|k: int| 0 <= k < front.len() ==> #[trigger] front[k] == status[k]);
    }
}

/// Arguments, each ended by a zero character.
pub open spec fn ended(arguments: Seq<Seq<char>>) -> Seq<char>
    decreases arguments.len(),
{
    if arguments.len() == 0 {
        Seq::empty()
    } else {
        ended(arguments.drop_last()) + arguments.last() + seq!['\0']
    }
}

/// Arguments with a space between any two.
pub open spec fn spaced(arguments: Seq<Seq<char>>) -> Seq<char>
    decreases arguments.len(),
{
    if arguments.len() == 0 {
        Seq::empty()
    } else if arguments.len() == 1 {
        arguments[0]
    } else {
        spaced(arguments.drop_last()) + seq![' '] + arguments.last()
    }
}

/// Arguments that are each ended by a zero character are read as one text with a space between
/// any two of them, where that text neither begins nor ends with a blank.
pub proof fn law_arguments_are_spaced(arguments: Seq<Seq<char>>)
    requires
        arguments.len() > 0,
        forall|i: int| 0 <= i < arguments.len() ==> without(#[trigger] arguments[i], '\0'),
        spaced(arguments).len() > 0,
        !is_whitespace(spaced(arguments)[0]),
        !is_whitespace(spaced(arguments)[spaced(arguments).len() - 1]),
    ensures
        cmdline_text(ended(arguments)) == spaced(arguments),
{
    lemma_spaced(arguments);
    let none = Seq::<char>::empty();
    law_only_ends_are_trimmed(none, spaced(arguments), seq![' ']);
    assert(none + spaced(arguments) + seq![' '] =~= spaced(arguments) + seq![' ']);
}

/// The zero characters become spaces.
proof fn lemma_spaced(arguments: Seq<Seq<char>>)
    requires
        arguments.len() > 0,
        forall|i: int| 0 <= i < arguments.len() ==> without(#[trigger] arguments[i], '\0'),
    ensures
        replaced(ended(arguments), '\0', " "@) == spaced(arguments) + seq![' '],
    decreases arguments.len(),
{
    reveal_strlit(" ");
    assert(" "@ =~= seq![' ']);
    let front = arguments.drop_last();
    let last = arguments.last();
    let none = Seq::<char>::empty();
    assert(without(arguments[arguments.len() - 1], '\0'));
    law_replaced_one_by_one(last, '\0', none, " "@);
    law_replaced_one_by_one(none, '\0', none, " "@);
    assert(last + seq!['\0'] + none =~= last + seq!['\0']);
    if front.len() == 0 {
        assert(front =~= Seq::<Seq<char>>::empty());
        assert(ended(front) =~= none);
        assert(ended(arguments) =~= last + seq!['\0']);
        assert(arguments[0] == last);
        assert(last + " "@ + none =~= last + seq![' ']);
    } else {
        assert forall|i: int| 0 <= i < front.len() implies without(#[trigger] front[i], '\0') by {
            assert(without(arguments[i], '\0'));
        }
        lemma_spaced(front);
        lemma_replaced_adds(ended(front), last + seq!['\0'], '\0', " "@);
        assert(ended(arguments) =~= ended(front) + (last + seq!['\0']));
        assert(replaced(ended(arguments), '\0', " "@) =~= spaced(front) + seq![' '] + (last
            + seq![' ']));
        assert(spaced(arguments) == spaced(front) + seq![' '] + last);
        assert(spaced(front) + seq![' '] + (last + seq![' ']) =~= spaced(front) + seq![' '] + last
            + seq![' ']);
    }
}

/// A name, an equals sign and a value set that name to that value, also where the value holds
/// equals signs; a text without one sets nothing.
pub proof fn law_settings(env: Map<Seq<char>, Seq<char>>, name: Seq<char>, value: Seq<char>)
    requires
        without(name, '='),
    ensures
        with_setting(env, name + seq!['='] + value) == env.insert(name, value),
        with_setting(env, name) == env,
{
    let setting = name + seq!['='] + value;
    lemma_equals_at(setting, name.len() as int);
    lemma_no_equals(name);
    assert(setting.take(name.len() as int) =~= name);
    assert(setting.skip(name.len() as int + 1) =~= value);
}

/// The parts of a block are those before a zero byte and those behind it.
proof fn lemma_zero_separated(a: Seq<u8>, b: Seq<u8>)
    ensures
        zero_separated(b).len() > 0,
        zero_separated(a + seq![0u8] + b) == zero_separated(a) + zero_separated(b),
    decreases b.len(),
{
    let head = a + seq![0u8];
    if b.len() == 0 {
        assert(head + b =~= head);
        assert(head.drop_last() =~= a);
        assert(b =~= Seq::<u8>::empty());
        assert(zero_separated(head) =~= zero_separated(a) + zero_separated(b));
    } else {
        assert((head + b).drop_last() =~= head + b.drop_last());
        assert((head + b).last() == b.last());
        lemma_zero_separated(a, b.drop_last());
        assert(zero_separated(head + b) =~= zero_separated(a) + zero_separated(b));
    }
}

/// Bytes without a zero are one part.
proof fn lemma_no_zero(b: Seq<u8>)
    requires
        forall|i: int| 0 <= i < b.len() ==> b[i] != 0,
    ensures
        zero_separated(b) == seq![b],
    decreases b.len(),
{
    if b.len() > 0 {
        lemma_no_zero(b.drop_last());
        assert(b.drop_last().push(b.last()) =~= b);
        assert(seq![b.drop_last()].update(0, b) =~= seq![b]);
    }
}

/// An environment block is read setting by setting: one more behind a zero byte, whose text is a
/// name, an equals sign and a value, sets that name to that value and leaves the others. A zero
/// byte at the end changes nothing, and a block that cannot be read sets nothing.
pub proof fn law_environment_grows(
    block: Seq<u8>,
    part: Seq<u8>,
    name: Seq<char>,
    value: Seq<char>,
)
    requires
        forall|i: int| 0 <= i < part.len() ==> part[i] != 0,
        part.len() > 0,
        without(name, '='),
    ensures
        utf8_lossy(part) == name + seq!['='] + value ==> environ_block(
            Some(block + seq![0u8] + part),
        ) == environ_block(Some(block)).insert(name, value),
        utf8_lossy(part) == name + seq!['='] + value ==> environ_block(Some(part))
            == Map::<Seq<char>, Seq<char>>::empty().insert(name, value),
        utf8_lossy(part) == name ==> environ_block(Some(block + seq![0u8] + part))
            == environ_block(Some(block)),
        environ_block(Some(block + seq![0u8])) == environ_block(Some(block)),
        environ_block(None) == Map::<Seq<char>, Seq<char>>::empty(),
{
    let none = Seq::<u8>::empty();
    lemma_zero_separated(block, part);
    lemma_zero_separated(block, none);
    lemma_no_zero(part);
    lemma_no_zero(none);
    assert(block + seq![0u8] + none =~= block + seq![0u8]);
    let parts = zero_separated(block);
    assert((parts + seq![part]).drop_last() =~= parts);
    assert((parts + seq![none]).drop_last() =~= parts);
    law_settings(environ_of(parts), name, value);
    law_settings(Map::empty(), name, value);
    assert(seq![part].drop_last() =~= Seq::<Seq<u8>>::empty());
    assert(environ_of(seq![part].drop_last()) =~= Map::<Seq<char>, Seq<char>>::empty());
    assert(environ_of(seq![part]) == with_setting(
        environ_of(seq![part].drop_last()),
        utf8_lossy(part),
    ));
}

/// What is known of a process is what its directory holds: where its links lead, the parent and
/// the user of its status, and the user's name where the database starts with it. Of a process
/// without a directory nothing is known, and nothing is learnt.
pub proof fn law_what_is_known_of_processes(
    before: Map<u32, Seq<char>>,
    after: Map<u32, Seq<char>>,
    snapshot: ProcSnapshot,
    database: Option<Seq<char>>,
    info: ProcInfo,
    i: int,
    ppid: u32,
    j: int,
    uid: u32,
    name: Seq<char>,
    password: Seq<char>,
    rest: Seq<char>,
    more: Seq<char>,
)
    requires
        informed(before, after, snapshot, database, info),
        snapshot.exists,
        snapshot.status is Some,
        0 <= i < lines(snapshot.status->0@).len(),
        0 <= j < lines(snapshot.status->0@).len(),
        i != j,
        parent_line(lines(snapshot.status->0@)[i], ppid),
        user_numbers_line(lines(snapshot.status->0@)[j], uid),
        forall|k: int|
            0 <= k < lines(snapshot.status->0@).len() && k != i && k != j ==> other_line(
                #[trigger] lines(snapshot.status->0@)[k],
            ),
        database == Some(user_line(name, password, uid, rest) + seq!['\n'] + more),
        without(name, ':'),
        without(name, '\n'),
        without(password, ':'),
        without(password, '\n'),
        without(rest, '\n'),
        !before.contains_key(uid),
    ensures
        info.exe == snapshot.exe,
        info.cwd == snapshot.cwd,
        info.ppid == Some(ppid),
        info.uid == Some(uid),
        opt_text(info.username) == Some(name),
        after == before.insert(uid, name),
        snapshot.cmdline is None ==> info.cmdline is None,
        snapshot.cmdline matches Some(bytes) ==> opt_text(info.cmdline) == Some(
            cmdline_text(utf8_lossy(bytes@)),
        ),
{
    law_status_reads_back(lines(snapshot.status->0@), i, ppid, j, uid);
    law_first_user_is_found(name, password, uid, rest, more);
    assert(opt_text(snapshot.status) == Some(snapshot.status->0@));
}

/// Of a process without a directory nothing is known, and nothing is learnt of users.
pub proof fn law_nothing_known_without_directory(
    before: Map<u32, Seq<char>>,
    after: Map<u32, Seq<char>>,
    snapshot: ProcSnapshot,
    database: Option<Seq<char>>,
    info: ProcInfo,
)
    requires
        informed(before, after, snapshot, database, info),
        !snapshot.exists,
    ensures
        info.exe is None,
        info.cmdline is None,
        info.cwd is None,
        info.ppid is None,
        info.uid is None,
        info.username is None,
        info.environ@.dom().is_empty(),
        after == before,
{
}

/// The user database is needed if and only if the process is there, its status tells its user,
/// and no name of that user is known yet.
pub proof fn law_when_the_database_is_needed(
    enricher: &ProcEnricher,
    snapshot: &ProcSnapshot,
    needed: bool,
    i: int,
    ppid: u32,
    j: int,
    uid: u32,
)
    requires
        call_ensures(ProcEnricher::needs_database, (enricher, snapshot), needed),
    ensures
        !snapshot.exists ==> !needed,
        snapshot.status is None ==> !needed,
        snapshot.exists && snapshot.status is Some && i != j && 0 <= i < lines(
            snapshot.status->0@,
        ).len() && 0 <= j < lines(snapshot.status->0@).len() && parent_line(
            lines(snapshot.status->0@)[i],
            ppid,
        ) && user_numbers_line(lines(snapshot.status->0@)[j], uid) && (forall|k: int|
            0 <= k < lines(snapshot.status->0@).len() && k != i && k != j ==> other_line(
                #[trigger] lines(snapshot.status->0@)[k],
            )) ==> (needed <==> !enricher.names().contains_key(uid)),
{
    if snapshot.exists && snapshot.status is Some && i != j && 0 <= i < lines(
        snapshot.status->0@,
    ).len() && 0 <= j < lines(snapshot.status->0@).len() && parent_line(
        lines(snapshot.status->0@)[i],
        ppid,
    ) && user_numbers_line(lines(snapshot.status->0@)[j], uid) && (forall|k: int|
        0 <= k < lines(snapshot.status->0@).len() && k != i && k != j ==> other_line(
            #[trigger] lines(snapshot.status->0@)[k],
        )) {
        law_status_reads_back(lines(snapshot.status->0@), i, ppid, j, uid);
        assert(opt_text(snapshot.status) == Some(snapshot.status->0@));
    }
}

/// The bytes of `LD_PRELOAD=`.
pub open spec fn preload_head() -> Seq<u8> {
    seq![76u8, 68, 95, 80, 82, 69, 76, 79, 65, 68, 61]
}

/// A library is preloaded where some part of the environment block starts with `LD_PRELOAD=`,
/// wherever it stands and whatever the value is, and nowhere else: not where the name is longer
/// or stands behind something, and not where the block cannot be read.
pub proof fn law_preloaded_libraries(
    enricher: &ProcEnricher,
    environ: Option<Vec<u8>>,
    set: bool,
    before: Seq<u8>,
    part: Seq<u8>,
)
    requires
        call_ensures(ProcEnricher::has_ld_preload, (enricher, &environ), set),
        forall|i: int| 0 <= i < part.len() ==> part[i] != 0,
    ensures
        environ is None ==> !set,
        environ is Some && environ->0@ == part ==> (set <==> preload_head().is_prefix_of(part)),
        environ is Some && environ->0@ == before + seq![0u8] + part && preload_head().is_prefix_of(
            part,
        ) ==> set,
        environ is Some && environ->0@ == part + seq![0u8] + before && preload_head().is_prefix_of(
            part,
        ) ==> set,
{
    lemma_preload_head(part);
    lemma_no_zero(part);
    lemma_zero_separated(before, part);
    lemma_zero_separated(part, before);
    let tail = zero_separated(before) + seq![part];
    assert(tail[tail.len() - 1] == part);
    let head = seq![part] + zero_separated(before);
    assert(head[0] == part);
    assert(seq![part][0] == part);
    if environ is Some {
        assert(opt_bytes(environ) == Some(environ->0@));
    }
}

/// A part of an environment block that sets `LD_PRELOAD`.
proof fn lemma_preload_head(part: Seq<u8>)
    ensures
        sets_preload(part) <==> preload_head().is_prefix_of(part),
{
    reveal_strlit("LD_PRELOAD=");
    let head = preload_head();
    assert forall|i: int| 0 <= i < 11 implies head[i] == "LD_PRELOAD="@[i] as int by {}
    if sets_preload(part) {
        assert forall|i: int| 0 <= i < 11 implies part.subrange(0, 11)[i] == head[i] by {
            assert(part[i] == "LD_PRELOAD="@[i] as int);
        }
        assert(head =~= part.subrange(0, 11));
    }
    if head.is_prefix_of(part) {
        assert forall|i: int| 0 <= i < 11 implies #[trigger] part[i] == "LD_PRELOAD="@[i] as int by {
            assert(part.subrange(0, 11)[i] == head[i]);
        }
    }
}

/// A variable that is set has its value, the others stay, and a new environment has none.
pub proof fn law_environment(
    env: Environ,
    name: String,
    value: String,
    after: Environ,
    other: &str,
    found: Option<String>,
    earlier: Option<String>,
    set: bool,
)
    requires
        call_ensures(Environ::insert, (env, name, value), after),
        call_ensures(Environ::get, (&after, other), found),
        call_ensures(Environ::get, (&env, other), earlier),
        call_ensures(Environ::contains_key, (&after, other), set),
    ensures
        other@ == name@ ==> opt_text(found) == Some(value@),
        other@ != name@ ==> opt_text(found) == opt_text(earlier),
        set <==> found is Some,
{
}

} // verus!
