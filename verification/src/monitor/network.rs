//! Established connections, found by reading `/proc`.

use crate::address::{byte_at, dotted, dotted_from_low};
use crate::collector::network_proc::{
    below_heading, hex_addr, inode_to_pid, law_address_reads_back, lemma_filter_keeps_all,
    owner_or_zero, parse_hex_addr, written_addr, ProcDir,
};
use crate::monitor::events::{Event, NetworkEvent};
use crate::number::{
    after_plus, all_digits, decimal, law_decimal_reads_back, lemma_decimal_digits,
    lemma_digits_value_nonnegative, read_unsigned, to_decimal, unsigned_value,
};
use crate::split::{
    char_lists, lines, sep, split, split_lines, split_on, split_whitespace, words,
};
use crate::text::{same_text, texts, to_chars};
use crate::time::Timestamp;
use vstd::prelude::*;

verus! {

/// How a connection is remembered: its process, address and port.
pub open spec fn connection_key(pid: int, ip: Seq<char>, port: int) -> Seq<char> {
    decimal(pid as nat) + "|"@ + ip + "|"@ + decimal(port as nat)
}

/// The number of the socket in the columns of a line; nought where it cannot be read.
pub open spec fn row_inode(columns: Seq<Seq<char>>) -> u64 {
    match unsigned_value(columns[9], 10, u64::MAX as int) {
        Some(n) => n as u64,
        None => 0,
    }
}

/// How the connection in a line of the list is remembered. Only an established one, which has
/// the state `01`, counts.
pub open spec fn row_key(line: Seq<char>, dirs: Seq<ProcDir>) -> Option<Seq<char>> {
    let columns = words(line);
    if columns.len() < 12 || columns[3] != "01"@ {
        None
    } else {
        match hex_addr(columns[2]) {
            Some((ip, port)) => Some(
                connection_key(owner_or_zero(dirs, row_inode(columns)), ip, port as int),
            ),
            None => None,
        }
    }
}

/// How the connections in the lines of a list are remembered.
pub open spec fn row_keys(rows: Seq<Seq<char>>, dirs: Seq<ProcDir>) -> Seq<Seq<char>>
    decreases rows.len(),
{
    if rows.len() == 0 {
        Seq::empty()
    } else {
        match row_key(rows.last(), dirs) {
            Some(key) => row_keys(rows.drop_last(), dirs).push(key),
            None => row_keys(rows.drop_last(), dirs),
        }
    }
}

/// Reads an address and a port.
pub fn parse_addr(hex: &str) -> (found: Option<(String, u16)>)
    ensures
        match found {
            Some((ip, port)) => hex_addr(hex@) == Some((ip@, port)),
            None => hex_addr(hex@) is None,
        },
{
    parse_hex_addr(hex)
}

/// Writes how a connection is remembered.
fn write_key(pid: u32, ip: &str, port: u16) -> (key: String)
    ensures
        key@ == connection_key(pid as int, ip@, port as int),
{
    let mut key = to_decimal(pid as u64);
    key.push_str("|");
    key.push_str(ip);
    key.push_str("|");
    key.push_str(to_decimal(port as u64).as_str());
    key
}

/// Reads one line of the list.
fn parse_row(line: &[char], dirs: &Vec<ProcDir>) -> (key: Option<String>)
    ensures
        crate::text::opt_text(key) == row_key(line@, dirs@),
{
    let columns = split_whitespace(line);
    let ghost cut = texts(columns@);
    assert(cut.len() == columns@.len());
    if columns.len() < 12 {
        return None;
    }
    assert(forall|i: int| 0 <= i < cut.len() ==> cut[i] == columns@[i]@);
    if !same_text(columns[3].as_str(), "01") {
        return None;
    }
    match parse_addr(columns[2].as_str()) {
        Some((ip, port)) => {
            let inode: u64 = match read_unsigned(
                to_chars(columns[9].as_str()).as_slice(),
                10,
                0xffff_ffff_ffff_ffff,
            ) {
                Some(n) => n,
                None => 0,
            };
            let pid: u32 = match inode_to_pid(dirs, inode) {
                Some(pid) => pid,
                None => 0,
            };
            Some(write_key(pid, ip.as_str(), port))
        },
        None => None,
    }
}

/// Reads the established connections from the content of `/proc/net/tcp`. `dirs` is what `/proc`
/// holds of the processes.
pub fn parse_tcp(content: &str, dirs: &Vec<ProcDir>) -> (keys: Vec<String>)
    ensures
        texts(keys@) == row_keys(below_heading(lines(content@)), dirs@),
{
    let all = split_lines(to_chars(content).as_slice());
    let ghost seen = char_lists(all@);
    let ghost rows = below_heading(seen);
    let mut keys: Vec<String> = Vec::new();
    assert(texts(keys@) =~= row_keys(rows.take(0), dirs@));
    if all.len() == 0 {
        assert(rows.take(0) =~= rows);
        return keys;
    }
    for i in 1..all.len()
        invariant
            seen == char_lists(all@),
            seen.len() > 0,
            rows == seen.drop_first(),
            texts(keys@) == row_keys(rows.take(i - 1), dirs@),
    {
        assert(rows.take(i as int).drop_last() =~= rows.take(i - 1));
        assert(rows.take(i as int).last() == all@[i as int]@);
        match parse_row(all[i].as_slice(), dirs) {
            Some(key) => {
                let ghost longer = texts(keys@).push(key@);
                keys.push(key);
                assert(texts(keys@) =~= longer);
            },
            None => {},
        }
    }
    assert(rows.take(rows.len() as int) =~= rows);
    keys
}

/// The connections of `current` that were not there before, in their order.
pub open spec fn unseen(seen: Seq<Seq<char>>, current: Seq<Seq<char>>) -> Seq<Seq<char>> {
    current.filter(|key: Seq<char>| !seen.contains(key))
}

/// Tells whether a connection is in a list.
fn listed(keys: &Vec<String>, key: &str) -> (found: bool)
    ensures
        found == texts(keys@).contains(key@),
{
    for i in 0..keys.len()
        invariant
            forall|k: int| 0 <= k < i ==> (#[trigger] texts(keys@)[k]) != key@,
    {
        if same_text(keys[i].as_str(), key) {
            assert(texts(keys@)[i as int] == key@);
            return true;
        }
        assert(texts(keys@)[i as int] != key@);
    }
    false
}

/// The connections of `current` that were not there before.
pub fn new_connections(seen: &Vec<String>, current: &Vec<String>) -> (fresh: Vec<String>)
    ensures
        texts(fresh@) == unseen(texts(seen@), texts(current@)),
{
    let ghost all = texts(current@);
    let ghost test = |key: Seq<char>| !texts(seen@).contains(key);
    let mut fresh: Vec<String> = Vec::new();
    assert(texts(fresh@) =~= all.take(0).filter(test)) by {
        reveal(Seq::filter);
    }
    for i in 0..current.len()
        invariant
            all == texts(current@),
            test == (|key: Seq<char>| !texts(seen@).contains(key)),
            texts(fresh@) == all.take(i as int).filter(test),
    {
        proof {
            reveal(Seq::filter);
            assert(all.take(i + 1).drop_last() =~= all.take(i as int));
            assert(all.take(i + 1).last() == current@[i as int]@);
        }
        if !listed(seen, current[i].as_str()) {
            let ghost longer = texts(fresh@).push(current@[i as int]@);
            fresh.push(current[i].clone());
            assert(texts(fresh@) =~= longer);
        }
    }
    assert(all.take(all.len() as int) =~= all);
    fresh
}

/// The number that a text writes; nought where it writes none.
pub open spec fn number_or_zero(s: Seq<char>, max: int) -> int {
    match unsigned_value(s, 10, max) {
        Some(n) => n,
        None => 0,
    }
}

/// The process, address and port that are remembered of a connection.
pub open spec fn key_parts(key: Seq<char>) -> Option<(int, Seq<char>, int)> {
    let parts = split_on(key, '|');
    if parts.len() == 3 {
        Some(
            (
                number_or_zero(parts[0], u32::MAX as int),
                parts[1],
                number_or_zero(parts[2], u16::MAX as int),
            ),
        )
    } else {
        None
    }
}

/// The event that tells of a connection at the given time.
pub open spec fn tells_of(event: Event, parts: (int, Seq<char>, int), now: Timestamp) -> bool {
    &&& event matches Event::Network(e)
    &&& e.pid == parts.0
    &&& e.dst_ip@ == parts.1
    &&& e.dst_port == parts.2
    &&& e.timestamp == now
}

/// Makes an event of what is remembered of a connection, at the given time.
pub fn connection_event_at(key: &str, now: Timestamp) -> (event: Option<Event>)
    ensures
        match event {
            Some(e) => key_parts(key@) matches Some(parts) && tells_of(e, parts, now),
            None => key_parts(key@) is None,
        },
{
    let parts = split(to_chars(key).as_slice(), '|');
    let ghost cut = texts(parts@);
    assert(cut.len() == parts@.len());
    if parts.len() != 3 {
        return None;
    }
    assert(cut[0] == parts@[0]@ && cut[1] == parts@[1]@ && cut[2] == parts@[2]@);
    let pid: u32 = match read_unsigned(to_chars(parts[0].as_str()).as_slice(), 10, 0xffff_ffff) {
        Some(n) => n as u32,
        None => 0,
    };
    let dst_port: u16 = match read_unsigned(to_chars(parts[2].as_str()).as_slice(), 10, 0xffff) {
        Some(n) => n as u16,
        None => 0,
    };
    Some(Event::Network(NetworkEvent { pid, dst_ip: parts[1].clone(), dst_port, timestamp: now }))
}

/// Makes an event of what is remembered of a connection, at the current time.
pub fn connection_event(key: &str) -> (event: Option<Event>)
    ensures
        match event {
            Some(e) => key_parts(key@) matches Some(parts) && exists|now: Timestamp|
                tells_of(e, parts, now),
            None => key_parts(key@) is None,
        },
{
    connection_event_at(key, Timestamp::now())
}

/// A text without the separator is one part.
proof fn lemma_split_whole(s: Seq<char>, c: char)
    requires
        !s.contains(c),
    ensures
        split_on(s, c) == seq![s],
    decreases s.len(),
{
    if s.len() > 0 {
        let front = s.drop_last();
        assert forall|x: char| front.contains(x) implies s.contains(x) by {
            let i = choose|i: int| 0 <= i < front.len() && front[i] == x;
            assert(s[i] == x);
        }
        lemma_split_whole(front, c);
        assert(s[s.len() - 1] != c) by {
            assert(s.contains(s[s.len() - 1]));
        }
        assert(front.push(s.last()) =~= s);
        assert(split_on(s, c) =~= seq![s]);
    } else {
        assert(split_on(s, c) =~= seq![s]);
    }
}

/// What follows a separator is split on its own.
proof fn lemma_split_after(a: Seq<char>, b: Seq<char>, c: char)
    ensures
        split_on(a + seq![c] + b, c) == split_on(a, c) + split_on(b, c),
    decreases b.len(),
{
    let head = a + seq![c];
    if b.len() == 0 {
        assert(head + b =~= head);
        assert(head.drop_last() =~= a);
        assert(head.last() == c);
        assert(b =~= Seq::<char>::empty());
        assert(split_on(head, c) =~= split_on(a, c) + split_on(b, c));
    } else {
        assert((head + b).drop_last() =~= head + b.drop_last());
        assert((head + b).last() == b.last());
        lemma_split_after(a, b.drop_last(), c);
        crate::split::lemma_split_nonempty(b.drop_last(), sep(c));
        assert(split_on(head + b, c) =~= split_on(a, c) + split_on(b, c));
    }
}

/// The digits of a number hold no bar.
proof fn lemma_decimal_has_no_bar(n: nat)
    ensures
        !decimal(n).contains('|'),
{
    lemma_decimal_digits(n);
}

/// What is remembered of a connection is what it was made from, for any address without a bar.
pub proof fn law_key_reads_back(pid: u32, ip: Seq<char>, port: u16)
    requires
        !ip.contains('|'),
    ensures
        key_parts(connection_key(pid as int, ip, port as int)) == Some(
            (pid as int, ip, port as int),
        ),
{
    reveal_strlit("|");
    let p = decimal(pid as nat);
    let q = decimal(port as nat);
    assert("|"@ =~= seq!['|']);
    lemma_decimal_has_no_bar(pid as nat);
    lemma_decimal_has_no_bar(port as nat);
    lemma_split_whole(p, '|');
    lemma_split_whole(ip, '|');
    lemma_split_whole(q, '|');
    lemma_split_after(ip, q, '|');
    lemma_split_after(p, ip + seq!['|'] + q, '|');
    assert(connection_key(pid as int, ip, port as int) =~= p + seq!['|'] + (ip + seq!['|'] + q));
    assert(split_on(connection_key(pid as int, ip, port as int), '|') =~= seq![p, ip, q]);
    law_decimal_reads_back(pid as nat, u32::MAX as int);
    law_decimal_reads_back(port as nat, u16::MAX as int);
}

/// An address in dotted form holds no bar.
proof fn lemma_address_has_no_bar(n: u32)
    ensures
        !dotted_from_low(n).contains('|'),
{
    reveal_strlit(".");
    lemma_decimal_digits(byte_at(n, 1));
    lemma_decimal_digits(byte_at(n, 0x100));
    lemma_decimal_digits(byte_at(n, 0x1_0000));
    lemma_decimal_digits(byte_at(n, 0x100_0000));
    assert forall|i: int| 0 <= i < dotted_from_low(n).len() implies dotted_from_low(n)[i]
        != '|' by {}
}

/// The process that a socket belongs to has a number of 32 bits.
proof fn lemma_owner_fits(dirs: Seq<ProcDir>, inode: u64)
    ensures
        0 <= owner_or_zero(dirs, inode) <= u32::MAX,
    decreases dirs.len(),
{
    if dirs.len() > 0 {
        lemma_owner_fits(dirs.drop_first(), inode);
        lemma_unsigned_value_nonnegative(dirs[0].name@);
    }
}

/// A number without a sign is not negative.
proof fn lemma_unsigned_value_nonnegative(s: Seq<char>)
    ensures
        unsigned_value(s, 10, u32::MAX as int) matches Some(n) ==> n >= 0,
{
    let digits = after_plus(s);
    if all_digits(digits, 10) {
        lemma_digits_value_nonnegative(digits, 10);
    }
}

/// Every connection that is read from the list is remembered in such a way that its address and
/// port, and the process that it belongs to, are read back.
pub proof fn law_every_connection_reads_back(line: Seq<char>, dirs: Seq<ProcDir>)
    requires
        row_key(line, dirs) is Some,
    ensures
        key_parts(row_key(line, dirs)->0) is Some,
        ({
            let parts = key_parts(row_key(line, dirs)->0)->0;
            &&& hex_addr(words(line)[2]) == Some((parts.1, parts.2 as u16))
            &&& parts.0 == owner_or_zero(dirs, row_inode(words(line)))
        }),
{
    let columns = words(line);
    let (ip, port) = hex_addr(columns[2])->0;
    let inode = row_inode(columns);
    let pid = owner_or_zero(dirs, inode);
    lemma_owner_fits(dirs, inode);
    let addr = unsigned_value(split_on(columns[2], ':')[0], 16, u32::MAX as int)->0 as u32;
    lemma_address_has_no_bar(addr);
    law_key_reads_back(pid as u32, ip, port);
}

/// An established connection of the list is remembered by the process that its socket belongs
/// to, and by the address and the port at its other end, whatever number of 64 bits the socket
/// has and whatever the other columns hold.
pub proof fn law_connection_is_remembered(
    line: Seq<char>,
    dirs: Seq<ProcDir>,
    a: u8,
    b: u8,
    c: u8,
    d: u8,
    port: u16,
    inode: u64,
)
    requires
        words(line).len() >= 12,
        words(line)[2] == written_addr(a, b, c, d, port),
        words(line)[3] == "01"@,
        words(line)[9] == decimal(inode as nat),
    ensures
        row_key(line, dirs) == Some(
            decimal(owner_or_zero(dirs, inode) as nat) + "|"@ + dotted(
                a as nat,
                b as nat,
                c as nat,
                d as nat,
            ) + "|"@ + decimal(port as nat),
        ),
        key_parts(row_key(line, dirs)->0) == Some(
            (
                owner_or_zero(dirs, inode),
                dotted(a as nat, b as nat, c as nat, d as nat),
                port as int,
            ),
        ),
{
    law_address_reads_back(a, b, c, d, port);
    law_decimal_reads_back(inode as nat, 0xffff_ffff_ffff_ffff);
    lemma_owner_fits(dirs, inode);
    lemma_dotted_has_no_bar(a as nat, b as nat, c as nat, d as nat);
    law_key_reads_back(
        owner_or_zero(dirs, inode) as u32,
        dotted(a as nat, b as nat, c as nat, d as nat),
        port,
    );
}

/// Four numbers with dots between them hold no bar.
proof fn lemma_dotted_has_no_bar(a: nat, b: nat, c: nat, d: nat)
    ensures
        !dotted(a, b, c, d).contains('|'),
{
    reveal_strlit(".");
    lemma_decimal_digits(a);
    lemma_decimal_digits(b);
    lemma_decimal_digits(c);
    lemma_decimal_digits(d);
    assert forall|i: int| 0 <= i < dotted(a, b, c, d).len() implies dotted(a, b, c, d)[i]
        != '|' by {}
}

/// Only lines with twelve columns, the state of an established connection and an address that can
/// be read tell of a connection, and every such line does.
pub proof fn law_which_lines_count(line: Seq<char>, dirs: Seq<ProcDir>)
    ensures
        row_key(line, dirs) is Some <==> words(line).len() >= 12 && words(line)[3] == "01"@
            && hex_addr(words(line)[2]) is Some,
        row_key(line, dirs) is Some && unsigned_value(
            words(line)[9],
            10,
            0xffff_ffff_ffff_ffff,
        ) is None ==> (key_parts(row_key(line, dirs)->0) matches Some((pid, _, _)) && pid
            == owner_or_zero(dirs, 0)),
{
    if row_key(line, dirs) is Some {
        law_every_connection_reads_back(line, dirs);
    }
}

/// Two lists, one behind the other, are remembered one behind the other.
proof fn lemma_keys_add(a: Seq<Seq<char>>, b: Seq<Seq<char>>, dirs: Seq<ProcDir>)
    ensures
        row_keys(a + b, dirs) == row_keys(a, dirs) + row_keys(b, dirs),
    decreases b.len(),
{
    if b.len() == 0 {
        assert(a + b =~= a);
        assert(row_keys(a + b, dirs) =~= row_keys(a, dirs) + row_keys(b, dirs));
    } else {
        lemma_keys_add(a, b.drop_last(), dirs);
        assert((a + b).drop_last() =~= a + b.drop_last());
        assert(row_keys(a + b, dirs) =~= row_keys(a, dirs) + row_keys(b, dirs));
    }
}

/// Every line adds the connection that it holds, if any, in the order of the lines.
pub proof fn law_keys_line_by_line(line: Seq<char>, rows: Seq<Seq<char>>, dirs: Seq<ProcDir>)
    ensures
        row_key(line, dirs) matches Some(key) ==> row_keys(seq![line] + rows, dirs) == seq![key]
            + row_keys(rows, dirs),
        row_key(line, dirs) is None ==> row_keys(seq![line] + rows, dirs) == row_keys(rows, dirs),
{
    lemma_keys_add(seq![line], rows, dirs);
    assert(seq![line].drop_last() =~= Seq::<Seq<char>>::empty());
    assert(row_keys(Seq::<Seq<char>>::empty(), dirs) =~= Seq::<Seq<char>>::empty());
    match row_key(line, dirs) {
        Some(key) => {
            assert(row_keys(seq![line], dirs) =~= seq![key]);
        },
        None => {
            assert(row_keys(seq![line], dirs) =~= Seq::<Seq<char>>::empty());
            assert(Seq::<Seq<char>>::empty() + row_keys(rows, dirs) =~= row_keys(rows, dirs));
        },
    }
}

/// What is left of a filtered list is what passes.
pub(crate) proof fn lemma_filter_contains<A>(list: Seq<A>, test: spec_fn(A) -> bool, item: A)
    ensures
        list.filter(test).contains(item) <==> list.contains(item) && test(item),
    decreases list.len(),
{
    reveal(Seq::filter);
    if list.len() > 0 {
        let front = list.drop_last();
        let last = list.last();
        let rest = front.filter(test);
        lemma_filter_contains(front, test, item);
        assert(list =~= front.push(last));
        if front.contains(item) {
            let i = choose|i: int| 0 <= i < front.len() && front[i] == item;
            assert(list[i] == item);
        }
        if list.contains(item) && item != last {
            let i = choose|i: int| 0 <= i < list.len() && list[i] == item;
            assert(front[i] == item);
        }
        if test(last) {
            let whole = rest.push(last);
            assert(list.filter(test) == whole);
            assert(whole[whole.len() - 1] == last);
            if rest.contains(item) {
                let i = choose|i: int| 0 <= i < rest.len() && rest[i] == item;
                assert(whole[i] == item);
            }
            if whole.contains(item) && item != last {
                let i = choose|i: int| 0 <= i < whole.len() && whole[i] == item;
                assert(rest[i] == item);
            }
            if item == last {
                assert(list[list.len() - 1] == item);
            }
        }
    }
}

/// The connections that are reported are those that are there now and were not there before.
pub proof fn law_only_new_connections(seen: Seq<Seq<char>>, current: Seq<Seq<char>>, key: Seq<char>)
    ensures
        unseen(seen, current).contains(key) <==> current.contains(key) && !seen.contains(key),
        unseen(current, current).len() == 0,
        seen.len() == 0 ==> unseen(seen, current) == current,
{
    let test = |k: Seq<char>| !seen.contains(k);
    let again = |k: Seq<char>| !current.contains(k);
    lemma_filter_contains(current, test, key);
    if unseen(current, current).len() > 0 {
        let first = unseen(current, current)[0];
        assert(unseen(current, current).contains(first));
        lemma_filter_contains(current, again, first);
    }
    if seen.len() == 0 {
        lemma_filter_keeps_all(current, test);
    }
}

/// The event that is made of what is remembered of a connection tells of it.
pub proof fn law_event_of_connection(
    event: Event,
    pid: u32,
    ip: Seq<char>,
    port: u16,
    now: Timestamp,
)
    requires
        !ip.contains('|'),
        tells_of(event, key_parts(connection_key(pid as int, ip, port as int))->0, now),
    ensures
        event is Network,
        event->Network_0.pid == pid,
        event->Network_0.dst_ip@ == ip,
        event->Network_0.dst_port == port,
        event->Network_0.timestamp == now,
{
    law_key_reads_back(pid, ip, port);
}

/// What is not a process, an address and a port with two bars between them tells of no
/// connection; a process or a port that is no number counts as nought.
pub proof fn law_unreadable_keys(a: Seq<char>, b: Seq<char>, c: Seq<char>)
    requires
        !a.contains('|'),
        !b.contains('|'),
        !c.contains('|'),
    ensures
        key_parts(a) is None,
        key_parts(a + seq!['|'] + b) is None,
        key_parts(a + seq!['|'] + (b + seq!['|'] + (c + seq!['|'] + a))) is None,
        key_parts(a + seq!['|'] + (b + seq!['|'] + c)) matches Some((pid, ip, port)) && {
            &&& ip == b
            &&& unsigned_value(a, 10, 0xffff_ffff) is None ==> pid == 0
            &&& unsigned_value(c, 10, 0xffff) is None ==> port == 0
        },
{
    lemma_split_whole(a, '|');
    lemma_split_whole(b, '|');
    lemma_split_whole(c, '|');
    lemma_split_after(a, b, '|');
    lemma_split_after(c, a, '|');
    lemma_split_after(b, c, '|');
    lemma_split_after(b, c + seq!['|'] + a, '|');
    lemma_split_after(a, b + seq!['|'] + c, '|');
    lemma_split_after(a, b + seq!['|'] + (c + seq!['|'] + a), '|');
}

} // verus!
