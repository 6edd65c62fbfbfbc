//! Connections listed in `/proc/net/tcp`: reading the list, finding the new ones, counting those
//! of each process.

use crate::address::{dotted, dotted_from_low, from_low};
use crate::common::{EdrEvent, NetworkEvent, NetworkProtocol};
use crate::collector::proc_enricher::{opt_int, read_u32, u32_value};
use crate::number::{
    after_plus, all_digits, decimal, digit_value, digits_value, is_digit, read_unsigned, to_decimal,
    unsigned_value,
};
use crate::split::{
    char_lists, lemma_two_parts, lines, split, split_lines, split_on, split_whitespace, words,
};
use crate::text::{same_text, texts, to_chars};
use crate::time::{elapsed, span, Timestamp};
use std::collections::{HashMap, VecDeque};
use vstd::arithmetic::div_mod::lemma_fundamental_div_mod_converse;
use vstd::prelude::*;

verus! {

broadcast use vstd::std_specs::hash::group_hash_axioms;

/// How long a connection counts towards a scan, in nanoseconds: ten seconds.
pub const SCAN_WINDOW: u128 = 10_000_000_000;

/// A connection of the list.
#[derive(Debug, Clone)]
pub struct TcpEntry {
    pub local_addr: String,
    pub local_port: u16,
    pub remote_addr: String,
    pub remote_port: u16,
    pub inode: u64,
}

/// What a connection of the list holds.
#[verifier::ext_equal]
pub struct TcpView {
    pub local_addr: Seq<char>,
    pub local_port: u16,
    pub remote_addr: Seq<char>,
    pub remote_port: u16,
    pub inode: u64,
}

impl View for TcpEntry {
    type V = TcpView;

    open spec fn view(&self) -> TcpView {
        TcpView {
            local_addr: self.local_addr@,
            local_port: self.local_port,
            remote_addr: self.remote_addr@,
            remote_port: self.remote_port,
            inode: self.inode,
        }
    }
}

/// What each connection of a list holds.
pub open spec fn tcp_views(entries: Seq<TcpEntry>) -> Seq<TcpView> {
    entries.map_values(|e: TcpEntry| e@)
}

/// The address and the port that `/proc/net/tcp` writes in hexadecimal, with a colon between
/// them. The first number of the address stands in the lowest byte.
pub open spec fn hex_addr(s: Seq<char>) -> Option<(Seq<char>, u16)> {
    let parts = split_on(s, ':');
    if parts.len() != 2 {
        None
    } else {
        match (
            unsigned_value(parts[0], 16, u32::MAX as int),
            unsigned_value(parts[1], 16, u16::MAX as int),
        ) {
            (Some(addr), Some(port)) => Some((dotted_from_low(addr as u32), port as u16)),
            _ => None,
        }
    }
}

/// The hexadecimal digit, in capitals, of a number below sixteen.
pub open spec fn hex_capital(d: int) -> char {
    if d < 10 {
        (48 + d) as char
    } else {
        (55 + d) as char
    }
}

/// A byte in two hexadecimal digits.
pub open spec fn hex_byte(n: u8) -> Seq<char> {
    seq![hex_capital(n as int / 16), hex_capital(n as int % 16)]
}

/// How `/proc/net/tcp` writes the address of four numbers, the last of them first, and the port.
pub open spec fn written_addr(a: u8, b: u8, c: u8, d: u8, port: u16) -> Seq<char> {
    (hex_byte(d) + hex_byte(c) + hex_byte(b) + hex_byte(a)).push(':') + (hex_byte(
        (port / 256) as u8,
    ) + hex_byte((port % 256) as u8))
}

/// The addresses and ports that `/proc/net/tcp` writes are read back.
pub proof fn law_address_reads_back(a: u8, b: u8, c: u8, d: u8, port: u16)
    ensures
        hex_addr(written_addr(a, b, c, d, port)) == Some(
            (dotted(a as nat, b as nat, c as nat, d as nat), port),
        ),
{
    let high = (port / 256) as u8;
    let low = (port % 256) as u8;
    let addr = hex_byte(d) + hex_byte(c) + hex_byte(b) + hex_byte(a);
    let gate = hex_byte(high) + hex_byte(low);
    let n: int = 0x100_0000 * d + 0x1_0000 * c + 0x100 * b + a;
    lemma_hex_addr(a, b, c, d);
    lemma_hex_port(high, low);
    lemma_two_parts(addr, gate, ':');
    let parts = split_on(written_addr(a, b, c, d, port), ':');
    assert(parts[0] == addr && parts[1] == gate);
    lemma_bytes_of(a, b, c, d);
}

/// The bytes of a number that is made of four.
proof fn lemma_bytes_of(a: u8, b: u8, c: u8, d: u8)
    ensures
        ({
            let n: int = 0x100_0000 * d + 0x1_0000 * c + 0x100 * b + a;
            0 <= n <= u32::MAX && dotted_from_low(n as u32) == dotted(
                a as nat,
                b as nat,
                c as nat,
                d as nat,
            )
        }),
{
    let n: int = 0x100_0000 * d + 0x1_0000 * c + 0x100 * b + a;
    let upper: int = 0x1_0000 * d + 0x100 * c + b;
    let top: int = 0x100 * d + c;
    lemma_fundamental_div_mod_converse(n, 0x100, upper, a as int);
    lemma_fundamental_div_mod_converse(n, 0x1_0000, top, 0x100 * b + a);
    lemma_fundamental_div_mod_converse(n, 0x100_0000, d as int, 0x1_0000 * c + 0x100 * b + a);
    lemma_fundamental_div_mod_converse(upper, 0x100, top, b as int);
    lemma_fundamental_div_mod_converse(top, 0x100, d as int, c as int);
}

/// What an address in hexadecimal writes.
proof fn lemma_hex_addr(a: u8, b: u8, c: u8, d: u8)
    ensures
        ({
            let addr = hex_byte(d) + hex_byte(c) + hex_byte(b) + hex_byte(a);
            &&& unsigned_value(addr, 16, u32::MAX as int) == Some(
                0x100_0000 * d + 0x1_0000 * c + 0x100 * b + a,
            )
            &&& forall|i: int| 0 <= i < addr.len() ==> addr[i] != ':'
        }),
{
    let none = Seq::<char>::empty();
    let first = none + hex_byte(d);
    let second = first + hex_byte(c);
    let third = second + hex_byte(b);
    let addr = third + hex_byte(a);
    lemma_hex_byte(none, d);
    lemma_hex_byte(first, c);
    lemma_hex_byte(second, b);
    lemma_hex_byte(third, a);
    assert(digits_value(none, 16) == 0);
    assert(first =~= hex_byte(d));
    lemma_digits_plain(addr);
}

/// What a port in hexadecimal writes.
proof fn lemma_hex_port(high: u8, low: u8)
    ensures
        ({
            let gate = hex_byte(high) + hex_byte(low);
            &&& unsigned_value(gate, 16, u16::MAX as int) == Some(0x100 * high + low)
            &&& forall|i: int| 0 <= i < gate.len() ==> gate[i] != ':'
        }),
{
    let none = Seq::<char>::empty();
    let first = none + hex_byte(high);
    let gate = first + hex_byte(low);
    lemma_hex_byte(none, high);
    lemma_hex_byte(first, low);
    assert(digits_value(none, 16) == 0);
    assert(first =~= hex_byte(high));
    lemma_digits_plain(gate);
}

/// Digits hold neither a sign nor a colon.
proof fn lemma_digits_plain(s: Seq<char>)
    requires
        all_digits(s, 16),
    ensures
        after_plus(s) == s,
        forall|i: int| 0 <= i < s.len() ==> s[i] != ':',
{
    assert forall|i: int| 0 <= i < s.len() implies s[i] != ':' by {
        assert(is_digit(s[i], 16));
    }
    if s.len() > 0 {
        assert(is_digit(s[0], 16));
    }
}

/// Two more hexadecimal digits.
proof fn lemma_hex_byte(s: Seq<char>, n: u8)
    requires
        all_digits(s, 16),
    ensures
        all_digits(s + hex_byte(n), 16),
        digits_value(s + hex_byte(n), 16) == digits_value(s, 16) * 256 + n,
{
    let longer = s + hex_byte(n);
    let middle = s.push(hex_capital(n as int / 16));
    assert(longer.drop_last() =~= middle);
    assert(middle.drop_last() =~= s);
    assert(longer.last() == hex_capital(n as int % 16));
    assert(middle.last() == hex_capital(n as int / 16));
    assert(digit_value(longer.last()) == n as int % 16);
    assert(digit_value(middle.last()) == n as int / 16);
    assert(digits_value(middle, 16) == digits_value(s, 16) * 16 + n as int / 16);
    assert(digits_value(longer, 16) == digits_value(middle, 16) * 16 + n as int % 16);
    assert forall|i: int| 0 <= i < longer.len() implies is_digit(#[trigger] longer[i], 16) by {
        if i < s.len() {
            assert(is_digit(s[i], 16));
        }
    }
}

/// The connection in a line of the list. Only an established one, which has the state `01`,
/// counts.
pub open spec fn tcp_row(line: Seq<char>) -> Option<TcpView> {
    let columns = words(line);
    if columns.len() < 12 || columns[3] != "01"@ {
        None
    } else {
        match (hex_addr(columns[1]), hex_addr(columns[2])) {
            (Some(local), Some(remote)) => Some(
                TcpView {
                    local_addr: local.0,
                    local_port: local.1,
                    remote_addr: remote.0,
                    remote_port: remote.1,
                    inode: match unsigned_value(columns[9], 10, u64::MAX as int) {
                        Some(n) => n as u64,
                        None => 0,
                    },
                },
            ),
            _ => None,
        }
    }
}

/// The connections in the lines of a list.
pub open spec fn tcp_rows(rows: Seq<Seq<char>>) -> Seq<TcpView>
    decreases rows.len(),
{
    if rows.len() == 0 {
        Seq::empty()
    } else {
        match tcp_row(rows.last()) {
            Some(entry) => tcp_rows(rows.drop_last()).push(entry),
            None => tcp_rows(rows.drop_last()),
        }
    }
}

/// The lines below the heading.
pub open spec fn below_heading(all: Seq<Seq<char>>) -> Seq<Seq<char>> {
    if all.len() > 0 {
        all.drop_first()
    } else {
        all
    }
}

/// Reads an address and a port.
pub fn parse_hex_addr(hex: &str) -> (found: Option<(String, u16)>)
    ensures
        match found {
            Some((addr, port)) => hex_addr(hex@) == Some((addr@, port)),
            None => hex_addr(hex@) is None,
        },
{
    let parts = split(to_chars(hex).as_slice(), ':');
    let ghost cut = texts(parts@);
    if parts.len() != 2 {
        return None;
    }
    assert(cut[0] == parts@[0]@ && cut[1] == parts@[1]@);
    let addr = read_unsigned(to_chars(parts[0].as_str()).as_slice(), 16, 0xffff_ffff);
    let port = read_unsigned(to_chars(parts[1].as_str()).as_slice(), 16, 0xffff);
    match (addr, port) {
        (Some(a), Some(p)) => Some((from_low(a as u32), p as u16)),
        _ => None,
    }
}

/// Reads one line of the list.
fn parse_row(line: &[char]) -> (found: Option<TcpEntry>)
    ensures
        match found {
            Some(entry) => tcp_row(line@) == Some(entry@),
            None => tcp_row(line@) is None,
        },
{
    let columns = split_whitespace(line);
    let ghost cut = texts(columns@);
    assert(cut.len() == columns@.len());
    if columns.len() < 12 {
        return None;
    }
    assert(forall|i: int| 0 <= i < cut.len() ==> cut[i] == columns@[i]@);
    if !same_text(columns[3].as_str(), "01") {
        return None;
    }
    match (parse_hex_addr(columns[1].as_str()), parse_hex_addr(columns[2].as_str())) {
        (Some(local), Some(remote)) => {
            let inode: u64 = match read_unsigned(
                to_chars(columns[9].as_str()).as_slice(),
                10,
                0xffff_ffff_ffff_ffff,
            ) {
                Some(n) => n,
                None => 0,
            };
            Some(
                TcpEntry {
                    local_addr: local.0,
                    local_port: local.1,
                    remote_addr: remote.0,
                    remote_port: remote.1,
                    inode,
                },
            )
        },
        _ => None,
    }
}

/// Reads the established connections from the content of `/proc/net/tcp`.
pub fn parse_proc_net_tcp(content: &str) -> (found: Vec<TcpEntry>)
    ensures
        tcp_views(found@) == tcp_rows(below_heading(lines(content@))),
{
    let all = split_lines(to_chars(content).as_slice());
    let ghost seen = char_lists(all@);
    let ghost rows = below_heading(seen);
    let mut found: Vec<TcpEntry> = Vec::new();
    assert(tcp_views(found@) =~= tcp_rows(rows.take(0)));
    if all.len() == 0 {
        assert(rows.take(0) =~= rows);
        return found;
    }
    for i in 1..all.len()
        invariant
            seen == char_lists(all@),
            seen.len() > 0,
            rows == seen.drop_first(),
            tcp_views(found@) == tcp_rows(rows.take(i - 1)),
    {
        assert(rows.take(i as int).drop_last() =~= rows.take(i - 1));
        assert(rows.take(i as int).last() == all@[i as int]@);
        match parse_row(all[i].as_slice()) {
            Some(entry) => {
                let ghost longer = tcp_views(found@).push(entry@);
                found.push(entry);
                assert(tcp_views(found@) =~= longer);
            },
            None => {},
        }
    }
    assert(rows.take(rows.len() as int) =~= rows);
    found
}

/// The connections of `current` that are not in `known`, each once, in the order in which they
/// first occur.
pub open spec fn fresh(known: Seq<TcpView>, current: Seq<TcpView>) -> Seq<TcpView>
    decreases current.len(),
{
    if current.len() == 0 {
        Seq::empty()
    } else {
        let before = fresh(known, current.drop_last());
        let last = current.last();
        if known.contains(last) || before.contains(last) {
            before
        } else {
            before.push(last)
        }
    }
}

/// A connection is new where it is there now and was not there before, and no new connection is
/// reported twice.
pub proof fn law_fresh_connections(known: Seq<TcpView>, current: Seq<TcpView>)
    ensures
        forall|e: TcpView| #[trigger]
            fresh(known, current).contains(e) <==> current.contains(e) && !known.contains(e),
        fresh(known, current).no_duplicates(),
    decreases current.len(),
{
    if current.len() > 0 {
        let front = current.drop_last();
        let before = fresh(known, front);
        let last = current.last();
        law_fresh_connections(known, front);
        assert(current =~= front.push(last));
        assert forall|e: TcpView| #[trigger]
            fresh(known, current).contains(e) <==> current.contains(e) && !known.contains(e) by {
            assert(current.contains(e) <==> front.contains(e) || e == last) by {
                if front.contains(e) {
                    let i = choose|i: int| 0 <= i < front.len() && front[i] == e;
                    assert(current[i] == e);
                }
                if e == last {
                    assert(current[current.len() - 1] == e);
                }
                if current.contains(e) && e != last {
                    let i = choose|i: int| 0 <= i < current.len() && current[i] == e;
                    assert(front[i] == e);
                }
            }
            if !(known.contains(last) || before.contains(last)) {
                let after = before.push(last);
                assert(after.contains(e) <==> before.contains(e) || e == last) by {
                    if before.contains(e) {
                        let i = choose|i: int| 0 <= i < before.len() && before[i] == e;
                        assert(after[i] == e);
                    }
                    if e == last {
                        assert(after[after.len() - 1] == e);
                    }
                    if after.contains(e) && e != last {
                        let i = choose|i: int| 0 <= i < after.len() && after[i] == e;
                        assert(before[i] == e);
                    }
                }
            }
        }
        if !(known.contains(last) || before.contains(last)) {
            let after = before.push(last);
            assert forall|i: int, j: int|
                0 <= i < after.len() && 0 <= j < after.len() && i != j implies after[i]
                != after[j] by {
                if i < before.len() && j < before.len() {
                    assert(before[i] != before[j]);
                } else if i < before.len() {
                    assert(before.contains(before[i]));
                } else {
                    assert(before.contains(before[j]));
                }
            }
        }
    } else {
        assert(forall|e: TcpView| !current.contains(e));
    }
}

/// Tells whether two connections hold the same.
fn same_entry(a: &TcpEntry, b: &TcpEntry) -> (same: bool)
    ensures
        same == (a@ == b@),
{
    a.local_port == b.local_port && a.remote_port == b.remote_port && a.inode == b.inode
        && same_text(a.local_addr.as_str(), b.local_addr.as_str()) && same_text(
        a.remote_addr.as_str(),
        b.remote_addr.as_str(),
    )
}

/// Tells whether a connection is in a list.
fn listed(entries: &Vec<TcpEntry>, entry: &TcpEntry) -> (found: bool)
    ensures
        found == tcp_views(entries@).contains(entry@),
{
    for i in 0..entries.len()
        invariant
            forall|k: int| 0 <= k < i ==> (#[trigger] tcp_views(entries@)[k]) != entry@,
    {
        if same_entry(&entries[i], entry) {
            assert(tcp_views(entries@)[i as int] == entry@);
            return true;
        }
        assert(tcp_views(entries@)[i as int] != entry@);
    }
    false
}

/// A copy of a connection.
fn copy_entry(entry: &TcpEntry) -> (copy: TcpEntry)
    ensures
        copy@ == entry@,
{
    TcpEntry {
        local_addr: entry.local_addr.clone(),
        local_port: entry.local_port,
        remote_addr: entry.remote_addr.clone(),
        remote_port: entry.remote_port,
        inode: entry.inode,
    }
}

/// Finds the connections that are there now and were not there before.
pub fn new_connections(known: &Vec<TcpEntry>, current: &Vec<TcpEntry>) -> (found: Vec<TcpEntry>)
    ensures
        tcp_views(found@) == fresh(tcp_views(known@), tcp_views(current@)),
{
    let mut found: Vec<TcpEntry> = Vec::new();
    let ghost now = tcp_views(current@);
    assert(tcp_views(found@) =~= fresh(tcp_views(known@), now.take(0)));
    for i in 0..current.len()
        invariant
            now == tcp_views(current@),
            tcp_views(found@) == fresh(tcp_views(known@), now.take(i as int)),
    {
        assert(now.take(i + 1).drop_last() =~= now.take(i as int));
        assert(now.take(i + 1).last() == current@[i as int]@);
        if !listed(known, &current[i]) && !listed(&found, &current[i]) {
            let ghost longer = tcp_views(found@).push(current@[i as int]@);
            found.push(copy_entry(&current[i]));
            assert(tcp_views(found@) =~= longer);
        }
    }
    assert(now.take(now.len() as int) =~= now);
    found
}

/// The event that tells of a connection.
pub open spec fn tells_of_connection(event: EdrEvent, entry: TcpView, pid: u32, now: Timestamp) -> bool {
    &&& event matches EdrEvent::Network(e)
    &&& e.pid == pid
    &&& e.timestamp == now
    &&& e.src_ip@ == entry.local_addr
    &&& e.src_port == entry.local_port
    &&& e.dst_ip@ == entry.remote_addr
    &&& e.dst_port == entry.remote_port
    &&& e.protocol == NetworkProtocol::Tcp
}

/// Makes an event of a connection, at the given time.
pub fn connection_event_at(entry: &TcpEntry, pid: u32, now: Timestamp) -> (event: EdrEvent)
    ensures
        tells_of_connection(event, entry@, pid, now),
{
    EdrEvent::Network(
        NetworkEvent {
            pid,
            timestamp: now,
            src_ip: entry.local_addr.clone(),
            src_port: entry.local_port,
            dst_ip: entry.remote_addr.clone(),
            dst_port: entry.remote_port,
            protocol: NetworkProtocol::Tcp,
        },
    )
}

/// Makes an event of a connection, at the current time.
pub fn connection_event(entry: &TcpEntry, pid: u32) -> (event: EdrEvent)
    ensures
        exists|now: Timestamp| tells_of_connection(event, entry@, pid, now),
{
    connection_event_at(entry, pid, Timestamp::now())
}

/// What is left of a log of times without those at its front that lie outside the window.
pub open spec fn purged(log: Seq<u128>, now: u128) -> Seq<u128>
    decreases log.len(),
{
    if log.len() > 0 && span(log[0], now) > SCAN_WINDOW {
        purged(log.drop_first(), now)
    } else {
        log
    }
}

/// The times of a log only go up.
pub open spec fn ascending(log: Seq<u128>) -> bool {
    forall|i: int, j: int| 0 <= i <= j < log.len() ==> log[i] <= log[j]
}

/// Where the times of a log only go up, what is left of it are all its times within the window,
/// and no others.
pub proof fn law_purged_is_window(log: Seq<u128>, now: u128)
    requires
        ascending(log),
    ensures
        purged(log, now) == log.filter(|t: u128| span(t, now) <= SCAN_WINDOW),
    decreases log.len(),
{
    let within = |t: u128| span(t, now) <= SCAN_WINDOW;
    if log.len() > 0 && span(log[0], now) > SCAN_WINDOW {
        let rest = log.drop_first();
        assert(ascending(rest)) by {
            assert forall|i: int, j: int| 0 <= i <= j < rest.len() implies rest[i] <= rest[j] by {
                assert(log[i + 1] <= log[j + 1]);
            }
        }
        law_purged_is_window(rest, now);
        assert(log =~= seq![log[0]] + rest);
        Seq::filter_distributes_over_add(seq![log[0]], rest, within);
        assert(seq![log[0]].filter(within) =~= Seq::<u128>::empty()) by {
            reveal_with_fuel(Seq::filter, 2);
            assert(!within(seq![log[0]].last()));
            assert(seq![log[0]].drop_last() =~= Seq::<u128>::empty());
        }
        assert(log.filter(within) =~= rest.filter(within));
    } else {
        assert forall|i: int| 0 <= i < log.len() implies within(#[trigger] log[i]) by {
            assert(log[0] <= log[i]);
        }
        lemma_filter_keeps_all(log, within);
    }
}

/// A list of which every item passes a test is kept whole.
pub(crate) proof fn lemma_filter_keeps_all<A>(log: Seq<A>, test: spec_fn(A) -> bool)
    requires
        forall|i: int| 0 <= i < log.len() ==> test(#[trigger] log[i]),
    ensures
        log.filter(test) == log,
    decreases log.len(),
{
    reveal(Seq::filter);
    if log.len() > 0 {
        assert forall|i: int| 0 <= i < log.drop_last().len() implies test(
            #[trigger] log.drop_last()[i],
        ) by {
            assert(test(log[i]));
        }
        lemma_filter_keeps_all(log.drop_last(), test);
        assert(test(log[log.len() - 1]));
        assert(log.drop_last().push(log.last()) =~= log);
    }
}

/// The log of a process after one more connection.
pub open spec fn logged(log: Seq<u128>, now: u128) -> Seq<u128> {
    purged(log.push(now), now)
}

/// How many connections a log holds, as far as 32 bits hold it.
pub open spec fn counted(log: Seq<u128>) -> u32 {
    if log.len() > u32::MAX {
        u32::MAX
    } else {
        log.len() as u32
    }
}

/// The log of a process after a series of connections, from nothing on.
pub open spec fn logged_series(times: Seq<u128>) -> Seq<u128>
    decreases times.len(),
{
    if times.len() == 0 {
        Seq::empty()
    } else {
        logged(logged_series(times.drop_last()), times.last())
    }
}

/// The times of a series that lie within the window before a time.
pub open spec fn within_window(times: Seq<u128>, now: u128) -> Seq<u128> {
    times.filter(|t: u128| span(t, now) <= SCAN_WINDOW)
}

/// The log of a process holds exactly its connections within the window before the last one, so
/// that its length is the number of them.
pub proof fn law_log_counts_window(times: Seq<u128>)
    requires
        times.len() > 0,
        ascending(times),
    ensures
        logged_series(times) == within_window(times, times.last()),
    decreases times.len(),
{
    let now = times.last();
    let front = times.drop_last();
    let test = |t: u128| span(t, now) <= SCAN_WINDOW;
    assert(ascending(front));
    if front.len() > 0 {
        let prev = front.last();
        let earlier = |t: u128| span(t, prev) <= SCAN_WINDOW;
        law_log_counts_window(front);
        let log = front.filter(earlier);
        lemma_filter_ascends(front, earlier);
        assert(times[times.len() - 2] <= times[times.len() - 1]);
        assert(ascending(log.push(now)));
        law_purged_is_window(log.push(now), now);
        log.lemma_filter_push(now, test);
        assert forall|i: int| 0 <= i < front.len() && test(#[trigger] front[i]) implies earlier(
            front[i],
        ) by {
            assert(times[i] <= times[times.len() - 2]);
        }
        lemma_filter_twice(front, earlier, test);
        front.lemma_filter_push(now, test);
        assert(front.push(now) =~= times);
    } else {
        assert(logged_series(front) =~= Seq::<u128>::empty());
        assert(front.push(now) =~= times);
        law_purged_is_window(front.push(now), now);
    }
}

/// A filtered list of ascending times ascends, and its last time is none after that of the list.
proof fn lemma_filter_ascends(times: Seq<u128>, test: spec_fn(u128) -> bool)
    requires
        ascending(times),
    ensures
        ascending(times.filter(test)),
        forall|i: int|
            0 <= i < times.filter(test).len() ==> #[trigger] times.filter(test)[i]
                <= times.last(),
    decreases times.len(),
{
    reveal(Seq::filter);
    if times.len() > 0 {
        let front = times.drop_last();
        lemma_filter_ascends(front, test);
        if front.len() > 0 {
            assert(times[times.len() - 2] <= times[times.len() - 1]);
        } else {
            assert(front.filter(test) =~= Seq::<u128>::empty());
        }
    }
}

/// A second filter that is the stricter one makes the first one superfluous.
pub(crate) proof fn lemma_filter_twice<A>(
    times: Seq<A>,
    first: spec_fn(A) -> bool,
    second: spec_fn(A) -> bool,
)
    requires
        forall|i: int|
            0 <= i < times.len() && second(#[trigger] times[i]) ==> first(times[i]),
    ensures
        times.filter(first).filter(second) == times.filter(second),
    decreases times.len(),
{
    reveal(Seq::filter);
    if times.len() > 0 {
        let front = times.drop_last();
        assert forall|i: int| 0 <= i < front.len() && second(#[trigger] front[i]) implies first(
            front[i],
        ) by {
            assert(times[i] == front[i]);
        }
        lemma_filter_twice(front, first, second);
        let last = times[times.len() - 1];
        assert(second(last) ==> first(last));
        if first(last) {
            front.filter(first).lemma_filter_push(last, second);
        }
    }
}

/// Counts the connections of each process within the window.
pub struct ScanDetector {
    logs: HashMap<u32, VecDeque<u128>>,
}

impl ScanDetector {
    /// The times of the connections of a process, from the first to the last.
    pub closed spec fn log(self, pid: u32) -> Seq<u128> {
        if self.logs@.contains_key(pid) {
            self.logs@[pid]@
        } else {
            Seq::empty()
        }
    }

    /// Nothing has been counted yet.
    pub fn new() -> (detector: ScanDetector)
        ensures
            forall|pid: u32| #[trigger] detector.log(pid) == Seq::<u128>::empty(),
    {
        ScanDetector { logs: HashMap::new() }
    }

    /// How many connections a process would have within the window with one more, as far as 32
    /// bits hold it. Nothing is counted.
    pub fn count_at(&self, pid: u32, now: u128) -> (count: u32)
        ensures
            count == counted(logged(self.log(pid), now)),
    {
        match self.logs.get(&pid) {
            Some(log) => {
                let len = log.len();
                let ghost all = log@.push(now);
                let mut i: usize = 0;
                assert(all.skip(0) =~= all);
                while i < len && elapsed(log[i], now) > SCAN_WINDOW
                    invariant
                        len == log@.len(),
                        i <= len,
                        all == log@.push(now),
                        purged(all, now) == purged(all.skip(i as int), now),
                    decreases len - i,
                {
                    assert(all.skip(i as int).drop_first() =~= all.skip(i + 1));
                    i = i + 1;
                }
                let before: usize = len - i;
                if before >= 0xffff_ffff {
                    0xffff_ffff
                } else {
                    before as u32 + 1
                }
            },
            None => {
                assert(Seq::<u128>::empty().push(now).len() == 1);
                1
            },
        }
    }

    /// Counts one more connection of a process, and tells how many it has within the window.
    pub fn record(&mut self, pid: u32, now: u128) -> (count: usize)
        ensures
            final(self).log(pid) == logged(old(self).log(pid), now),
            forall|other: u32|
                other != pid ==> #[trigger] final(self).log(other) == old(self).log(other),
            count == final(self).log(pid).len(),
    {
        let mut log: VecDeque<u128> = match self.logs.remove(&pid) {
            Some(log) => log,
            None => VecDeque::new(),
        };
        assert(log@ == old(self).log(pid));
        log.push_back(now);
        while log.len() > 0 && elapsed(log[0], now) > SCAN_WINDOW
            invariant
                logged(old(self).log(pid), now) == purged(log@, now),
            decreases log@.len(),
        {
            let ghost before = log@;
            log.pop_front();
            assert(log@ =~= before.drop_first());
        }
        let count = log.len();
        self.logs.insert(pid, log);
        count
    }
}

/// Tells whether a count of connections within the window is a potential scan.
pub fn is_scan(count: usize, threshold: u32) -> (scan: bool)
    ensures
        scan == (count > threshold),
{
    count > threshold as usize
}

/// Where the link of an open socket leads.
pub open spec fn socket_link(inode: u64) -> Seq<char> {
    "socket:["@ + decimal(inode as nat) + "]"@
}

/// A directory below `/proc`: its name, and where the links in its `fd` directory lead.
pub struct ProcDir {
    pub name: String,
    pub links: Vec<String>,
}

/// The process of the first directory that is named by a process and has the socket open.
pub open spec fn socket_owner(dirs: Seq<ProcDir>, inode: u64) -> Option<int>
    decreases dirs.len(),
{
    if dirs.len() == 0 {
        None
    } else {
        match u32_value(dirs[0].name@) {
            Some(pid) if texts(dirs[0].links@).contains(socket_link(inode)) => Some(pid),
            _ => socket_owner(dirs.drop_first(), inode),
        }
    }
}

/// Writes where the link of an open socket leads.
fn socket_target(inode: u64) -> (s: String)
    ensures
        s@ == socket_link(inode),
{
    let mut s = "socket:[".to_owned();
    s.push_str(to_decimal(inode).as_str());
    s.push_str("]");
    s
}

/// Tells whether a text is in a list.
fn listed_text(list: &Vec<String>, s: &str) -> (found: bool)
    ensures
        found == texts(list@).contains(s@),
{
    for i in 0..list.len()
        invariant
            forall|k: int| 0 <= k < i ==> (#[trigger] texts(list@)[k]) != s@,
    {
        if same_text(list[i].as_str(), s) {
            assert(texts(list@)[i as int] == s@);
            return true;
        }
        assert(texts(list@)[i as int] != s@);
    }
    false
}

/// Finds the process that has a socket open.
pub fn inode_to_pid(dirs: &Vec<ProcDir>, inode: u64) -> (pid: Option<u32>)
    ensures
        opt_int(pid) == socket_owner(dirs@, inode),
{
    let target = socket_target(inode);
    assert(dirs@.skip(0) =~= dirs@);
    for i in 0..dirs.len()
        invariant
            target@ == socket_link(inode),
            socket_owner(dirs@, inode) == socket_owner(dirs@.skip(i as int), inode),
    {
        assert(dirs@.skip(i as int).drop_first() =~= dirs@.skip(i + 1));
        match read_u32(to_chars(dirs[i].name.as_str()).as_slice()) {
            Some(pid) => {
                if listed_text(&dirs[i].links, target.as_str()) {
                    return Some(pid);
                }
            },
            None => {},
        }
    }
    assert(dirs@.skip(dirs@.len() as int) =~= Seq::<ProcDir>::empty());
    None
}

/// The process that a socket belongs to; nought where it is not found.
pub open spec fn owner_or_zero(dirs: Seq<ProcDir>, inode: u64) -> int {
    match socket_owner(dirs, inode) {
        Some(pid) => pid,
        None => 0,
    }
}

/// A connection that was not there before: the process that it belongs to, how many connections
/// this process has made within the window, and whether that is a potential scan.
#[derive(Debug, Clone)]
pub struct Sighting {
    pub entry: TcpEntry,
    pub pid: u32,
    pub count: usize,
    pub scan: bool,
}

/// The log of a process after a connection at the time `now` was logged for each of `pids`.
pub open spec fn log_after(watch: ConnectionWatch, pids: Seq<u32>, now: u128, pid: u32) -> Seq<u128>
    decreases pids.len(),
{
    if pids.len() == 0 {
        watch.log(pid)
    } else {
        let before = log_after(watch, pids.drop_last(), now, pid);
        if pids.last() == pid {
            logged(before, now)
        } else {
            before
        }
    }
}

/// What is said of the last of new connections that belong to `pids`.
pub open spec fn seen_as(
    sighting: Sighting,
    watch: ConnectionWatch,
    pids: Seq<u32>,
    now: u128,
    threshold: u32,
) -> bool {
    &&& sighting.pid == pids.last()
    &&& sighting.count == log_after(watch, pids, now, pids.last()).len()
    &&& sighting.scan == (sighting.count > threshold)
}

/// The processes that a list of new connections belongs to.
pub open spec fn owners(entries: Seq<TcpView>, dirs: Seq<ProcDir>) -> Seq<u32> {
    entries.map_values(|e: TcpView| owner_or_zero(dirs, e.inode) as u32)
}

/// What a reading of the list of connections leads to: the connections that were not there
/// before, with what is said of each, and what is remembered.
pub open spec fn polled(
    before: ConnectionWatch,
    after: ConnectionWatch,
    content: Seq<char>,
    dirs: Seq<ProcDir>,
    now: u128,
    threshold: u32,
    found: Seq<Sighting>,
) -> bool {
    let entries = fresh(before.known(), after.known());
    let pids = owners(entries, dirs);
    &&& after.known() == tcp_rows(below_heading(lines(content)))
    &&& found.len() == entries.len()
    &&& forall|i: int|
        0 <= i < found.len() ==> (#[trigger] found[i]).entry@ == entries[i] && seen_as(
            found[i],
            before,
            pids.take(i + 1),
            now,
            threshold,
        )
    &&& forall|pid: u32| #[trigger] after.log(pid) == log_after(before, pids, now, pid)
}

/// Watches the list of connections from one reading to the next.
pub struct ConnectionWatch {
    seen: Vec<TcpEntry>,
    detector: ScanDetector,
}

impl ConnectionWatch {
    /// The connections of the last reading.
    pub closed spec fn known(self) -> Seq<TcpView> {
        tcp_views(self.seen@)
    }

    /// The times of the connections of a process.
    pub closed spec fn log(self, pid: u32) -> Seq<u128> {
        self.detector.log(pid)
    }

    /// Nothing has been read yet.
    pub fn new() -> (watch: ConnectionWatch)
        ensures
            watch.known() == Seq::<TcpView>::empty(),
            forall|pid: u32| #[trigger] watch.log(pid) == Seq::<u128>::empty(),
    {
        let watch = ConnectionWatch { seen: Vec::new(), detector: ScanDetector::new() };
        assert(watch.known() =~= Seq::<TcpView>::empty());
        watch
    }

    /// Takes the content of `/proc/net/tcp` at the time `now`, and gives the connections that
    /// were not there before. `dirs` is what `/proc` holds of the processes, and a process with
    /// more than `threshold` connections within the window makes a scan.
    pub fn poll(&mut self, content: &str, dirs: &Vec<ProcDir>, now: u128, threshold: u32) -> (found:
        Vec<Sighting>)
        ensures
            polled(*old(self), *final(self), content@, dirs@, now, threshold, found@),
    {
        let current = parse_proc_net_tcp(content);
        let new = new_connections(&self.seen, &current);
        let ghost entries = fresh(self.known(), tcp_views(current@));
        let ghost pids = owners(entries, dirs@);
        let mut found: Vec<Sighting> = Vec::new();
        for i in 0..new.len()
            invariant
                entries == tcp_views(new@),
                pids == owners(entries, dirs@),
                self.known() == old(self).known(),
                found@.len() == i,
                forall|k: int|
                    0 <= k < i ==> (#[trigger] found@[k]).entry@ == entries[k] && seen_as(
                        found@[k],
                        *old(self),
                        pids.take(k + 1),
                        now,
                        threshold,
                    ),
                forall|pid: u32| #[trigger]
                    self.log(pid) == log_after(*old(self), pids.take(i as int), now, pid),
        {
            let pid: u32 = match inode_to_pid(dirs, new[i].inode) {
                Some(pid) => pid,
                None => 0,
            };
            assert(entries[i as int] == new@[i as int]@);
            assert(pid == pids[i as int]);
            let ghost before = *self;
            let count = self.detector.record(pid, now);
            assert(pids.take(i + 1).drop_last() =~= pids.take(i as int));
            assert forall|p: u32| #[trigger] self.log(p) == log_after(
                *old(self),
                pids.take(i + 1),
                now,
                p,
            ) by {
                assert(before.log(p) == log_after(*old(self), pids.take(i as int), now, p));
            }
            assert(count == self.log(pid).len());
            found.push(
                Sighting {
                    entry: copy_entry(&new[i]),
                    pid,
                    count,
                    scan: is_scan(count, threshold),
                },
            );
        }
        assert(pids.take(pids.len() as int) =~= pids);
        let ghost counted = *self;
        self.seen = current;
        assert forall|pid: u32| #[trigger] self.log(pid) == log_after(
            *old(self),
            pids,
            now,
            pid,
        ) by {
            assert(counted.log(pid) == log_after(*old(self), pids, now, pid));
        }
        found
    }
}

} // verus!
