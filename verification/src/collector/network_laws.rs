//! What the lists of connections hold is what is read from them.

use super::network_proc::{
    ascending, below_heading, counted, fresh, hex_addr, is_scan, law_address_reads_back,
    law_fresh_connections, law_log_counts_window, log_after, logged, logged_series, owner_or_zero,
    owners, polled, seen_as, socket_link, socket_owner, tcp_row, tcp_rows, tells_of_connection,
    written_addr, ConnectionWatch, ProcDir, Sighting, TcpView, SCAN_WINDOW,
};
use super::proc_laws::{lemma_decimal_plain, without};
use crate::address::{dotted, dotted_from_high};
use crate::analyzer::operators::law_fields_of_connections;
use crate::analyzer::rule::field_text;
use crate::common::EdrEvent;
use crate::number::{
    after_plus, decimal, law_decimal_reads_back, lemma_digits_value_nonnegative, unsigned_value,
};
use crate::split::{
    law_lines_one_by_one, law_split_part_by_part, lemma_split_nonempty, lines, sep, split_on, words,
};
use crate::text::texts;
use crate::time::{span, Timestamp};
use vstd::arithmetic::div_mod::lemma_fundamental_div_mod_converse;
use vstd::prelude::*;

verus! {

/// An address in dotted form is four numbers between dots.
pub proof fn law_dotted_in_four(a: nat, b: nat, c: nat, d: nat)
    ensures
        split_on(dotted(a, b, c, d), '.') == seq![decimal(a), decimal(b), decimal(c), decimal(d)],
{
    reveal_strlit(".");
    assert("."@ =~= seq!['.']);
    let last = decimal(c) + seq!['.'] + decimal(d);
    let middle = decimal(b) + seq!['.'] + last;
    assert(dotted(a, b, c, d) =~= decimal(a) + seq!['.'] + middle);
    lemma_decimal_plain(a);
    lemma_decimal_plain(b);
    lemma_decimal_plain(c);
    lemma_decimal_plain(d);
    law_split_part_by_part(decimal(a), middle, '.');
    law_split_part_by_part(decimal(b), last, '.');
    law_split_part_by_part(decimal(c), decimal(d), '.');
    law_split_part_by_part(decimal(d), decimal(d), '.');
    assert(split_on(dotted(a, b, c, d), '.') =~= seq![
        decimal(a),
        decimal(b),
        decimal(c),
        decimal(d),
    ]);
}

/// A number made of four bytes is written as those bytes, from the highest to the lowest.
pub proof fn law_highest_byte_first(a: u8, b: u8, c: u8, d: u8, n: u32)
    requires
        n == 0x100_0000 * a + 0x1_0000 * b + 0x100 * c + d,
    ensures
        dotted_from_high(n) == dotted(a as nat, b as nat, c as nat, d as nat),
{
    let upper: int = 0x1_0000 * a + 0x100 * b + c;
    let top: int = 0x100 * a + b;
    lemma_fundamental_div_mod_converse(n as int, 0x100, upper, d as int);
    lemma_fundamental_div_mod_converse(n as int, 0x1_0000, top, 0x100 * c + d);
    lemma_fundamental_div_mod_converse(n as int, 0x100_0000, a as int, 0x1_0000 * b + 0x100 * c + d);
    lemma_fundamental_div_mod_converse(upper, 0x100, top, c as int);
    lemma_fundamental_div_mod_converse(top, 0x100, a as int, b as int);
}

/// An address and a port have exactly one colon between them, and both are numbers in
/// hexadecimal, of at most 32 and 16 bits. Nothing else is read.
pub proof fn law_addresses_have_two_numbers(a: Seq<char>, b: Seq<char>)
    requires
        without(a, ':'),
    ensures
        hex_addr(a) is None,
        without(b, ':') ==> (hex_addr(a + seq![':'] + b) is Some <==> unsigned_value(
            a,
            16,
            0xffff_ffff,
        ) is Some && unsigned_value(b, 16, 0xffff) is Some),
        without(b, ':') ==> (hex_addr(a + seq![':'] + b) matches Some((_, port)) ==> unsigned_value(
            b,
            16,
            0xffff,
        ) == Some(port as int)),
        !without(b, ':') ==> hex_addr(a + seq![':'] + b) is None,
{
    law_split_part_by_part(a, b, ':');
    law_split_part_by_part(b, b, ':');
    assert(split_on(a + seq![':'] + b, ':') == seq![a] + split_on(b, ':'));
    if unsigned_value(b, 16, 0xffff) is Some {
        lemma_digits_value_nonnegative(after_plus(b), 16);
    }
    if !without(b, ':') {
        let i = choose|i: int| 0 <= i < b.len() && b[i] == ':';
        let head = b.take(i);
        let tail = b.skip(i + 1);
        assert(b =~= head + seq![':'] + tail);
        law_split_part_by_part(head, tail, ':');
        lemma_split_nonempty(head, sep(':'));
        lemma_split_nonempty(tail, sep(':'));
    }
}

/// A line of the list with an established connection: the addresses and ports of both ends in
/// the second and the third column, the state in the fourth, the socket in the tenth. Every
/// number of 64 bits that stands there in decimal is read back, whatever the other columns hold.
pub proof fn law_connection_reads_back(
    line: Seq<char>,
    local: (u8, u8, u8, u8),
    local_port: u16,
    remote: (u8, u8, u8, u8),
    remote_port: u16,
    inode: u64,
)
    requires
        words(line).len() >= 12,
        words(line)[1] == written_addr(local.0, local.1, local.2, local.3, local_port),
        words(line)[2] == written_addr(remote.0, remote.1, remote.2, remote.3, remote_port),
        words(line)[3] == "01"@,
        words(line)[9] == decimal(inode as nat),
    ensures
        tcp_row(line) == Some(
            TcpView {
                local_addr: dotted(
                    local.0 as nat,
                    local.1 as nat,
                    local.2 as nat,
                    local.3 as nat,
                ),
                local_port,
                remote_addr: dotted(
                    remote.0 as nat,
                    remote.1 as nat,
                    remote.2 as nat,
                    remote.3 as nat,
                ),
                remote_port,
                inode,
            },
        ),
{
    law_address_reads_back(local.0, local.1, local.2, local.3, local_port);
    law_address_reads_back(remote.0, remote.1, remote.2, remote.3, remote_port);
    law_decimal_reads_back(inode as nat, 0xffff_ffff_ffff_ffff);
}

/// Which lines of the list hold a connection that counts: those with at least twelve columns,
/// the state of an established connection and two addresses that can be read, whatever else they
/// hold. The addresses are those of the second and the third column, and the socket is the
/// number in the tenth, or nought where that is none.
pub proof fn law_which_connections_count(line: Seq<char>)
    ensures
        tcp_row(line) is Some <==> {
            &&& words(line).len() >= 12
            &&& words(line)[3] == "01"@
            &&& hex_addr(words(line)[1]) is Some
            &&& hex_addr(words(line)[2]) is Some
        },
        tcp_row(line) matches Some(entry) ==> {
            &&& hex_addr(words(line)[1]) == Some((entry.local_addr, entry.local_port))
            &&& hex_addr(words(line)[2]) == Some((entry.remote_addr, entry.remote_port))
            &&& unsigned_value(words(line)[9], 10, 0xffff_ffff_ffff_ffff) matches Some(n)
                ==> entry.inode == n
            &&& unsigned_value(words(line)[9], 10, 0xffff_ffff_ffff_ffff) is None ==> entry.inode
                == 0
        },
{
    if unsigned_value(words(line)[9], 10, 0xffff_ffff_ffff_ffff) is Some {
        lemma_digits_value_nonnegative(
            after_plus(words(line)[9]),
            10,
        );
    }
}

/// The connections of two lists, one behind the other, are those of the first and then those of
/// the second.
proof fn lemma_rows_add(a: Seq<Seq<char>>, b: Seq<Seq<char>>)
    ensures
        tcp_rows(a + b) == tcp_rows(a) + tcp_rows(b),
    decreases b.len(),
{
    if b.len() == 0 {
        assert(a + b =~= a);
        assert(tcp_rows(a + b) =~= tcp_rows(a) + tcp_rows(b));
    } else {
        lemma_rows_add(a, b.drop_last());
        assert((a + b).drop_last() =~= a + b.drop_last());
        assert(tcp_rows(a + b) =~= tcp_rows(a) + tcp_rows(b));
    }
}

/// The list is read line by line: what stands in the first line is passed over, and every line
/// below it adds the connection that it holds, if any, in the order of the lines.
pub proof fn law_list_is_read_line_by_line(
    heading: Seq<char>,
    line: Seq<char>,
    more: Seq<char>,
)
    requires
        without(heading, '\n'),
        without(line, '\n'),
        without(line, '\r'),
    ensures
        tcp_rows(below_heading(lines(heading + seq!['\n'] + more))) == tcp_rows(lines(more)),
        tcp_row(line) matches Some(entry) ==> tcp_rows(lines(line + seq!['\n'] + more)) == seq![
            entry,
        ] + tcp_rows(lines(more)),
        tcp_row(line) is None ==> tcp_rows(lines(line + seq!['\n'] + more)) == tcp_rows(
            lines(more),
        ),
        tcp_rows(below_heading(lines(heading))).len() == 0,
{
    law_lines_one_by_one(heading, more);
    law_lines_one_by_one(line, more);
    assert(lines(heading + seq!['\n'] + more).drop_first() =~= lines(more));
    assert(lines(line + seq!['\n'] + more) == seq![line] + lines(more));
    lemma_rows_add(seq![line], lines(more));
    assert(seq![line].drop_last() =~= Seq::<Seq<char>>::empty());
    assert(tcp_rows(Seq::<Seq<char>>::empty()) =~= Seq::<TcpView>::empty());
    match tcp_row(line) {
        Some(entry) => {
            assert(tcp_rows(seq![line]) =~= seq![entry]);
        },
        None => {
            assert(tcp_rows(seq![line]) =~= Seq::<TcpView>::empty());
            assert(Seq::<TcpView>::empty() + tcp_rows(lines(more)) =~= tcp_rows(lines(more)));
        },
    }
    assert(seq![heading].drop_first() =~= Seq::<Seq<char>>::empty());
    assert(below_heading(lines(heading)) =~= Seq::<Seq<char>>::empty());
}

/// The directory is named by the process and has a link to the socket.
pub open spec fn has_socket(dir: ProcDir, pid: int, inode: u64) -> bool {
    &&& unsigned_value(dir.name@, 10, 0xffff_ffff) == Some(pid)
    &&& exists|k: int|
        0 <= k < dir.links@.len() && (#[trigger] dir.links@[k])@ == "socket:["@ + decimal(
            inode as nat,
        ) + "]"@
}

/// The directory is that of some process, and has a link to the socket.
pub open spec fn holds_socket(dir: ProcDir, inode: u64) -> bool {
    &&& unsigned_value(dir.name@, 10, 0xffff_ffff) is Some
    &&& has_socket(dir, unsigned_value(dir.name@, 10, 0xffff_ffff)->0, inode)
}

/// Whether a directory holds a socket, by the texts of its links.
proof fn lemma_holds_socket(dir: ProcDir, inode: u64)
    ensures
        texts(dir.links@).contains(socket_link(inode)) <==> exists|k: int|
            0 <= k < dir.links@.len() && (#[trigger] dir.links@[k])@ == "socket:["@ + decimal(
                inode as nat,
            ) + "]"@,
{
    let all = texts(dir.links@);
    if all.contains(socket_link(inode)) {
        let k = choose|k: int| 0 <= k < all.len() && all[k] == socket_link(inode);
        assert(dir.links@[k]@ == all[k]);
    }
    if exists|k: int|
        0 <= k < dir.links@.len() && (#[trigger] dir.links@[k])@ == "socket:["@ + decimal(
            inode as nat,
        ) + "]"@ {
        let k = choose|k: int|
            0 <= k < dir.links@.len() && (#[trigger] dir.links@[k])@ == "socket:["@ + decimal(
                inode as nat,
            ) + "]"@;
        assert(all[k] == socket_link(inode));
    }
}

/// A socket belongs to the process whose directory is the first, among those of processes, with
/// a link to it. Where no such directory is there, it belongs to none, and counts for process
/// nought.
pub proof fn law_owner_of_socket(dirs: Seq<ProcDir>, inode: u64, i: int)
    ensures
        socket_owner(dirs, inode) is None <==> forall|k: int|
            0 <= k < dirs.len() ==> !holds_socket(#[trigger] dirs[k], inode),
        0 <= i < dirs.len() && holds_socket(dirs[i], inode) && (forall|k: int|
            0 <= k < i ==> !holds_socket(#[trigger] dirs[k], inode)) ==> socket_owner(dirs, inode)
            == unsigned_value(dirs[i].name@, 10, 0xffff_ffff),
        socket_owner(dirs, inode) is None ==> owner_or_zero(dirs, inode) == 0,
        socket_owner(dirs, inode) matches Some(pid) ==> owner_or_zero(dirs, inode) == pid,
    decreases dirs.len(),
{
    if dirs.len() > 0 {
        let rest = dirs.drop_first();
        lemma_holds_socket(dirs[0], inode);
        law_owner_of_socket(rest, inode, i - 1);
        if holds_socket(dirs[0], inode) {
            assert(socket_owner(dirs, inode) == unsigned_value(dirs[0].name@, 10, 0xffff_ffff));
        } else {
            assert(socket_owner(dirs, inode) == socket_owner(rest, inode));
            if forall|k: int| 0 <= k < rest.len() ==> !holds_socket(#[trigger] rest[k], inode) {
                assert forall|k: int| 0 <= k < dirs.len() implies !holds_socket(
                    #[trigger] dirs[k],
                    inode,
                ) by {
                    if k > 0 {
                        assert(!holds_socket(rest[k - 1], inode));
                    }
                }
            } else {
                let k = choose|k: int|
                    0 <= k < rest.len() && holds_socket(#[trigger] rest[k], inode);
                assert(holds_socket(dirs[k + 1], inode));
            }
            if 0 < i < dirs.len() {
                assert(rest[i - 1] == dirs[i]);
                if forall|k: int| 0 <= k < i ==> !holds_socket(#[trigger] dirs[k], inode) {
                    assert forall|k: int| 0 <= k < i - 1 implies !holds_socket(
                        #[trigger] rest[k],
                        inode,
                    ) by {
                        assert(!holds_socket(dirs[k + 1], inode));
                    }
                }
            }
        }
    }
}

/// The directory of a process, named by its number, that has a link to a socket owns it, where no
/// other directory comes before it.
pub proof fn law_first_directory_owns(dirs: Seq<ProcDir>, pid: u32, inode: u64, k: int)
    requires
        dirs.len() > 0,
        dirs[0].name@ == decimal(pid as nat),
        0 <= k < dirs[0].links@.len(),
        dirs[0].links@[k]@ == "socket:["@ + decimal(inode as nat) + "]"@,
    ensures
        socket_owner(dirs, inode) == Some(pid as int),
        owner_or_zero(dirs, inode) == pid,
{
    law_decimal_reads_back(pid as nat, 0xffff_ffff);
    assert(holds_socket(dirs[0], inode));
    law_owner_of_socket(dirs, inode, 0);
}

/// The event that is made of a connection tells of its two ends as rules ask for them, of the
/// process that it belongs to and of the time.
pub proof fn law_event_tells_of_connection(
    event: EdrEvent,
    entry: TcpView,
    pid: u32,
    now: Timestamp,
)
    requires
        tells_of_connection(event, entry, pid, now),
    ensures
        event is Network,
        field_text(event, "src_ip"@) == entry.local_addr,
        field_text(event, "dst_ip"@) == entry.remote_addr,
        field_text(event, "dst_port"@) == decimal(entry.remote_port as nat),
        field_text(event, "pid"@) == decimal(pid as nat),
        event->Network_0.src_port == entry.local_port,
        event.pid_of() == pid,
        event.time_of() == now,
{
    law_fields_of_connections(event->Network_0, "pid"@);
}

/// Two lists of which the same items pass are filtered alike.
proof fn lemma_same_filter(
    times: Seq<u128>,
    first: spec_fn(u128) -> bool,
    second: spec_fn(u128) -> bool,
)
    requires
        forall|i: int| 0 <= i < times.len() ==> first(#[trigger] times[i]) == second(times[i]),
    ensures
        times.filter(first) == times.filter(second),
    decreases times.len(),
{
    reveal(Seq::filter);
    if times.len() > 0 {
        let front = times.drop_last();
        assert forall|i: int| 0 <= i < front.len() implies first(#[trigger] front[i]) == second(
            front[i],
        ) by {
            assert(first(times[i]) == second(times[i]));
        }
        lemma_same_filter(front, first, second);
        assert(first(times[times.len() - 1]) == second(times[times.len() - 1]));
    }
}

/// After a series of connections of a process, those are counted that were made at most ten
/// seconds before the last one, and no others.
pub proof fn law_connections_of_ten_seconds(times: Seq<u128>)
    requires
        times.len() > 0,
        ascending(times),
    ensures
        logged_series(times) == times.filter(|t: u128| times.last() - t <= 10_000_000_000),
        logged_series(times).len() <= 0xffff_ffff ==> counted(logged_series(times))
            == logged_series(times).len(),
        logged_series(times).len() > 0xffff_ffff ==> counted(logged_series(times)) == 0xffff_ffff,
{
    let now = times.last();
    let test = |t: u128| times.last() - t <= 10_000_000_000;
    law_log_counts_window(times);
    assert forall|i: int| 0 <= i < times.len() implies (span(#[trigger] times[i], now)
        <= SCAN_WINDOW) == test(times[i]) by {
        assert(times[i] <= times[times.len() - 1]);
    }
    lemma_same_filter(times, |t: u128| span(t, now) <= SCAN_WINDOW, test);
}

/// Every new connection of a process counts once, those of other processes do not: as long as
/// nothing has left the window, the log grows by as many as there are.
pub proof fn law_new_connections_count(
    watch: ConnectionWatch,
    pids: Seq<u32>,
    now: u128,
    pid: u32,
)
    requires
        forall|i: int|
            0 <= i < watch.log(pid).len() ==> (#[trigger] watch.log(pid)[i]) <= now && now
                - watch.log(pid)[i] <= 10_000_000_000,
    ensures
        log_after(watch, pids, now, pid).len() == watch.log(pid).len() + pids.filter(
            |p: u32| p == pid,
        ).len(),
        forall|i: int|
            0 <= i < log_after(watch, pids, now, pid).len() ==> (#[trigger] log_after(
                watch,
                pids,
                now,
                pid,
            )[i]) <= now && now - log_after(watch, pids, now, pid)[i] <= 10_000_000_000,
    decreases pids.len(),
{
    reveal(Seq::filter);
    if pids.len() > 0 {
        let front = pids.drop_last();
        law_new_connections_count(watch, front, now, pid);
        let before = log_after(watch, front, now, pid);
        let grown = before.push(now);
        if pids.last() == pid {
            assert(span(grown[0], now) <= SCAN_WINDOW) by {
                if before.len() > 0 {
                    assert(before[0] <= now);
                }
            }
            assert(logged(before, now) == grown);
            let after = log_after(watch, pids, now, pid);
            assert(after == grown);
            assert forall|i: int| 0 <= i < after.len() implies (#[trigger] after[i]) <= now && now
                - after[i] <= 10_000_000_000 by {
                if i < before.len() {
                    assert(before[i] <= now);
                }
            }
        }
    }
}

/// What is said of a new connection: the process of its socket, how many connections that
/// process has, and that it scans where these are more than the threshold.
pub proof fn law_what_sightings_say(
    sighting: Sighting,
    watch: ConnectionWatch,
    entries: Seq<TcpView>,
    dirs: Seq<ProcDir>,
    i: int,
    now: u128,
    threshold: u32,
)
    requires
        0 <= i < entries.len(),
        seen_as(sighting, watch, owners(entries, dirs).take(i + 1), now, threshold),
    ensures
        sighting.pid == owner_or_zero(dirs, entries[i].inode) as u32,
        sighting.count == log_after(
            watch,
            owners(entries, dirs).take(i + 1),
            now,
            sighting.pid,
        ).len(),
        sighting.scan <==> sighting.count > threshold,
{
}

/// A reading finds exactly the connections of the list that were not in the last one, each once,
/// and remembers the whole list: the same list a second time finds nothing and counts nothing.
pub proof fn law_readings_find_new_connections(
    before: ConnectionWatch,
    between: ConnectionWatch,
    after: ConnectionWatch,
    content: Seq<char>,
    dirs: Seq<ProcDir>,
    now: u128,
    later: u128,
    threshold: u32,
    first: Seq<Sighting>,
    second: Seq<Sighting>,
    entry: TcpView,
    pid: u32,
)
    requires
        polled(before, between, content, dirs, now, threshold, first),
        polled(between, after, content, dirs, later, threshold, second),
    ensures
        (exists|i: int| 0 <= i < first.len() && (#[trigger] first[i]).entry@ == entry) <==> tcp_rows(
            below_heading(lines(content)),
        ).contains(entry) && !before.known().contains(entry),
        forall|i: int, j: int|
            0 <= i < j < first.len() ==> (#[trigger] first[i]).entry@ != (
            #[trigger] first[j]).entry@,
        second.len() == 0,
        after.log(pid) == between.log(pid),
        after.known() == between.known(),
{
    let entries = fresh(before.known(), between.known());
    law_fresh_connections(before.known(), between.known());
    law_fresh_connections(between.known(), after.known());
    let again = fresh(between.known(), after.known());
    if again.len() > 0 {
        assert(again.contains(again[0]));
    }
    assert(owners(again, dirs) =~= Seq::<u32>::empty());
    assert(entries.contains(entry) <==> between.known().contains(entry) && !before.known().contains(
        entry,
    ));
    if entries.contains(entry) {
        let i = choose|i: int| 0 <= i < entries.len() && entries[i] == entry;
        assert(first[i].entry@ == entry);
    }
    if exists|i: int| 0 <= i < first.len() && (#[trigger] first[i]).entry@ == entry {
        let i = choose|i: int| 0 <= i < first.len() && (#[trigger] first[i]).entry@ == entry;
        assert(entries[i] == entry);
    }
    assert forall|i: int, j: int| 0 <= i < j < first.len() implies (#[trigger] first[i]).entry@ != (
    #[trigger] first[j]).entry@ by {
        assert(entries[i] != entries[j]);
    }
}

/// More connections than the threshold make a scan, and no fewer.
pub proof fn law_scans(count: usize, threshold: u32, scan: bool)
    requires
        call_ensures(is_scan, (count, threshold), scan),
    ensures
        scan <==> count > threshold,
{
}

} // verus!
