//! What `/proc` and the user database tell of a process.

use crate::encoding::{
    ascii_bytes, ascii_chars, from_utf8_lossy, keeps_ascii_head, same_head, utf8_lossy,
};
use crate::number::{read_unsigned, unsigned_value};
use crate::split::{lines, split, split_lines, split_on, split_whitespace, words};
use crate::text::{
    from_chars, opt_text, replace, replaced, same_text, texts, to_chars, trim, trimmed,
};
use std::collections::HashMap;
use vstd::prelude::*;

verus! {

broadcast use vstd::std_specs::hash::group_hash_axioms;

/// The variables of an environment; no name occurs twice.
#[derive(Debug)]
pub struct Environ {
    entries: Vec<(String, String)>,
}

/// What a list of settings amounts to, the later ones going before the earlier ones.
pub open spec fn settings(entries: Seq<(Seq<char>, Seq<char>)>) -> Map<Seq<char>, Seq<char>>
    decreases entries.len(),
{
    if entries.len() == 0 {
        Map::empty()
    } else {
        settings(entries.drop_last()).insert(entries.last().0, entries.last().1)
    }
}

/// No name occurs twice.
pub open spec fn distinct_names(entries: Seq<(Seq<char>, Seq<char>)>) -> bool {
    forall|i: int, j: int|
        0 <= i < j < entries.len() ==> (#[trigger] entries[i]).0 != (#[trigger] entries[j]).0
}

/// A name is set where it occurs; where it occurs once, to what stands there.
proof fn lemma_settings(entries: Seq<(Seq<char>, Seq<char>)>)
    ensures
        forall|k: Seq<char>| #[trigger]
            settings(entries).contains_key(k) <==> exists|i: int|
                0 <= i < entries.len() && (#[trigger] entries[i]).0 == k,
        distinct_names(entries) ==> forall|i: int|
            0 <= i < entries.len() ==> settings(entries)[(#[trigger] entries[i]).0]
                == entries[i].1,
    decreases entries.len(),
{
    if entries.len() > 0 {
        let front = entries.drop_last();
        lemma_settings(front);
        let last = entries.last();
        assert(settings(entries) == settings(front).insert(last.0, last.1));
        assert forall|k: Seq<char>| #[trigger]
            settings(entries).contains_key(k) <==> exists|i: int|
                0 <= i < entries.len() && (#[trigger] entries[i]).0 == k by {
            if settings(entries).contains_key(k) {
                if k == last.0 {
                    assert(entries[entries.len() - 1].0 == k);
                } else {
                    assert(settings(front).contains_key(k));
                    let i = choose|i: int| 0 <= i < front.len() && (#[trigger] front[i]).0 == k;
                    assert(entries[i].0 == k);
                }
            }
            if exists|i: int| 0 <= i < entries.len() && (#[trigger] entries[i]).0 == k {
                let i = choose|i: int| 0 <= i < entries.len() && (#[trigger] entries[i]).0 == k;
                if i < front.len() {
                    assert(front[i].0 == k);
                    assert(settings(front).contains_key(k));
                }
            }
        }
        if distinct_names(entries) {
            assert forall|i: int, j: int| 0 <= i < j < front.len() implies (#[trigger] front[i]).0
                != (#[trigger] front[j]).0 by {
                assert(entries[i].0 != entries[j].0);
            }
            assert forall|i: int| 0 <= i < entries.len() implies settings(
                entries,
            )[(#[trigger] entries[i]).0] == entries[i].1 by {
                if i < front.len() {
                    assert(entries[i].0 != entries[entries.len() - 1].0);
                    assert(settings(front)[front[i].0] == front[i].1);
                }
            }
        }
    }
}

/// The names and values of a list of settings.
pub open spec fn setting_texts(entries: Seq<(String, String)>) -> Seq<(Seq<char>, Seq<char>)> {
    entries.map_values(|e: (String, String)| (e.0@, e.1@))
}

impl View for Environ {
    type V = Map<Seq<char>, Seq<char>>;

    closed spec fn view(&self) -> Map<Seq<char>, Seq<char>> {
        settings(setting_texts(self.entries@))
    }
}

/// The position of the first `=`.
pub open spec fn equals_at(s: Seq<char>) -> Option<int>
    decreases s.len(),
{
    if s.len() == 0 {
        None
    } else {
        match equals_at(s.drop_last()) {
            Some(i) => Some(i),
            None => if s.last() == '=' {
                Some(s.len() - 1)
            } else {
                None
            },
        }
    }
}

/// The variables after one more setting, written as a name, `=` and a value. A text without `=`
/// sets nothing.
pub open spec fn with_setting(
    env: Map<Seq<char>, Seq<char>>,
    setting: Seq<char>,
) -> Map<Seq<char>, Seq<char>> {
    match equals_at(setting) {
        Some(i) => env.insert(setting.take(i), setting.skip(i + 1)),
        None => env,
    }
}

impl Environ {
    #[verifier::type_invariant]
    closed spec fn no_name_twice(self) -> bool {
        distinct_names(setting_texts(self.entries@))
    }

    /// The empty environment.
    pub fn new() -> (env: Environ)
        ensures
            env@ == Map::<Seq<char>, Seq<char>>::empty(),
    {
        let entries: Vec<(String, String)> = Vec::new();
        assert(setting_texts(entries@) =~= Seq::empty());
        Environ { entries }
    }

    /// The place of a name among the settings.
    fn position(&self, name: &str) -> (at: Option<usize>)
        ensures
            match at {
                Some(i) => i < self.entries@.len() && self.entries@[i as int].0@ == name@,
                None => forall|i: int|
                    0 <= i < self.entries@.len() ==> (#[trigger] self.entries@[i]).0@ != name@,
            },
    {
        for i in 0..self.entries.len()
            invariant
                forall|k: int| 0 <= k < i ==> (#[trigger] self.entries@[k]).0@ != name@,
        {
            if same_text(self.entries[i].0.as_str(), name) {
                return Some(i);
            }
        }
        None
    }

    /// Sets a variable.
    pub fn insert(self, name: String, value: String) -> (env: Environ)
        ensures
            env@ == self@.insert(name@, value@),
    {
        proof {
            use_type_invariant(&self);
        }
        let at = self.position(name.as_str());
        let mut entries = self.entries;
        let ghost before = setting_texts(entries@);
        let ghost after = match at {
            Some(i) => before.update(i as int, (name@, value@)),
            None => before.push((name@, value@)),
        };
        match at {
            Some(i) => {
                entries.set(i, (name, value));
                assert(setting_texts(entries@) =~= after);
            },
            None => {
                entries.push((name, value));
                assert(setting_texts(entries@) =~= after);
            },
        }
        proof {
            assert forall|i: int, j: int| 0 <= i < j < after.len() implies (#[trigger] after[i]).0
                != (#[trigger] after[j]).0 by {
                if j < before.len() {
                    assert(before[i].0 != before[j].0);
                } else {
                    assert(self.entries@[i].0@ != name@);
                }
            }
            lemma_settings(before);
            lemma_settings(after);
            let old_map = settings(before).insert(name@, value@);
            let new_map = settings(after);
            let n: int = match at {
                Some(i) => i as int,
                None => before.len() as int,
            };
            assert(after[n] == (name@, value@));
            assert forall|k: Seq<char>| new_map.contains_key(k) <==> old_map.contains_key(k) by {
                if new_map.contains_key(k) {
                    let i = choose|i: int| 0 <= i < after.len() && (#[trigger] after[i]).0 == k;
                    if i != n {
                        assert(before[i].0 == k);
                    }
                }
                if settings(before).contains_key(k) {
                    let i = choose|i: int| 0 <= i < before.len() && (#[trigger] before[i]).0 == k;
                    if i != n {
                        assert(after[i].0 == k);
                    } else {
                        assert(k == name@);
                    }
                }
            }
            assert forall|k: Seq<char>| new_map.contains_key(k) implies new_map[k] == old_map[k] by {
                let i = choose|i: int| 0 <= i < after.len() && (#[trigger] after[i]).0 == k;
                if i != n {
                    assert(after[i].0 != after[n].0) by {
                        if i < n {
                            assert(after[i].0 != after[n].0);
                        } else {
                            assert(after[n].0 != after[i].0);
                        }
                    }
                    assert(settings(before)[before[i].0] == before[i].1);
                }
            }
            assert(new_map =~= old_map);
        }
        Environ { entries }
    }

    /// Tells whether a variable is set.
    pub fn contains_key(&self, name: &str) -> (found: bool)
        ensures
            found == self@.contains_key(name@),
    {
        proof {
            lemma_settings(setting_texts(self.entries@));
        }
        match self.position(name) {
            Some(i) => {
                assert(setting_texts(self.entries@)[i as int].0 == name@);
                true
            },
            None => {
                assert(!settings(setting_texts(self.entries@)).contains_key(name@)) by {
                    assert forall|i: int| 0 <= i < setting_texts(self.entries@).len() implies (
                    #[trigger] setting_texts(self.entries@)[i]).0 != name@ by {
                        assert(self.entries@[i].0@ != name@);
                    }
                }
                false
            },
        }
    }

    /// The value of a variable.
    pub fn get(&self, name: &str) -> (value: Option<String>)
        ensures
            match value {
                Some(v) => self@.contains_key(name@) && self@[name@] == v@,
                None => !self@.contains_key(name@),
            },
    {
        proof {
            use_type_invariant(self);
            lemma_settings(setting_texts(self.entries@));
        }
        match self.position(name) {
            Some(i) => {
                assert(setting_texts(self.entries@)[i as int] == (
                    self.entries@[i as int].0@,
                    self.entries@[i as int].1@,
                ));
                Some(self.entries[i].1.clone())
            },
            None => {
                assert(!settings(setting_texts(self.entries@)).contains_key(name@)) by {
                    assert forall|i: int| 0 <= i < setting_texts(self.entries@).len() implies (
                    #[trigger] setting_texts(self.entries@)[i]).0 != name@ by {
                        assert(self.entries@[i].0@ != name@);
                    }
                }
                None
            },
        }
    }

    /// Takes in one more setting, written as a name, `=` and a value.
    pub fn add_setting(self, setting: &str) -> (env: Environ)
        ensures
            env@ == with_setting(self@, setting@),
    {
        let chars = to_chars(setting);
        let n = chars.len();
        let mut i: usize = 0;
        while i < n
            invariant
                i <= n == chars@.len(),
                chars@ == setting@,
                equals_at(setting@.take(i as int)) is None,
            decreases n - i,
        {
            assert(setting@.take(i + 1).drop_last() =~= setting@.take(i as int));
            if chars[i] == '=' {
                proof {
                    lemma_equals_stays(setting@, i + 1);
                }
                let name = from_chars(&chars.as_slice()[0..i]);
                let value = from_chars(&chars.as_slice()[i + 1..n]);
                assert(name@ =~= setting@.take(i as int));
                assert(value@ =~= setting@.skip(i + 1));
                return self.insert(name, value);
            }
            i = i + 1;
        }
        assert(setting@.take(setting@.len() as int) =~= setting@);
        self
    }
}

/// The first `=` of a beginning of the text is the first of the text.
proof fn lemma_equals_stays(s: Seq<char>, n: int)
    requires
        0 <= n <= s.len(),
        equals_at(s.take(n)) is Some,
    ensures
        equals_at(s) == equals_at(s.take(n)),
    decreases s.len() - n,
{
    if n < s.len() {
        assert(s.take(n + 1).drop_last() =~= s.take(n));
        lemma_equals_stays(s, n + 1);
    } else {
        assert(s.take(n) =~= s);
    }
}

/// The parts of a block of bytes between the zero bytes.
pub open spec fn zero_separated(bytes: Seq<u8>) -> Seq<Seq<u8>>
    decreases bytes.len(),
{
    if bytes.len() == 0 {
        seq![bytes]
    } else {
        let parts = zero_separated(bytes.drop_last());
        if bytes.last() == 0 {
            parts.push(Seq::empty())
        } else {
            parts.update(parts.len() - 1, parts.last().push(bytes.last()))
        }
    }
}

/// The variables that a list of byte strings sets, the later ones going before the earlier
/// ones. An empty byte string sets nothing.
pub open spec fn environ_of(parts: Seq<Seq<u8>>) -> Map<Seq<char>, Seq<char>>
    decreases parts.len(),
{
    if parts.len() == 0 {
        Map::empty()
    } else {
        let before = environ_of(parts.drop_last());
        if parts.last().len() == 0 {
            before
        } else {
            with_setting(before, utf8_lossy(parts.last()))
        }
    }
}

/// The variables of a block as it stands in `/proc/[pid]/environ`; none where it cannot be
/// read.
pub open spec fn environ_block(bytes: Option<Seq<u8>>) -> Map<Seq<char>, Seq<char>> {
    match bytes {
        Some(b) => environ_of(zero_separated(b)),
        None => Map::empty(),
    }
}

/// Takes in one byte string of an environment block.
fn add_part(env: Environ, part: &[u8]) -> (after: Environ)
    ensures
        after@ == if part@.len() == 0 {
            env@
        } else {
            with_setting(env@, utf8_lossy(part@))
        },
        part@.len() > 0 ==> keeps_ascii_head(part@, utf8_lossy(part@)),
{
    if part.len() == 0 {
        env
    } else {
        env.add_setting(from_utf8_lossy(part).as_str())
    }
}

/// The bytes of a block that may be missing.
pub open spec fn opt_bytes(bytes: Option<Vec<u8>>) -> Option<Seq<u8>> {
    match bytes {
        Some(b) => Some(b@),
        None => None,
    }
}

/// What stands in ASCII at the beginning of each byte string that sets something is kept in its
/// text.
pub open spec fn heads_kept(parts: Seq<Seq<u8>>) -> bool {
    forall|i: int|
        0 <= i < parts.len() && (#[trigger] parts[i]).len() > 0 ==> keeps_ascii_head(
            parts[i],
            utf8_lossy(parts[i]),
        )
}

/// The byte string sets `LD_PRELOAD`.
pub open spec fn sets_preload(part: Seq<u8>) -> bool {
    part.len() >= 11 && forall|i: int|
        0 <= i < 11 ==> #[trigger] part[i] == "LD_PRELOAD="@[i] as int
}

/// Some byte string of a block sets `LD_PRELOAD`.
pub open spec fn preloads(block: Option<Seq<u8>>) -> bool {
    block matches Some(b) && exists|i: int|
        0 <= i < zero_separated(b).len() && sets_preload(#[trigger] zero_separated(b)[i])
}

/// A text has its first `=` behind a beginning without one if and only if it stands there.
pub(crate) proof fn lemma_equals_at(s: Seq<char>, n: int)
    requires
        0 <= n < s.len(),
        s[n] == '=',
        forall|i: int| 0 <= i < n ==> s[i] != '=',
    ensures
        equals_at(s) == Some(n),
    decreases s.len(),
{
    let front = s.drop_last();
    if n < front.len() {
        lemma_equals_at(front, n);
    } else {
        lemma_no_equals(front);
    }
}

/// A text without `=` has no first one.
pub(crate) proof fn lemma_no_equals(s: Seq<char>)
    requires
        forall|i: int| 0 <= i < s.len() ==> s[i] != '=',
    ensures
        equals_at(s) is None,
    decreases s.len(),
{
    if s.len() > 0 {
        lemma_no_equals(s.drop_last());
    }
}

/// Where the first `=` of a text is, there is one.
proof fn lemma_equals_there(s: Seq<char>)
    ensures
        equals_at(s) matches Some(i) ==> 0 <= i < s.len() && s[i] == '=',
    decreases s.len(),
{
    if s.len() > 0 {
        lemma_equals_there(s.drop_last());
    }
}

/// A byte string sets `LD_PRELOAD` if and only if its text does.
proof fn lemma_preload_part(part: Seq<u8>)
    requires
        keeps_ascii_head(part, utf8_lossy(part)),
    ensures
        sets_preload(part) <==> (equals_at(utf8_lossy(part)) matches Some(i) && utf8_lossy(
            part,
        ).take(i) == "LD_PRELOAD"@),
{
    reveal_strlit("LD_PRELOAD=");
    reveal_strlit("LD_PRELOAD");
    let text = utf8_lossy(part);
    let word = "LD_PRELOAD="@;
    assert forall|i: int| 0 <= i < 10 implies "LD_PRELOAD"@[i] == #[trigger] word[i] && word[i]
        != '=' && word[i] as int <= 127 by {}
    assert(word[10] == '=');
    if sets_preload(part) {
        assert forall|i: int| 0 <= i < 11 implies #[trigger] part[i] < 128 by {
            assert(part[i] == word[i] as int);
        }
        assert(ascii_bytes(part, 11));
        assert(same_head(part, text, 11));
        assert forall|i: int| 0 <= i < 11 implies text[i] == #[trigger] word[i] by {
            assert(text[i] as int == part[i]);
            assert(part[i] == word[i] as int);
        }
        assert forall|i: int| 0 <= i < 10 implies text[i] != '=' by {
            assert(text[i] == word[i]);
        }
        lemma_equals_at(text, 10);
        assert(text.take(10) =~= "LD_PRELOAD"@);
    }
    lemma_equals_there(text);
    if let Some(n) = equals_at(text) {
        if text.take(n) == "LD_PRELOAD"@ {
            assert("LD_PRELOAD"@.len() == 10);
            assert(text.take(n).len() == n);
            assert forall|i: int| 0 <= i < 11 implies #[trigger] text[i] == word[i] by {
                if i < 10 {
                    assert(text.take(n)[i] == "LD_PRELOAD"@[i]);
                    assert("LD_PRELOAD"@[i] == word[i]);
                }
            }
            assert forall|i: int| 0 <= i < 11 implies (#[trigger] text[i]) as int <= 127 by {
                assert(text[i] == word[i]);
            }
            assert(ascii_chars(text, 11));
            assert(same_head(part, text, 11));
            assert forall|i: int| 0 <= i < 11 implies #[trigger] part[i] == word[i] as int by {
                assert(text[i] as int == part[i]);
                assert(text[i] == word[i]);
            }
        }
    }
}

/// Byte strings set `LD_PRELOAD` if and only if one of them does.
proof fn lemma_preload_set(parts: Seq<Seq<u8>>)
    requires
        heads_kept(parts),
    ensures
        environ_of(parts).contains_key("LD_PRELOAD"@) <==> exists|i: int|
            0 <= i < parts.len() && sets_preload(#[trigger] parts[i]),
    decreases parts.len(),
{
    if parts.len() > 0 {
        let front = parts.drop_last();
        let last = parts[parts.len() - 1];
        assert(heads_kept(front)) by {
            assert forall|i: int| 0 <= i < front.len() && (#[trigger] front[i]).len()
                > 0 implies keeps_ascii_head(front[i], utf8_lossy(front[i])) by {
                assert(parts[i] == front[i]);
            }
        }
        lemma_preload_set(front);
        if last.len() > 0 {
            lemma_preload_part(last);
        }
        if exists|i: int| 0 <= i < front.len() && sets_preload(#[trigger] front[i]) {
            let i = choose|i: int| 0 <= i < front.len() && sets_preload(#[trigger] front[i]);
            assert(sets_preload(parts[i]));
        }
        if exists|i: int| 0 <= i < parts.len() && sets_preload(#[trigger] parts[i]) {
            let i = choose|i: int| 0 <= i < parts.len() && sets_preload(#[trigger] parts[i]);
            if i < front.len() {
                assert(sets_preload(front[i]));
            }
        }
    }
}

/// Reads an environment block.
fn parse_environ(bytes: &Option<Vec<u8>>) -> (env: Environ)
    ensures
        env@ == environ_block(opt_bytes(*bytes)),
        bytes matches Some(b) ==> heads_kept(zero_separated(b@)),
{
    let mut env = Environ::new();
    match bytes {
        Some(block) => {
            let n = block.len();
            let mut start: usize = 0;
            let ghost mut done: Seq<Seq<u8>> = Seq::empty();
            assert(block@.take(0) =~= Seq::<u8>::empty());
            assert(zero_separated(block@.take(0)) =~= done.push(block@.subrange(0, 0)));
            for i in 0..n
                invariant
                    n == block@.len(),
                    start <= i,
                    zero_separated(block@.take(i as int)) == done.push(
                        block@.subrange(start as int, i as int),
                    ),
                    env@ == environ_of(done),
                    heads_kept(done),
            {
                let ghost open = block@.subrange(start as int, i as int);
                assert(block@.take(i + 1).drop_last() =~= block@.take(i as int));
                if block[i] == 0 {
                    env = add_part(env, &block.as_slice()[start..i]);
                    proof {
                        assert(done.push(open).drop_last() =~= done);
                        done = done.push(open);
                    }
                    start = i + 1;
                    assert(block@.subrange(start as int, i + 1) =~= Seq::<u8>::empty());
                } else {
                    assert(block@.subrange(start as int, i + 1) =~= open.push(block@[i as int]));
                    assert(done.push(open).update(done.len() as int, open.push(block@[i as int]))
                        =~= done.push(open.push(block@[i as int])));
                }
            }
            assert(block@.take(n as int) =~= block@);
            let ghost open = block@.subrange(start as int, n as int);
            env = add_part(env, &block.as_slice()[start..n]);
            assert(done.push(open).drop_last() =~= done);
            env
        },
        None => env,
    }
}

/// The rest of a text behind a given beginning.
pub open spec fn behind(s: Seq<char>, head: Seq<char>) -> Option<Seq<char>> {
    if head.is_prefix_of(s) {
        Some(s.skip(head.len() as int))
    } else {
        None
    }
}

/// The 32-bit number that a text writes in decimal.
pub open spec fn u32_value(s: Seq<char>) -> Option<int> {
    unsigned_value(s, 10, u32::MAX as int)
}

/// The 32-bit number that the first word of a text writes in decimal.
pub open spec fn first_word_value(s: Seq<char>) -> Option<int> {
    if words(s).len() > 0 {
        u32_value(words(s)[0])
    } else {
        None
    }
}

/// What the lines of a process status tell of the parent and the user. Reading stops as soon as
/// both are known; until then a later line goes before an earlier one.
pub open spec fn status_of(status: Seq<Seq<char>>) -> (Option<int>, Option<int>)
    decreases status.len(),
{
    if status.len() == 0 {
        (None, None)
    } else {
        let (ppid, uid) = status_of(status.drop_last());
        if ppid is Some && uid is Some {
            (ppid, uid)
        } else {
            match behind(status.last(), "PPid:"@) {
                Some(rest) => (u32_value(trimmed(rest)), uid),
                None => match behind(status.last(), "Uid:"@) {
                    Some(rest) => (ppid, first_word_value(rest)),
                    None => (ppid, uid),
                },
            }
        }
    }
}

/// Once both numbers are known, further lines change nothing.
proof fn lemma_status_settled(status: Seq<Seq<char>>, n: int)
    requires
        0 <= n <= status.len(),
        status_of(status.take(n)).0 is Some,
        status_of(status.take(n)).1 is Some,
    ensures
        status_of(status) == status_of(status.take(n)),
    decreases status.len() - n,
{
    if n < status.len() {
        assert(status.take(n + 1).drop_last() =~= status.take(n));
        lemma_status_settled(status, n + 1);
    } else {
        assert(status.take(n) =~= status);
    }
}

/// An optional number as a whole number.
pub open spec fn opt_int(n: Option<u32>) -> Option<int> {
    match n {
        Some(v) => Some(v as int),
        None => None,
    }
}

/// The rest of a text behind a given beginning.
fn strip_prefix<'a>(s: &'a [char], head: &str) -> (rest: Option<&'a [char]>)
    ensures
        match rest {
            Some(r) => behind(s@, head@) == Some(r@),
            None => behind(s@, head@) is None,
        },
{
    let h = to_chars(head);
    let n = s.len();
    if h.len() > n {
        return None;
    }
    for i in 0..h.len()
        invariant
            h@ == head@,
            h@.len() <= n == s@.len(),
            forall|k: int| 0 <= k < i ==> s@[k] == h@[k],
    {
        if s[i] != h[i] {
            assert(s@.subrange(0, head@.len() as int)[i as int] != head@[i as int]);
            return None;
        }
    }
    assert(s@.subrange(0, head@.len() as int) =~= head@);
    assert(s@.skip(head@.len() as int) =~= s@.subrange(head@.len() as int, n as int));
    Some(&s[h.len()..n])
}

/// Reads a 32-bit number in decimal.
pub(crate) fn read_u32(s: &[char]) -> (v: Option<u32>)
    ensures
        opt_int(v) == u32_value(s@),
{
    match read_unsigned(s, 10, 0xffff_ffff) {
        Some(n) => Some(n as u32),
        None => None,
    }
}

/// Reads the parent and the user from a process status, where it can be read.
fn parse_status(status: &Option<String>) -> (found: (Option<u32>, Option<u32>))
    ensures
        (opt_int(found.0), opt_int(found.1)) == match opt_text(*status) {
            Some(s) => status_of(lines(s)),
            None => (None::<int>, None::<int>),
        },
{
    let mut ppid: Option<u32> = None;
    let mut uid: Option<u32> = None;
    match status {
        Some(content) => {
            let all = split_lines(to_chars(content.as_str()).as_slice());
            let ghost seen = crate::split::char_lists(all@);
            assert(seen.take(0) =~= Seq::<Seq<char>>::empty());
            for i in 0..all.len()
                invariant
                    seen == crate::split::char_lists(all@),
                    (opt_int(ppid), opt_int(uid)) == status_of(seen.take(i as int)),
                    seen == lines(content@),
                    opt_text(*status) == Some(content@),
            {
                assert(seen.take(i + 1).drop_last() =~= seen.take(i as int));
                if ppid.is_some() && uid.is_some() {
                    proof {
                        lemma_status_settled(seen, i as int);
                    }
                    return (ppid, uid);
                }
                let line = all[i].as_slice();
                assert(seen.take(i + 1).last() == line@);
                match strip_prefix(line, "PPid:") {
                    Some(rest) => {
                        ppid = read_u32(trim(rest));
                    },
                    None => match strip_prefix(line, "Uid:") {
                        Some(rest) => {
                            let found = split_whitespace(rest);
                            assert(texts(found@).len() == found@.len());
                            if found.len() > 0 {
                                assert(words(rest@)[0] == found@[0]@);
                                uid = read_u32(to_chars(found[0].as_str()).as_slice());
                            } else {
                                uid = None;
                            }
                        },
                        None => {},
                    },
                }
            }
            assert(seen.take(seen.len() as int) =~= seen);
        },
        None => {},
    }
    (ppid, uid)
}

/// The user that a line of the user database describes.
pub open spec fn passwd_uid(line: Seq<char>) -> Option<int> {
    let parts = split_on(line, ':');
    if parts.len() >= 3 {
        u32_value(parts[2])
    } else {
        None
    }
}

/// The name of the first user with the given number.
pub open spec fn passwd_name(database: Seq<Seq<char>>, uid: u32) -> Option<Seq<char>>
    decreases database.len(),
{
    if database.len() == 0 {
        None
    } else if passwd_uid(database[0]) == Some(uid as int) {
        Some(split_on(database[0], ':')[0])
    } else {
        passwd_name(database.drop_first(), uid)
    }
}

/// Finds the name of the first user with the given number.
pub fn find_username(database: &str, uid: u32) -> (name: Option<String>)
    ensures
        opt_text(name) == passwd_name(lines(database@), uid),
{
    let all = split_lines(to_chars(database).as_slice());
    let ghost seen = crate::split::char_lists(all@);
    assert(seen.skip(0) =~= seen);
    for i in 0..all.len()
        invariant
            seen == crate::split::char_lists(all@),
            passwd_name(seen, uid) == passwd_name(seen.skip(i as int), uid),
            seen == lines(database@),
    {
        assert(seen.skip(i as int).drop_first() =~= seen.skip(i + 1));
        let parts = split(all[i].as_slice(), ':');
        let ghost cut = texts(parts@);
        assert(seen.skip(i as int)[0] == all@[i as int]@);
        assert(cut == split_on(all@[i as int]@, ':'));
        if parts.len() >= 3 {
            assert(cut[2] == parts@[2]@);
            match read_u32(to_chars(parts[2].as_str()).as_slice()) {
                Some(found) => {
                    if found == uid {
                        assert(cut[0] == parts@[0]@);
                        return Some(parts[0].clone());
                    }
                },
                None => {},
            }
        }
    }
    assert(seen.skip(seen.len() as int) =~= Seq::<Seq<char>>::empty());
    None
}

/// What is known of a process.
#[derive(Debug)]
pub struct ProcInfo {
    pub exe: Option<String>,
    pub cmdline: Option<String>,
    pub cwd: Option<String>,
    pub ppid: Option<u32>,
    pub uid: Option<u32>,
    pub username: Option<String>,
    pub environ: Environ,
}

impl ProcInfo {
    /// Nothing is known.
    pub open spec fn is_blank(self) -> bool {
        &&& self.exe is None
        &&& self.cmdline is None
        &&& self.cwd is None
        &&& self.ppid is None
        &&& self.uid is None
        &&& self.username is None
        &&& self.environ@ == Map::<Seq<char>, Seq<char>>::empty()
    }
}

impl Default for ProcInfo {
    fn default() -> (info: ProcInfo)
        ensures
            info.is_blank(),
    {
        ProcInfo {
            exe: None,
            cmdline: None,
            cwd: None,
            ppid: None,
            uid: None,
            username: None,
            environ: Environ::new(),
        }
    }
}

/// What was read from the directory of a process; what could not be read is missing.
pub struct ProcSnapshot {
    /// The directory is there.
    pub exists: bool,
    /// Where the link to the program leads.
    pub exe: Option<String>,
    /// The arguments, each ended by a zero byte.
    pub cmdline: Option<Vec<u8>>,
    /// Where the link to the working directory leads.
    pub cwd: Option<String>,
    /// The status lines.
    pub status: Option<String>,
    /// The environment block.
    pub environ: Option<Vec<u8>>,
}

/// The arguments as one text: the zero bytes become spaces, and the ends are trimmed.
pub open spec fn cmdline_text(content: Seq<char>) -> Seq<char> {
    trimmed(replaced(content, '\0', " "@))
}

/// Makes one text of the arguments.
pub fn join_arguments(content: &str) -> (s: String)
    ensures
        s@ == cmdline_text(content@),
{
    let spaced = replace(content, '\0', " ");
    from_chars(trim(to_chars(spaced.as_str()).as_slice()))
}

/// The names that are known already, and the answer for one user: a known name, or else the
/// first name in the user database, which is then known.
pub open spec fn resolved(
    known: Map<u32, Seq<char>>,
    uid: u32,
    database: Option<Seq<char>>,
) -> (Map<u32, Seq<char>>, Option<Seq<char>>) {
    if known.contains_key(uid) {
        (known, Some(known[uid]))
    } else {
        match database {
            None => (known, None),
            Some(content) => match passwd_name(lines(content), uid) {
                None => (known, None),
                Some(name) => (known.insert(uid, name), Some(name)),
            },
        }
    }
}

/// Once a user has been given a name, every later request gives the same name, whatever the
/// user database then holds.
pub proof fn law_username_stays(
    known: Map<u32, Seq<char>>,
    uid: u32,
    first: Option<Seq<char>>,
    second: Option<Seq<char>>,
)
    requires
        resolved(known, uid, first).1 is Some,
    ensures
        resolved(resolved(known, uid, first).0, uid, second) == resolved(known, uid, first),
{
}

/// Tells what is known of processes, and remembers the names of users.
pub struct ProcEnricher {
    uid_cache: HashMap<u32, String>,
}

impl ProcEnricher {
    /// The names that are remembered.
    pub closed spec fn names(self) -> Map<u32, Seq<char>> {
        self.uid_cache@.map_values(|name: String| name@)
    }

    /// Remembers nothing yet.
    pub fn new() -> (enricher: ProcEnricher)
        ensures
            enricher.names() == Map::<u32, Seq<char>>::empty(),
    {
        let enricher = ProcEnricher { uid_cache: HashMap::new() };
        assert(enricher.names() =~= Map::<u32, Seq<char>>::empty());
        enricher
    }

    /// Tells whether the name of the user of a process has to be looked up.
    pub fn needs_database(&self, snapshot: &ProcSnapshot) -> (needed: bool)
        ensures
            needed == (snapshot.exists && match snapshot_uid(*snapshot) {
                Some(uid) => !self.names().contains_key(uid as u32),
                None => false,
            }),
    {
        if !snapshot.exists {
            return false;
        }
        match parse_status(&snapshot.status).1 {
            Some(uid) => !self.uid_cache.contains_key(&uid),
            None => false,
        }
    }

    /// Everything that is known of a process. `database` is the user database, where it can be
    /// read.
    pub fn get_proc_info(&mut self, snapshot: ProcSnapshot, database: &Option<String>) -> (info:
        ProcInfo)
        ensures
            informed(old(self).names(), final(self).names(), snapshot, opt_text(*database), info),
    {
        if !snapshot.exists {
            return ProcInfo::default();
        }
        let cmdline: Option<String> = match &snapshot.cmdline {
            Some(bytes) => Some(join_arguments(from_utf8_lossy(bytes.as_slice()).as_str())),
            None => None,
        };
        let (ppid, uid) = parse_status(&snapshot.status);
        let username: Option<String> = match uid {
            Some(u) => self.uid_to_username(u, database),
            None => None,
        };
        let environ = parse_environ(&snapshot.environ);
        ProcInfo { exe: snapshot.exe, cmdline, cwd: snapshot.cwd, ppid, uid, username, environ }
    }

    /// Tells whether a process runs with `LD_PRELOAD` set, from its environment block.
    pub fn has_ld_preload(&self, environ: &Option<Vec<u8>>) -> (set: bool)
        ensures
            set == environ_block(opt_bytes(*environ)).contains_key("LD_PRELOAD"@),
            set == preloads(opt_bytes(*environ)),
    {
        let env = parse_environ(environ);
        proof {
            if let Some(block) = environ {
                lemma_preload_set(zero_separated(block@));
            }
        }
        env.contains_key("LD_PRELOAD")
    }

    /// The name of a user: one that is remembered, or else one from the user database.
    pub fn uid_to_username(&mut self, uid: u32, database: &Option<String>) -> (name: Option<String>)
        ensures
            (final(self).names(), opt_text(name)) == resolved(
                old(self).names(),
                uid,
                opt_text(*database),
            ),
    {
        match self.uid_cache.get(&uid) {
            Some(name) => {
                return Some(name.clone());
            },
            None => {},
        }
        match database {
            Some(content) => match find_username(content.as_str(), uid) {
                Some(name) => {
                    self.uid_cache.insert(uid, name.clone());
                    assert(self.names() =~= old(self).names().insert(uid, name@));
                    Some(name)
                },
                None => None,
            },
            None => None,
        }
    }
}

/// The parent and the user in the status of a process.
pub open spec fn snapshot_status(snapshot: ProcSnapshot) -> (Option<int>, Option<int>) {
    match opt_text(snapshot.status) {
        Some(s) => status_of(lines(s)),
        None => (None, None),
    }
}

/// What is known of a process after its directory was read, and the names of users that are known
/// before and after.
pub open spec fn informed(
    before: Map<u32, Seq<char>>,
    after: Map<u32, Seq<char>>,
    snapshot: ProcSnapshot,
    database: Option<Seq<char>>,
    info: ProcInfo,
) -> bool {
    &&& !snapshot.exists ==> info.is_blank() && after == before
    &&& snapshot.exists ==> {
        &&& info.exe == snapshot.exe
        &&& info.cwd == snapshot.cwd
        &&& match snapshot.cmdline {
            Some(bytes) => opt_text(info.cmdline) == Some(cmdline_text(utf8_lossy(bytes@))),
            None => info.cmdline is None,
        }
        &&& opt_int(info.ppid) == snapshot_status(snapshot).0
        &&& opt_int(info.uid) == snapshot_status(snapshot).1
        &&& info.environ@ == environ_block(opt_bytes(snapshot.environ))
        &&& (after, opt_text(info.username)) == match info.uid {
            Some(uid) => resolved(before, uid, database),
            None => (before, None),
        }
    }
}

/// The user in the status of a process.
pub open spec fn snapshot_uid(snapshot: ProcSnapshot) -> Option<int> {
    snapshot_status(snapshot).1
}

} // verus!
