//! Cutting a text into its parts: at a separator, at whitespace, at line ends.

use crate::text::{is_whitespace, texts, whitespace};
use vstd::prelude::*;

verus! {

/// The parts of `s` between the characters that `is_sep` names; one more than there are such
/// characters.
pub open spec fn split_by(s: Seq<char>, is_sep: spec_fn(char) -> bool) -> Seq<Seq<char>>
    decreases s.len(),
{
    if s.len() == 0 {
        seq![s]
    } else {
        let parts = split_by(s.drop_last(), is_sep);
        if is_sep(s.last()) {
            parts.push(Seq::empty())
        } else {
            parts.update(parts.len() - 1, parts.last().push(s.last()))
        }
    }
}

/// The test for one given separator.
pub open spec fn sep(c: char) -> spec_fn(char) -> bool {
    |x: char| x == c
}

/// The test for whitespace.
pub open spec fn blank_sep() -> spec_fn(char) -> bool {
    |x: char| is_whitespace(x)
}

/// The parts of `s` between the separators `c`.
pub open spec fn split_on(s: Seq<char>, c: char) -> Seq<Seq<char>> {
    split_by(s, sep(c))
}

/// The runs of characters of `s` that hold no whitespace.
pub open spec fn words(s: Seq<char>) -> Seq<Seq<char>> {
    split_by(s, blank_sep()).filter(|w: Seq<char>| w.len() > 0)
}

/// A line without the carriage return at its end.
pub open spec fn without_cr(line: Seq<char>) -> Seq<char> {
    if line.len() > 0 && line.last() == '\r' {
        line.drop_last()
    } else {
        line
    }
}

/// The lines of `s`. Each ends in a line feed, which a carriage return may precede; what follows
/// the last line feed is a line where it is not empty.
pub open spec fn lines(s: Seq<char>) -> Seq<Seq<char>> {
    let parts = split_on(s, '\n');
    let whole = parts.drop_last().map_values(|line: Seq<char>| without_cr(line));
    if parts.last().len() > 0 {
        whole.push(parts.last())
    } else {
        whole
    }
}

/// There is always at least one part.
pub proof fn lemma_split_nonempty(s: Seq<char>, is_sep: spec_fn(char) -> bool)
    ensures
        split_by(s, is_sep).len() > 0,
    decreases s.len(),
{
    if s.len() > 0 {
        lemma_split_nonempty(s.drop_last(), is_sep);
    }
}

/// Parts whose last one is still open: adding a character either closes it or makes it longer.
proof fn lemma_split_step(s: Seq<char>, n: int, is_sep: spec_fn(char) -> bool, done: Seq<Seq<char>>, open: Seq<char>)
    requires
        0 <= n < s.len(),
        split_by(s.take(n), is_sep) == done.push(open),
    ensures
        split_by(s.take(n + 1), is_sep) == if is_sep(s[n]) {
            done.push(open).push(Seq::empty())
        } else {
            done.push(open.push(s[n]))
        },
{
    assert(s.take(n + 1).drop_last() =~= s.take(n));
    assert(done.push(open).update(done.len() as int, open.push(s[n])) =~= done.push(open.push(s[n])));
}

/// A text without separators is one part.
pub(crate) proof fn lemma_one_part(s: Seq<char>, c: char)
    requires
        forall|i: int| 0 <= i < s.len() ==> s[i] != c,
    ensures
        split_on(s, c) == seq![s],
    decreases s.len(),
{
    if s.len() > 0 {
        let front = s.drop_last();
        lemma_one_part(front, c);
        assert(s[s.len() - 1] != c);
        assert(front.push(s.last()) =~= s);
        assert(seq![front].update(0, s) =~= seq![s]);
    }
}

/// Two texts without separators, with one between them, are two parts.
pub(crate) proof fn lemma_two_parts(a: Seq<char>, b: Seq<char>, c: char)
    requires
        forall|i: int| 0 <= i < a.len() ==> a[i] != c,
        forall|i: int| 0 <= i < b.len() ==> b[i] != c,
    ensures
        split_on(a.push(c) + b, c) == seq![a, b],
    decreases b.len(),
{
    let whole = a.push(c) + b;
    if b.len() > 0 {
        let front = b.drop_last();
        lemma_two_parts(a, front, c);
        assert(whole.drop_last() =~= a.push(c) + front);
        assert(whole.last() == b[b.len() - 1]);
        assert(front.push(b.last()) =~= b);
        assert(seq![a, front].update(1, b) =~= seq![a, b]);
    } else {
        lemma_one_part(a, c);
        assert(whole.drop_last() =~= a);
        assert(whole.last() == c);
        assert(seq![a].push(b) =~= seq![a, b]);
        assert(b =~= Seq::<char>::empty());
    }
}

/// What stands before a separator and what stands behind it are cut on their own.
pub(crate) proof fn lemma_split_adds(
    a: Seq<char>,
    c: char,
    b: Seq<char>,
    is_sep: spec_fn(char) -> bool,
)
    requires
        is_sep(c),
    ensures
        split_by(a.push(c) + b, is_sep) == split_by(a, is_sep) + split_by(b, is_sep),
    decreases b.len(),
{
    let head = a.push(c);
    if b.len() == 0 {
        assert(head + b =~= head);
        assert(head.drop_last() =~= a);
        assert(b =~= Seq::<char>::empty());
        assert(split_by(head, is_sep) =~= split_by(a, is_sep) + split_by(b, is_sep));
    } else {
        assert((head + b).drop_last() =~= head + b.drop_last());
        assert((head + b).last() == b.last());
        lemma_split_adds(a, c, b.drop_last(), is_sep);
        lemma_split_nonempty(b.drop_last(), is_sep);
        assert(split_by(head + b, is_sep) =~= split_by(a, is_sep) + split_by(b, is_sep));
    }
}

/// A text without separators is one part, and where one stands in a text, what is before it and
/// what is behind it are cut on their own.
pub proof fn law_split_part_by_part(a: Seq<char>, b: Seq<char>, c: char)
    ensures
        split_on(a + seq![c] + b, c) == split_on(a, c) + split_on(b, c),
        (forall|i: int| 0 <= i < a.len() ==> a[i] != c) ==> split_on(a, c) == seq![a],
{
    assert(a + seq![c] + b =~= a.push(c) + b);
    lemma_split_adds(a, c, b, sep(c));
    if forall|i: int| 0 <= i < a.len() ==> a[i] != c {
        lemma_one_part(a, c);
    }
}

/// Words stand between blanks: a blank parts the words before it from those behind it, a run of
/// other characters is one word, and where nothing stands there is no word.
pub proof fn law_words_between_blanks(a: Seq<char>, blank: char, b: Seq<char>)
    requires
        is_whitespace(blank),
    ensures
        words(a + seq![blank] + b) == words(a) + words(b),
        (a.len() > 0 && forall|i: int| 0 <= i < a.len() ==> !is_whitespace(#[trigger] a[i]))
            ==> words(a) == seq![a],
        a.len() == 0 ==> words(a).len() == 0,
{
    let filled = |w: Seq<char>| w.len() > 0;
    assert(a + seq![blank] + b =~= a.push(blank) + b);
    lemma_split_adds(a, blank, b, blank_sep());
    Seq::filter_distributes_over_add(
        split_by(a, blank_sep()),
        split_by(b, blank_sep()),
        filled,
    );
    if forall|i: int| 0 <= i < a.len() ==> !is_whitespace(#[trigger] a[i]) {
        lemma_unblank(a);
        lemma_filter_push(Seq::empty(), a);
        assert(Seq::<Seq<char>>::empty().push(a) =~= seq![a]);
        assert(Seq::<Seq<char>>::empty().filter(filled) =~= Seq::<Seq<char>>::empty()) by {
            reveal(Seq::filter);
        }
        assert(Seq::<Seq<char>>::empty().push(a) =~= seq![a]);
    }
}

/// A text without blanks is one part.
proof fn lemma_unblank(s: Seq<char>)
    requires
        forall|i: int| 0 <= i < s.len() ==> !is_whitespace(#[trigger] s[i]),
    ensures
        split_by(s, blank_sep()) == seq![s],
    decreases s.len(),
{
    if s.len() > 0 {
        let front = s.drop_last();
        assert forall|i: int| 0 <= i < front.len() implies !is_whitespace(#[trigger] front[i]) by {
            assert(!is_whitespace(s[i]));
        }
        lemma_unblank(front);
        assert(!is_whitespace(s[s.len() - 1]));
        assert(front.push(s.last()) =~= s);
        assert(seq![front].update(0, s) =~= seq![s]);
    }
}

/// A text is read line by line: what stands before the first line feed is a line, without a
/// carriage return at its end, and the lines behind it follow. What no line feed ends is a line
/// too, unless it is empty.
pub proof fn law_lines_one_by_one(line: Seq<char>, more: Seq<char>)
    requires
        forall|i: int| 0 <= i < line.len() ==> line[i] != '\n',
    ensures
        lines(line + seq!['\n'] + more) == seq![
            if line.len() > 0 && line[line.len() - 1] == '\r' {
                line.take(line.len() - 1)
            } else {
                line
            },
        ] + lines(more),
        lines(line) == if line.len() > 0 {
            seq![line]
        } else {
            Seq::empty()
        },
{
    let whole = line + seq!['\n'] + more;
    law_split_part_by_part(line, more, '\n');
    lemma_split_nonempty(more, sep('\n'));
    let rest = split_on(more, '\n');
    let parts = split_on(whole, '\n');
    assert(parts == seq![line] + rest);
    assert(parts.last() == rest.last());
    assert(parts.drop_last() =~= seq![line] + rest.drop_last());
    assert(lines(whole) =~= seq![without_cr(line)] + lines(more));
    assert(seq![line].drop_last() =~= Seq::<Seq<char>>::empty());
    assert(lines(line) =~= if line.len() > 0 {
        seq![line]
    } else {
        Seq::empty()
    });
    if line.len() > 0 {
        assert(line.take(line.len() - 1) =~= line.drop_last());
    }
}

/// No part holds a separator.
pub(crate) proof fn lemma_parts_hold_none(s: Seq<char>, c: char)
    ensures
        split_on(s, c).len() > 0,
        forall|i: int, k: int|
            0 <= i < split_on(s, c).len() && 0 <= k < split_on(s, c)[i].len()
                ==> #[trigger] split_on(s, c)[i][k] != c,
    decreases s.len(),
{
    if s.len() > 0 {
        lemma_parts_hold_none(s.drop_last(), c);
        let before = split_on(s.drop_last(), c);
        let after = split_on(s, c);
        assert forall|i: int, k: int|
            0 <= i < after.len() && 0 <= k < after[i].len() implies #[trigger] after[i][k] != c by {
            if i < before.len() - 1 || s.last() == c {
                if i < before.len() {
                    assert(after[i] == before[i]);
                    assert(before[i][k] != c);
                }
            } else {
                if k < before[i].len() {
                    assert(before[i][k] != c);
                }
            }
        }
    }
}

/// Cuts a text at every separator.
pub fn split(s: &[char], c: char) -> (parts: Vec<String>)
    ensures
        texts(parts@) == split_on(s@, c),
        parts@.len() > 0,
{
    let mut parts: Vec<String> = Vec::new();
    let mut open = String::new();
    assert(s@.take(0) =~= Seq::<char>::empty());
    assert(split_by(s@.take(0), sep(c)) =~= texts(parts@).push(open@));
    for i in 0..s.len()
        invariant
            split_by(s@.take(i as int), sep(c)) == texts(parts@).push(open@),
    {
        proof {
            lemma_split_step(s@, i as int, sep(c), texts(parts@), open@);
        }
        if s[i] == c {
            let ghost before = texts(parts@).push(open@);
            parts.push(open);
            assert(texts(parts@) =~= before);
            open = String::new();
        } else {
            open.push(s[i]);
        }
    }
    assert(s@.take(s@.len() as int) =~= s@);
    let ghost before = texts(parts@).push(open@);
    parts.push(open);
    assert(texts(parts@) =~= before);
    parts
}

/// Keeping the nonempty parts of a list that grows by one part.
proof fn lemma_filter_push(done: Seq<Seq<char>>, part: Seq<char>)
    ensures
        done.push(part).filter(|w: Seq<char>| w.len() > 0) == if part.len() > 0 {
            done.filter(|w: Seq<char>| w.len() > 0).push(part)
        } else {
            done.filter(|w: Seq<char>| w.len() > 0)
        },
{
    assert(done.push(part).drop_last() =~= done);
    reveal(Seq::filter);
}

/// Cuts a text at whitespace into its words.
pub fn split_whitespace(s: &[char]) -> (found: Vec<String>)
    ensures
        texts(found@) == words(s@),
{
    let mut found: Vec<String> = Vec::new();
    let mut open = String::new();
    let ghost mut done: Seq<Seq<char>> = Seq::empty();
    assert(s@.take(0) =~= Seq::<char>::empty());
    assert(split_by(s@.take(0), blank_sep()) =~= done.push(open@));
    assert(texts(found@) =~= done.filter(|w: Seq<char>| w.len() > 0)) by {
        reveal(Seq::filter);
    }
    for i in 0..s.len()
        invariant
            split_by(s@.take(i as int), blank_sep()) == done.push(open@),
            texts(found@) == done.filter(|w: Seq<char>| w.len() > 0),
    {
        proof {
            lemma_split_step(s@, i as int, blank_sep(), done, open@);
        }
        if whitespace(s[i]) {
            proof {
                lemma_filter_push(done, open@);
                done = done.push(open@);
            }
            if !open.as_str().is_empty() {
                let ghost before = texts(found@).push(open@);
                found.push(open);
                assert(texts(found@) =~= before);
            }
            open = String::new();
        } else {
            open.push(s[i]);
        }
    }
    assert(s@.take(s@.len() as int) =~= s@);
    proof {
        lemma_filter_push(done, open@);
    }
    if !open.as_str().is_empty() {
        let ghost before = texts(found@).push(open@);
        found.push(open);
        assert(texts(found@) =~= before);
    }
    found
}

/// A line end without its carriage return.
fn cut_cr(line: &[char]) -> (cut: &[char])
    ensures
        cut@ == without_cr(line@),
{
    let n = line.len();
    if n > 0 && line[n - 1] == '\r' {
        &line[0..n - 1]
    } else {
        line
    }
}

/// The characters of each line of a list.
pub open spec fn char_lists(list: Seq<Vec<char>>) -> Seq<Seq<char>> {
    list.map_values(|line: Vec<char>| line@)
}

/// Cuts a text into its lines.
pub fn split_lines(s: &[char]) -> (found: Vec<Vec<char>>)
    ensures
        char_lists(found@) == lines(s@),
{
    let mut found: Vec<Vec<char>> = Vec::new();
    let mut open: Vec<char> = Vec::new();
    let ghost mut done: Seq<Seq<char>> = Seq::empty();
    assert(s@.take(0) =~= Seq::<char>::empty());
    assert(split_by(s@.take(0), sep('\n')) =~= done.push(open@));
    assert(char_lists(found@) =~= done.map_values(|line: Seq<char>| without_cr(line)));
    for i in 0..s.len()
        invariant
            split_by(s@.take(i as int), sep('\n')) == done.push(open@),
            char_lists(found@) == done.map_values(|line: Seq<char>| without_cr(line)),
    {
        proof {
            lemma_split_step(s@, i as int, sep('\n'), done, open@);
        }
        if s[i] == '\n' {
            let line = cut_cr(open.as_slice());
            let ghost before = char_lists(found@).push(line@);
            found.push(slice_to_vec(line));
            assert(char_lists(found@) =~= before);
            proof {
                assert(done.push(open@).map_values(|line: Seq<char>| without_cr(line)) =~= before);
                done = done.push(open@);
            }
            open = Vec::new();
        } else {
            open.push(s[i]);
        }
    }
    assert(s@.take(s@.len() as int) =~= s@);
    assert(done.push(open@).drop_last() =~= done);
    if open.len() > 0 {
        let ghost before = char_lists(found@).push(open@);
        found.push(open);
        assert(char_lists(found@) =~= before);
    }
    found
}

/// A vector with the same characters.
fn slice_to_vec(s: &[char]) -> (v: Vec<char>)
    ensures
        v@ == s@,
{
    let mut v: Vec<char> = Vec::new();
    for i in 0..s.len()
        invariant
            v@ == s@.take(i as int),
    {
        v.push(s[i]);
        assert(s@.take(i + 1) =~= s@.take(i as int).push(s@[i as int]));
    }
    assert(s@.take(s@.len() as int) =~= s@);
    v
}

} // verus!
