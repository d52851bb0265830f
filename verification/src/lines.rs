//! Lines: taking a text apart at its line ends and putting it together.
use crate::text::{from_chars, occurs, occurs_at, texts, to_chars};
use vstd::prelude::*;

verus! {

/// The number of characters before the first `c`, or the length of `s` where
/// `c` does not occur.
pub open spec fn find(s: Seq<char>, c: char) -> nat
    decreases s.len(),
{
    if s.len() == 0 || s[0] == c {
        0
    } else {
        1 + find(s.skip(1), c)
    }
}

pub proof fn lemma_find(s: Seq<char>, c: char)
    ensures
        find(s, c) <= s.len(),
        forall|i: int| 0 <= i < find(s, c) ==> #[trigger] s[i] != c,
        find(s, c) < s.len() ==> s[find(s, c) as int] == c,
        find(s, c) < s.len() <==> s.contains(c),
    decreases s.len(),
{
    if s.len() > 0 && s[0] != c {
        lemma_find(s.skip(1), c);
        assert forall|i: int| 0 <= i < find(s, c) implies #[trigger] s[i] != c by {
            if i > 0 {
                assert(s.skip(1)[i - 1] == s[i]);
            }
        }
        if s.contains(c) {
            let i = choose|i: int| 0 <= i < s.len() && s[i] == c;
            assert(s.skip(1)[i - 1] == c);
        }
    }
}

/// A character that nothing before it equals is where `find` stops.
pub proof fn lemma_find_at(s: Seq<char>, c: char, k: int)
    requires
        0 <= k <= s.len(),
        forall|i: int| 0 <= i < k ==> #[trigger] s[i] != c,
        k < s.len() ==> s[k] == c,
    ensures
        find(s, c) == k,
{
    lemma_find(s, c);
    if find(s, c) < k {
        assert(s[find(s, c) as int] != c);
    }
}

/// Where the first `c` stands in `cs` from `from` on.
pub fn find_from(cs: &Vec<char>, from: usize, c: char) -> (r: usize)
    requires
        from <= cs@.len(),
    ensures
        from <= r <= cs@.len(),
        r - from == find(cs@.skip(from as int), c),
{
    let n: usize = cs.len();
    let mut at: usize = from;
    let ghost s = cs@.skip(from as int);
    while at < n && cs[at] != c
        invariant
            n == cs@.len(),
            from <= at <= n,
            s == cs@.skip(from as int),
            forall|i: int| 0 <= i < at - from ==> #[trigger] s[i] != c,
        decreases n - at,
    {
        assert(s[at - from] == cs@[at as int]);
        at += 1;
    }
    proof {
        if at < n {
            assert(s[at - from] == cs@[at as int]);
        }
        lemma_find_at(s, c, at - from);
    }
    at
}

/// A line without the carriage return that it ends with, if it does.
pub open spec fn without_return(s: Seq<char>) -> Seq<char> {
    if s.len() > 0 && s.last() == '\r' {
        s.drop_last()
    } else {
        s
    }
}

/// The lines of a text. A line ends at a line feed, or at a carriage return
/// and a line feed; a last line need not be ended.
pub open spec fn lines(s: Seq<char>) -> Seq<Seq<char>>
    decreases s.len(),
    via lines_decreases
{
    let k = find(s, '\n') as int;
    if s.len() == 0 {
        Seq::empty()
    } else if k == s.len() {
        seq![s]
    } else {
        seq![without_return(s.take(k))] + lines(s.skip(k + 1))
    }
}

#[via_fn]
proof fn lines_decreases(s: Seq<char>) {
    lemma_find(s, '\n');
}

/// The lines of a text, in order.
pub fn split_lines(s: &str) -> (r: Vec<String>)
    ensures
        texts(r@) == lines(s@),
{
    let cs = to_chars(s);
    let n: usize = cs.len();
    let mut r: Vec<String> = Vec::new();
    let mut at: usize = 0;
    assert(s@.skip(0) =~= s@);
    assert(texts(r@) + lines(s@) =~= lines(s@));
    while at < n
        invariant
            cs@ == s@,
            n == s@.len(),
            at <= n,
            texts(r@) + lines(s@.skip(at as int)) == lines(s@),
        decreases n - at,
    {
        let ghost rest = s@.skip(at as int);
        let ghost before = texts(r@);
        let end: usize = find_from(&cs, at, '\n');
        let ghost k = end - at;
        assert(rest.take(k) =~= s@.subrange(at as int, end as int));
        if end < n {
            let to: usize = if end > at && cs[end - 1] == '\r' {
                end - 1
            } else {
                end
            };
            let line = from_chars(&cs, at, to);
            assert(line@ =~= without_return(rest.take(k)));
            assert(rest.skip(k + 1) =~= s@.skip(end + 1));
            r.push(line);
            assert(texts(r@) =~= before.push(line@));
            assert(texts(r@) + lines(s@.skip(end + 1)) =~= before + (seq![line@] + lines(
                s@.skip(end + 1),
            )));
            at = end + 1;
        } else {
            let line = from_chars(&cs, at, end);
            assert(line@ =~= rest);
            r.push(line);
            assert(texts(r@) =~= before.push(line@));
            assert(s@.skip(n as int).len() == 0);
            assert(texts(r@) + lines(s@.skip(n as int)) =~= before + lines(rest));
            at = n;
        }
    }
    assert(s@.skip(n as int).len() == 0);
    assert(texts(r@) + lines(s@.skip(n as int)) =~= texts(r@));
    r
}

/// The parts one after another, with `sep` between each two.
pub open spec fn joined(parts: Seq<Seq<char>>, sep: Seq<char>) -> Seq<char>
    decreases parts.len(),
{
    if parts.len() == 0 {
        Seq::empty()
    } else if parts.len() == 1 {
        parts[0]
    } else {
        parts[0] + sep + joined(parts.skip(1), sep)
    }
}

/// One more part at the end of a joined text comes after a separator.
pub proof fn lemma_joined_push(parts: Seq<Seq<char>>, last: Seq<char>, sep: Seq<char>)
    requires
        parts.len() > 0,
    ensures
        joined(parts.push(last), sep) == joined(parts, sep) + sep + last,
    decreases parts.len(),
{
    let all = parts.push(last);
    assert(all.skip(1) =~= parts.skip(1).push(last));
    if parts.len() == 1 {
        assert(all.skip(1) =~= seq![last]);
        assert(joined(all.skip(1), sep) == last);
        assert(joined(all, sep) == parts[0] + sep + last);
    } else {
        lemma_joined_push(parts.skip(1), last, sep);
        assert(joined(parts, sep) == parts[0] + sep + joined(parts.skip(1), sep));
    }
    assert(joined(all, sep) =~= joined(parts, sep) + sep + last);
}

/// The parts one after another, with `sep` between each two.
pub fn join(parts: &Vec<String>, sep: &str) -> (r: String)
    ensures
        r@ == joined(texts(parts@), sep@),
{
    let mut r = String::new();
    let ghost all = texts(parts@);
    for i in 0..parts.len()
        invariant
            all == texts(parts@),
            r@ == joined(all.take(i as int), sep@),
    {
        proof {
            assert(all.take(i + 1) =~= all.take(i as int).push(all[i as int]));
            if i > 0 {
                lemma_joined_push(all.take(i as int), all[i as int], sep@);
            }
        }
        if i > 0 {
            r.append(sep);
        }
        r.append(parts[i].as_str());
        assert(r@ =~= joined(all.take(i + 1), sep@));
    }
    assert(all.take(all.len() as int) =~= all);
    r
}

// ---------------------------------------------------------------------------
// Joining lines and splitting them again
// ---------------------------------------------------------------------------

/// A line end: a line feed, after a carriage return where `crlf` holds.
pub open spec fn line_end(crlf: bool) -> Seq<char> {
    if crlf {
        seq!['\r', '\n']
    } else {
        seq!['\n']
    }
}

/// Whether no line holds a line feed.
pub open spec fn unbroken(ls: Seq<Seq<char>>) -> bool {
    forall|i: int| 0 <= i < ls.len() ==> !(#[trigger] ls[i]).contains('\n')
}

/// Whether a text ends with a carriage return.
pub open spec fn ends_with_return(s: Seq<char>) -> bool {
    s.len() > 0 && s.last() == '\r'
}

/// Whether no line but perhaps the last ends with a carriage return.
pub open spec fn no_inner_return(ls: Seq<Seq<char>>) -> bool {
    forall|i: int| 0 <= i < ls.len() - 1 ==> !ends_with_return(#[trigger] ls[i])
}

/// The first line of a text that starts with an ended line.
pub proof fn lemma_lines_first(x: Seq<char>, crlf: bool, rest: Seq<char>)
    requires
        !x.contains('\n'),
        crlf || !ends_with_return(x),
    ensures
        lines(x + line_end(crlf) + rest) == seq![x] + lines(rest),
{
    let s = x + line_end(crlf) + rest;
    let k = x.len() + (if crlf {
        1int
    } else {
        0int
    });
    assert forall|i: int| 0 <= i < k implies #[trigger] s[i] != '\n' by {
        if i < x.len() {
            assert(x[i] == s[i]);
            assert(x.contains(x[i]));
        }
    }
    lemma_find_at(s, '\n', k);
    if crlf {
        assert(s.take(k) =~= x.push('\r'));
        assert(without_return(s.take(k)) =~= x);
    } else {
        assert(s.take(k) =~= x);
    }
    assert(s.skip(k + 1) =~= rest);
}

/// A text without a line feed is one line, or none where it is empty.
pub proof fn lemma_lines_single(x: Seq<char>)
    requires
        !x.contains('\n'),
    ensures
        lines(x) == if x.len() == 0 {
            Seq::empty()
        } else {
            seq![x]
        },
{
    lemma_find(x, '\n');
}

/// The lines without a last one that is empty.
pub open spec fn without_last_empty(ls: Seq<Seq<char>>) -> Seq<Seq<char>> {
    if ls.len() > 0 && ls.last().len() == 0 {
        ls.drop_last()
    } else {
        ls
    }
}

/// Splitting joined lines gives the lines back, but for a last empty one.
pub proof fn lemma_lines_joined(ls: Seq<Seq<char>>, crlf: bool)
    requires
        unbroken(ls),
        crlf || no_inner_return(ls),
    ensures
        lines(joined(ls, line_end(crlf))) == without_last_empty(ls),
    decreases ls.len(),
{
    if ls.len() == 1 {
        lemma_lines_single(ls[0]);
        assert(without_last_empty(ls) =~= lines(ls[0]));
    } else if ls.len() > 1 {
        let rest = ls.skip(1);
        assert forall|i: int| 0 <= i < rest.len() implies !(#[trigger] rest[i]).contains('\n') by {
            assert(rest[i] == ls[i + 1]);
        }
        assert forall|i: int| 0 <= i < rest.len() - 1 && !crlf implies !ends_with_return(
            #[trigger] rest[i],
        ) by {
            assert(rest[i] == ls[i + 1]);
        }
        lemma_lines_joined(rest, crlf);
        assert(!ls[0].contains('\n'));
        lemma_lines_first(ls[0], crlf, joined(rest, line_end(crlf)));
        assert(without_last_empty(ls) =~= seq![ls[0]] + without_last_empty(rest));
    }
}

/// The lines of any text hold no line feed.
pub proof fn lemma_lines_unbroken(s: Seq<char>)
    ensures
        unbroken(lines(s)),
    decreases s.len(),
{
    lemma_find(s, '\n');
    let k = find(s, '\n') as int;
    if s.len() > 0 && k < s.len() {
        lemma_lines_unbroken(s.skip(k + 1));
        let first = without_return(s.take(k));
        if first.contains('\n') {
            let i = choose|i: int| 0 <= i < first.len() && first[i] == '\n';
            assert(s[i] == '\n');
        }
        let rest = lines(s.skip(k + 1));
        assert forall|i: int| 0 <= i < lines(s).len() implies !(#[trigger] lines(
            s,
        )[i]).contains('\n') by {
            if i > 0 {
                assert(lines(s)[i] == rest[i - 1]);
            }
        }
    }
}

/// Where no carriage return stands before a line feed, no line but perhaps
/// the last ends with a carriage return.
pub proof fn lemma_lines_no_inner_return(s: Seq<char>)
    requires
        !occurs(s, line_end(true)),
    ensures
        no_inner_return(lines(s)),
    decreases s.len(),
{
    lemma_find(s, '\n');
    let k = find(s, '\n') as int;
    if s.len() > 0 && k < s.len() {
        let tail = s.skip(k + 1);
        if occurs(tail, line_end(true)) {
            let i = choose|i: int| occurs_at(tail, line_end(true), i);
            assert(s.subrange(i + k + 1, i + k + 3) =~= tail.subrange(i, i + 2));
            assert(occurs_at(s, line_end(true), i + k + 1));
        }
        lemma_lines_no_inner_return(tail);
        if ends_with_return(s.take(k)) {
            assert(s.subrange(k - 1, k + 1) =~= line_end(true));
            assert(occurs_at(s, line_end(true), k - 1));
        }
        assert forall|i: int| 0 <= i < lines(s).len() - 1 implies !ends_with_return(
            #[trigger] lines(s)[i],
        ) by {
            if i > 0 {
                assert(lines(s)[i] == lines(tail)[i - 1]);
            }
        }
    }
}

/// The lines of a text that follows a line end are those before the line end
/// and those after it.
pub proof fn lemma_lines_concat(a: Seq<char>, b: Seq<char>)
    requires
        a.len() == 0 || a.last() == '\n',
    ensures
        lines(a + b) == lines(a) + lines(b),
    decreases a.len(),
{
    if a.len() == 0 {
        assert(a + b =~= b);
        assert(lines(a) + lines(b) =~= lines(b));
    } else {
        lemma_find(a, '\n');
        let k = find(a, '\n') as int;
        assert(a.contains(a[a.len() - 1]));
        let s = a + b;
        assert forall|i: int| 0 <= i < k implies #[trigger] s[i] != '\n' by {
            assert(s[i] == a[i]);
        }
        lemma_find_at(s, '\n', k);
        assert(s.take(k) =~= a.take(k));
        assert(s.skip(k + 1) =~= a.skip(k + 1) + b);
        lemma_lines_concat(a.skip(k + 1), b);
        assert(lines(s) =~= lines(a) + lines(b));
    }
}

/// A line end after a text that has none at its end adds no line.
pub proof fn lemma_lines_ended(s: Seq<char>, crlf: bool)
    requires
        s.len() > 0,
        s.last() != '\n',
        crlf || !ends_with_return(s),
    ensures
        lines(s + line_end(crlf)) == lines(s),
    decreases s.len(),
{
    lemma_find(s, '\n');
    let k = find(s, '\n') as int;
    if k == s.len() {
        lemma_lines_first(s, crlf, Seq::empty());
        assert(s + line_end(crlf) + Seq::<char>::empty() =~= s + line_end(crlf));
        assert(lines(Seq::<char>::empty()) =~= Seq::<Seq<char>>::empty());
        assert(seq![s] + lines(Seq::<char>::empty()) =~= seq![s]);
    } else {
        let head = s.take(k + 1);
        let tail = s.skip(k + 1);
        assert(s =~= head + tail);
        assert(s + line_end(crlf) =~= head + (tail + line_end(crlf)));
        lemma_lines_concat(head, tail);
        lemma_lines_concat(head, tail + line_end(crlf));
        lemma_lines_ended(tail, crlf);
    }
}

/// Lines joined with line feeds hold no carriage return before a line feed
/// where no line but the last ends with one.
pub proof fn lemma_joined_no_crlf(ls: Seq<Seq<char>>)
    requires
        unbroken(ls),
        no_inner_return(ls),
    ensures
        !occurs(joined(ls, line_end(false)), line_end(true)),
    decreases ls.len(),
{
    let s = joined(ls, line_end(false));
    if occurs(s, line_end(true)) {
        let i = choose|i: int| occurs_at(s, line_end(true), i);
        assert(s.subrange(i, i + 2)[0] == s[i]);
        assert(s.subrange(i, i + 2)[1] == s[i + 1]);
        if ls.len() == 1 {
            assert(ls[0].contains(ls[0][i + 1]));
        } else if ls.len() > 1 {
            let rest = ls.skip(1);
            let t = joined(rest, line_end(false));
            let n = ls[0].len() as int;
            assert(s == ls[0] + line_end(false) + t);
            if i + 1 < n {
                assert(ls[0].contains(ls[0][i + 1]));
            } else if i < n {
                assert(ls[0].last() == s[i]);
                assert(!ends_with_return(ls[0]));
            } else {
                assert(s[n] == '\n');
                assert(t.subrange(i - n - 1, i - n + 1) =~= s.subrange(i, i + 2));
                assert(occurs_at(t, line_end(true), i - n - 1));
                assert forall|j: int| 0 <= j < rest.len() implies !(#[trigger] rest[j]).contains(
                    '\n',
                ) by {
                    assert(rest[j] == ls[j + 1]);
                }
                assert forall|j: int| 0 <= j < rest.len() - 1 implies !ends_with_return(
                    #[trigger] rest[j],
                ) by {
                    assert(rest[j] == ls[j + 1]);
                }
                lemma_joined_no_crlf(rest);
            }
        }
    }
}

/// A text is taken apart at each line feed, with or without a carriage return
/// in front of it; what follows the last one is a line where it is not empty.
pub proof fn law_lines_are_taken_apart(line: Seq<char>, rest: Seq<char>)
    requires
        !line.contains('\n'),
    ensures
        lines(line + seq!['\r', '\n'] + rest) == seq![line] + lines(rest),
        !(line.len() > 0 && line.last() == '\r') ==> lines(line + seq!['\n'] + rest) == seq![line]
            + lines(rest),
        line.len() > 0 ==> lines(line) == seq![line],
        lines(Seq::<char>::empty()).len() == 0,
{
    lemma_lines_first(line, true, rest);
    if !ends_with_return(line) {
        lemma_lines_first(line, false, rest);
    }
    lemma_lines_single(line);
}

/// Parts are joined by putting the separator between each two of them.
pub proof fn law_parts_are_joined(parts: Seq<Seq<char>>, last: Seq<char>, sep: Seq<char>)
    ensures
        joined(Seq::<Seq<char>>::empty(), sep).len() == 0,
        joined(seq![last], sep) == last,
        parts.len() > 0 ==> joined(parts.push(last), sep) == joined(parts, sep) + sep + last,
{
    if parts.len() > 0 {
        lemma_joined_push(parts, last, sep);
    }
}

} // verus!
