//! White space: trimming a text and splitting it into words.
use crate::text::{from_chars, texts, to_chars};
use vstd::prelude::*;

verus! {

/// The characters with the Unicode property White_Space.
pub open spec fn is_white_space(c: char) -> bool {
    let n = c as u32;
    ||| 0x09 <= n <= 0x0d
    ||| n == 0x20
    ||| n == 0x85
    ||| n == 0xa0
    ||| n == 0x1680
    ||| 0x2000 <= n <= 0x200a
    ||| n == 0x2028
    ||| n == 0x2029
    ||| n == 0x202f
    ||| n == 0x205f
    ||| n == 0x3000
}

/// Whether `c` has the Unicode property White_Space.
pub fn white_space(c: char) -> (r: bool)
    ensures
        r == is_white_space(c),
{
    let n: u32 = c as u32;
    (0x09 <= n && n <= 0x0d) || n == 0x20 || n == 0x85 || n == 0xa0 || n == 0x1680 || (0x2000 <= n
        && n <= 0x200a) || n == 0x2028 || n == 0x2029 || n == 0x202f || n == 0x205f || n == 0x3000
}

/// The text without its leading white space.
pub open spec fn trimmed_start(s: Seq<char>) -> Seq<char>
    decreases s.len(),
{
    if s.len() > 0 && is_white_space(s[0]) {
        trimmed_start(s.skip(1))
    } else {
        s
    }
}

/// The text without its trailing white space.
pub open spec fn trimmed_end(s: Seq<char>) -> Seq<char>
    decreases s.len(),
{
    if s.len() > 0 && is_white_space(s.last()) {
        trimmed_end(s.drop_last())
    } else {
        s
    }
}

/// The text without the white space around it.
pub open spec fn trimmed(s: Seq<char>) -> Seq<char> {
    trimmed_end(trimmed_start(s))
}

/// The number of characters before the first white space.
pub open spec fn word_len(s: Seq<char>) -> nat
    decreases s.len(),
{
    if s.len() == 0 || is_white_space(s[0]) {
        0
    } else {
        1 + word_len(s.skip(1))
    }
}

pub proof fn lemma_word_len(s: Seq<char>)
    ensures
        word_len(s) <= s.len(),
        forall|i: int| 0 <= i < word_len(s) ==> !is_white_space(#[trigger] s[i]),
        word_len(s) < s.len() ==> is_white_space(s[word_len(s) as int]),
    decreases s.len(),
{
    if s.len() > 0 && !is_white_space(s[0]) {
        lemma_word_len(s.skip(1));
        assert forall|i: int| 0 <= i < word_len(s) implies !is_white_space(#[trigger] s[i]) by {
            if i > 0 {
                assert(s.skip(1)[i - 1] == s[i]);
            }
        }
    }
}

/// Trimming the front leaves a suffix that is empty or starts with a word.
pub proof fn lemma_trimmed_start(s: Seq<char>)
    ensures
        trimmed_start(s).len() <= s.len(),
        trimmed_start(s) == s.skip(s.len() - trimmed_start(s).len()),
        trimmed_start(s).len() > 0 ==> !is_white_space(trimmed_start(s)[0]),
    decreases s.len(),
{
    if s.len() > 0 && is_white_space(s[0]) {
        lemma_trimmed_start(s.skip(1));
        assert(s.skip(1).skip(s.len() - 1 - trimmed_start(s).len()) =~= s.skip(
            s.len() - trimmed_start(s).len(),
        ));
    } else {
        assert(s.skip(0) =~= s);
    }
}

/// The words of a text: its longest runs without white space, in order.
pub open spec fn words(s: Seq<char>) -> Seq<Seq<char>>
    decreases s.len(),
    via words_decreases
{
    let t = trimmed_start(s);
    if t.len() == 0 {
        Seq::empty()
    } else {
        seq![t.take(word_len(t) as int)] + words(t.skip(word_len(t) as int))
    }
}

#[via_fn]
proof fn words_decreases(s: Seq<char>) {
    lemma_trimmed_start(s);
    lemma_word_len(trimmed_start(s));
}

/// The text without the white space around it.
pub fn trim(s: &str) -> (r: String)
    ensures
        r@ == trimmed(s@),
{
    let cs = to_chars(s);
    let n: usize = cs.len();
    let mut from: usize = 0;
    assert(s@.skip(0) =~= s@);
    while from < n && white_space(cs[from])
        invariant
            cs@ == s@,
            n == s@.len(),
            from <= n,
            trimmed_start(s@) == trimmed_start(s@.skip(from as int)),
        decreases n - from,
    {
        assert(s@.skip(from as int).skip(1) =~= s@.skip(from + 1));
        from += 1;
    }
    let ghost t = s@.skip(from as int);
    assert(trimmed_start(s@) == t);
    let mut to: usize = n;
    assert(s@.subrange(from as int, n as int) =~= t);
    while to > from && white_space(cs[to - 1])
        invariant
            cs@ == s@,
            n == s@.len(),
            from <= to <= n,
            trimmed_end(t) == trimmed_end(s@.subrange(from as int, to as int)),
        decreases to,
    {
        assert(s@.subrange(from as int, to as int).drop_last() =~= s@.subrange(
            from as int,
            to - 1,
        ));
        to -= 1;
    }
    from_chars(&cs, from, to)
}

/// The text without its trailing white space.
pub fn trim_end(s: &str) -> (r: String)
    ensures
        r@ == trimmed_end(s@),
{
    let cs = to_chars(s);
    let n: usize = cs.len();
    let mut to: usize = n;
    assert(s@.subrange(0, n as int) =~= s@);
    while to > 0 && white_space(cs[to - 1])
        invariant
            cs@ == s@,
            n == s@.len(),
            to <= n,
            trimmed_end(s@) == trimmed_end(s@.subrange(0, to as int)),
        decreases to,
    {
        assert(s@.subrange(0, to as int).drop_last() =~= s@.subrange(0, to - 1));
        to -= 1;
    }
    from_chars(&cs, 0, to)
}

/// The words of a text, in order.
pub fn split_whitespace(s: &str) -> (r: Vec<String>)
    ensures
        texts(r@) == words(s@),
{
    let cs = to_chars(s);
    let n: usize = cs.len();
    let mut r: Vec<String> = Vec::new();
    let mut at: usize = 0;
    assert(s@.skip(0) =~= s@);
    assert(texts(r@) + words(s@) =~= words(s@));
    while at < n
        invariant
            cs@ == s@,
            n == s@.len(),
            at <= n,
            texts(r@) + words(s@.skip(at as int)) == words(s@),
        decreases n - at,
    {
        let ghost rest = s@.skip(at as int);
        if white_space(cs[at]) {
            assert(rest.skip(1) =~= s@.skip(at + 1));
            at += 1;
        } else {
            let mut to: usize = at;
            assert(rest.skip(0) =~= rest);
            while to < n && !white_space(cs[to])
                invariant
                    cs@ == s@,
                    n == s@.len(),
                    at <= to <= n,
                    rest == s@.skip(at as int),
                    word_len(rest) == (to - at) + word_len(rest.skip(to - at)),
                decreases n - to,
            {
                assert(rest.skip(to - at)[0] == s@[to as int]);
                assert(rest.skip(to - at).skip(1) =~= rest.skip(to + 1 - at));
                to += 1;
            }
            let ghost w = word_len(rest);
            let word = from_chars(&cs, at, to);
            assert(word@ =~= rest.take(w as int));
            assert(rest.skip(w as int) =~= s@.skip(to as int));
            let ghost before = texts(r@);
            r.push(word);
            assert(texts(r@) =~= before.push(word@));
            assert(texts(r@) + words(s@.skip(to as int)) =~= before + (seq![word@] + words(
                s@.skip(to as int),
            )));
            at = to;
        }
    }
    assert(s@.skip(n as int).len() == 0);
    assert(texts(r@) + words(s@.skip(n as int)) =~= texts(r@));
    r
}

/// A text that neither starts nor ends with white space is its own trimming.
pub proof fn lemma_trimmed_unchanged(s: Seq<char>)
    requires
        s.len() > 0,
        !is_white_space(s[0]),
        !is_white_space(s.last()),
    ensures
        trimmed(s) == s,
{
}

/// Whether a text holds nothing but white space.
pub open spec fn blank(s: Seq<char>) -> bool {
    forall|i: int| 0 <= i < s.len() ==> is_white_space(#[trigger] s[i])
}

/// Whether a text is not empty and has a character other than white space at
/// both ends.
pub open spec fn solid(s: Seq<char>) -> bool {
    s.len() > 0 && !is_white_space(s[0]) && !is_white_space(s.last())
}

proof fn lemma_front_taken_off(left: Seq<char>, s: Seq<char>)
    requires
        blank(left),
        s.len() > 0 ==> !is_white_space(s[0]),
    ensures
        trimmed_start(left + s) == s,
    decreases left.len(),
{
    let all = left + s;
    if left.len() == 0 {
        assert(all =~= s);
    } else {
        assert(all[0] == left[0]);
        assert(all.skip(1) =~= left.skip(1) + s);
        assert forall|i: int| 0 <= i < left.skip(1).len() implies is_white_space(
            #[trigger] left.skip(1)[i],
        ) by {
            assert(left.skip(1)[i] == left[i + 1]);
        }
        lemma_front_taken_off(left.skip(1), s);
    }
}

proof fn lemma_back_taken_off(s: Seq<char>, right: Seq<char>)
    requires
        blank(right),
        s.len() > 0 ==> !is_white_space(s.last()),
    ensures
        trimmed_end(s + right) == s,
    decreases right.len(),
{
    let all = s + right;
    if right.len() == 0 {
        assert(all =~= s);
    } else {
        assert(all.last() == right.last());
        assert(is_white_space(right[right.len() - 1]));
        assert(all.drop_last() =~= s + right.drop_last());
        lemma_back_taken_off(s, right.drop_last());
    }
}

/// Trimming takes all white space off both ends and nothing else.
pub proof fn law_trim_takes_white_space_off(left: Seq<char>, s: Seq<char>, right: Seq<char>)
    requires
        blank(left),
        blank(right),
        solid(s),
    ensures
        trimmed(left + s + right) == s,
{
    assert(left + s + right =~= left + (s + right));
    assert((s + right)[0] == s[0]);
    lemma_front_taken_off(left, s + right);
    lemma_back_taken_off(s, right);
}

/// Trimming the end takes all white space off it and leaves what stands in
/// front, also where that starts with white space.
pub proof fn law_trim_end_takes_white_space_off(s: Seq<char>, right: Seq<char>)
    requires
        blank(right),
        s.len() > 0,
        !is_white_space(s.last()),
    ensures
        trimmed_end(s + right) == s,
{
    lemma_back_taken_off(s, right);
}

/// Of white space trimming leaves nothing.
pub proof fn law_trim_leaves_nothing_of_white_space(s: Seq<char>)
    requires
        blank(s),
    ensures
        trimmed(s).len() == 0,
        trimmed_end(s).len() == 0,
        words(s).len() == 0,
{
    let none = Seq::<char>::empty();
    lemma_front_taken_off(s, none);
    assert(s + none =~= s);
    lemma_back_taken_off(none, s);
    assert(none + s =~= s);
}

/// The characters of a text from its first word on are white space, the first
/// word, and the rest, which is taken apart in the same way.
pub proof fn law_words_are_taken_apart(left: Seq<char>, word: Seq<char>, rest: Seq<char>)
    requires
        blank(left),
        word.len() > 0,
        forall|i: int| 0 <= i < word.len() ==> !is_white_space(#[trigger] word[i]),
        rest.len() > 0 ==> is_white_space(rest[0]),
    ensures
        words(left + word + rest) == seq![word] + words(rest),
{
    let t = word + rest;
    assert(left + word + rest =~= left + t);
    assert(t[0] == word[0]);
    lemma_front_taken_off(left, t);
    lemma_word_len(t);
    let n = word_len(t) as int;
    if n < word.len() {
        assert(t[n] == word[n]);
    }
    if n > word.len() {
        assert(t[word.len() as int] == rest[0]);
    }
    assert(t.take(n) =~= word);
    assert(t.skip(n) =~= rest);
}

/// White space is what Unicode calls so: five control characters from the tab
/// to the carriage return, the space, the next line, and the spaces of
/// particular width or use.
pub proof fn law_white_space(c: char)
    ensures
        is_white_space(c) <==> {
            ||| c == '\t'
            ||| c == '\n'
            ||| c == '\u{b}'
            ||| c == '\u{c}'
            ||| c == '\r'
            ||| c == ' '
            ||| c == '\u{85}'
            ||| c == '\u{a0}'
            ||| c == '\u{1680}'
            ||| '\u{2000}' <= c <= '\u{200a}'
            ||| c == '\u{2028}'
            ||| c == '\u{2029}'
            ||| c == '\u{202f}'
            ||| c == '\u{205f}'
            ||| c == '\u{3000}'
        },
{
}

} // verus!
