//! Text as sequences of characters: the operations on strings that the rest
//! of the crate is built from, each with its mathematical meaning.
use vstd::prelude::*;

verus! {

/// `String::push` of the standard library: it appends one character and
/// leaves the rest of the string as it was.
pub assume_specification[ String::push ](s: &mut String, c: char)
    ensures
        final(s)@ == old(s)@.push(c),
;

/// The texts held by a sequence of strings.
pub open spec fn texts(v: Seq<String>) -> Seq<Seq<char>> {
    v.map_values(|s: String| s@)
}

/// The text held by an optional string.
pub open spec fn opt_text(o: Option<String>) -> Option<Seq<char>> {
    match o {
        Some(s) => Some(s@),
        None => None,
    }
}

/// The two texts, one after the other.
pub fn followed_by(a: &str, b: &str) -> (r: String)
    ensures
        r@ == a@ + b@,
{
    let mut r = a.to_string();
    r.append(b);
    r
}

/// The characters of `s`, in order.
pub fn to_chars(s: &str) -> (r: Vec<char>)
    ensures
        r@ == s@,
{
    let mut r: Vec<char> = Vec::new();
    for c in iter: s.chars()
        invariant
            r@ == iter.seq().take(iter.index()),
            iter.seq() == s@,
    {
        r.push(c);
    }
    r
}

/// The string whose characters are `cs[from..to]`.
pub fn from_chars(cs: &Vec<char>, from: usize, to: usize) -> (r: String)
    requires
        from <= to <= cs@.len(),
    ensures
        r@ == cs@.subrange(from as int, to as int),
{
    let mut r = String::new();
    for i in from..to
        invariant
            from <= to <= cs@.len(),
            r@ == cs@.subrange(from as int, i as int),
    {
        r.push(cs[i]);
        assert(cs@.subrange(from as int, i + 1) =~= cs@.subrange(from as int, i as int).push(
            cs@[i as int],
        ));
    }
    r
}

/// Whether `a` and `b` are the same text.
pub fn same_text(a: &str, b: &str) -> (r: bool)
    ensures
        r == (a@ == b@),
{
    a.to_owned() == b.to_owned()
}

/// Whether `v` holds the text of `s`.
pub fn contains_text(v: &Vec<String>, s: &str) -> (r: bool)
    ensures
        r == texts(v@).contains(s@),
{
    for i in 0..v.len()
        invariant
            forall|j: int| 0 <= j < i ==> texts(v@)[j] != s@,
    {
        if same_text(v[i].as_str(), s) {
            assert(texts(v@)[i as int] == s@);
            return true;
        }
    }
    false
}

// ---------------------------------------------------------------------------
// Letter case
// ---------------------------------------------------------------------------

/// The character with `A` to `Z` mapped to `a` to `z` and all others kept.
pub open spec fn lower(c: char) -> char {
    if 'A' <= c && c <= 'Z' {
        (c as u32 + 32) as char
    } else {
        c
    }
}

/// The text with every ASCII letter in lower case.
pub open spec fn lowercase(s: Seq<char>) -> Seq<char> {
    s.map_values(|c: char| lower(c))
}

fn lower_char(c: char) -> (r: char)
    ensures
        r == lower(c),
{
    if 'A' <= c && c <= 'Z' {
        (c as u8 + 32) as char
    } else {
        c
    }
}

/// `s` with every ASCII letter in lower case.
pub fn to_ascii_lowercase(s: &str) -> (r: String)
    ensures
        r@ == lowercase(s@),
{
    let cs = to_chars(s);
    let mut r = String::new();
    for i in 0..cs.len()
        invariant
            cs@ == s@,
            r@ == lowercase(s@.take(i as int)),
    {
        r.push(lower_char(cs[i]));
        assert(lowercase(s@.take(i + 1)) == lowercase(s@.take(i as int)).push(lower(s@[i as int])));
    }
    assert(s@.take(s@.len() as int) == s@);
    r
}

/// Lower-casing a text a second time changes nothing.
pub proof fn lemma_lowercase_idempotent(s: Seq<char>)
    ensures
        lowercase(lowercase(s)) == lowercase(s),
{
    assert(lowercase(lowercase(s)) =~= lowercase(s));
}

// ---------------------------------------------------------------------------
// Prefixes and suffixes
// ---------------------------------------------------------------------------

/// Whether `s` starts with `p`.
pub fn starts_with(s: &str, p: &str) -> (r: bool)
    ensures
        r == p@.is_prefix_of(s@),
{
    let a = to_chars(s);
    let b = to_chars(p);
    if b.len() > a.len() {
        return false;
    }
    for i in 0..b.len()
        invariant
            a@ == s@,
            b@ == p@,
            b@.len() <= a@.len(),
            forall|j: int| 0 <= j < i ==> a@[j] == b@[j],
    {
        if a[i] != b[i] {
            assert(s@.subrange(0, p@.len() as int)[i as int] != p@[i as int]);
            return false;
        }
    }
    assert(p@ =~= s@.subrange(0, p@.len() as int));
    true
}

/// Whether `s` ends with `p`.
pub fn ends_with(s: &str, p: &str) -> (r: bool)
    ensures
        r == p@.is_suffix_of(s@),
{
    let a = to_chars(s);
    let b = to_chars(p);
    if b.len() > a.len() {
        return false;
    }
    let n: usize = a.len();
    let off: usize = n - b.len();
    for i in 0..b.len()
        invariant
            n == a@.len(),
            a@ == s@,
            b@ == p@,
            b@.len() + off == a@.len(),
            forall|j: int| 0 <= j < i ==> a@[off + j] == b@[j],
    {
        if a[off + i] != b[i] {
            assert(s@.subrange(off as int, s@.len() as int)[i as int] != p@[i as int]);
            return false;
        }
    }
    assert(p@ =~= s@.subrange(off as int, s@.len() as int));
    true
}

/// What follows `p` in `s`, when `s` starts with `p`.
pub open spec fn after_prefix(s: Seq<char>, p: Seq<char>) -> Option<Seq<char>> {
    if p.is_prefix_of(s) {
        Some(s.skip(p.len() as int))
    } else {
        None
    }
}

/// What follows `p` in `s`, when `s` starts with `p`.
pub fn strip_prefix(s: &str, p: &str) -> (r: Option<String>)
    ensures
        opt_text(r) == after_prefix(s@, p@),
{
    if starts_with(s, p) {
        let cs = to_chars(s);
        let n: usize = to_chars(p).len();
        let rest = from_chars(&cs, n, cs.len());
        assert(rest@ =~= s@.skip(p@.len() as int));
        Some(rest)
    } else {
        None
    }
}

/// Whether `p` occurs somewhere in `s`.
pub open spec fn occurs(s: Seq<char>, p: Seq<char>) -> bool {
    exists|i: int| #[trigger] occurs_at(s, p, i)
}

/// Whether `p` occurs in `s` from position `i` on.
pub open spec fn occurs_at(s: Seq<char>, p: Seq<char>, i: int) -> bool {
    0 <= i && i + p.len() <= s.len() && s.subrange(i, i + p.len()) == p
}

/// Whether `p` occurs somewhere in `s`.
pub fn contains(s: &str, p: &str) -> (r: bool)
    ensures
        r == occurs(s@, p@),
{
    let a = to_chars(s);
    let b = to_chars(p);
    if b.len() == 0 {
        assert(s@.subrange(0, 0) =~= p@);
        assert(occurs_at(s@, p@, 0));
        return true;
    }
    let n: usize = a.len();
    if b.len() > n {
        return false;
    }
    let last: usize = n - b.len();
    let mut i: usize = 0;
    while i <= last
        invariant
            a@ == s@,
            b@ == p@,
            n == a@.len(),
            last + b@.len() == n,
            last < n,
            i <= last + 1,
            forall|k: int| 0 <= k < i ==> !occurs_at(s@, p@, k),
        decreases last + 1 - i,
    {
        let mut j: usize = 0;
        while j < b.len() && a[i + j] == b[j]
            invariant
                a@ == s@,
                b@ == p@,
                n == a@.len(),
                last + b@.len() == n,
                i <= last,
                j <= b@.len(),
                forall|k: int| 0 <= k < j ==> a@[i + k] == b@[k],
            decreases b@.len() - j,
        {
            j += 1;
        }
        if j == b.len() {
            assert(s@.subrange(i as int, i + p@.len()) =~= p@);
            assert(occurs_at(s@, p@, i as int));
            return true;
        }
        assert(s@.subrange(i as int, i + p@.len())[j as int] != p@[j as int]);
        i += 1;
    }
    false
}

/// The text with every `c` replaced by `with`.
pub open spec fn replaced(s: Seq<char>, c: char, with: Seq<char>) -> Seq<char>
    decreases s.len(),
{
    if s.len() == 0 {
        Seq::empty()
    } else {
        (if s[0] == c {
            with
        } else {
            seq![s[0]]
        }) + replaced(s.skip(1), c, with)
    }
}

/// Replacing goes part by part.
pub proof fn lemma_replaced_concat(a: Seq<char>, b: Seq<char>, c: char, with: Seq<char>)
    ensures
        replaced(a + b, c, with) == replaced(a, c, with) + replaced(b, c, with),
    decreases a.len(),
{
    if a.len() == 0 {
        assert(a + b =~= b);
        assert(replaced(a, c, with) + replaced(b, c, with) =~= replaced(b, c, with));
    } else {
        assert((a + b).skip(1) =~= a.skip(1) + b);
        lemma_replaced_concat(a.skip(1), b, c, with);
        assert(replaced(a + b, c, with) =~= replaced(a, c, with) + replaced(b, c, with));
    }
}

/// Replaces every `c` in `s` by `with`.
pub fn replace(s: &str, c: char, with: &str) -> (r: String)
    ensures
        r@ == replaced(s@, c, with@),
{
    let chars = to_chars(s);
    let mut r = String::new();
    assert(s@.skip(0) =~= s@);
    assert(r@ + replaced(s@, c, with@) =~= replaced(s@, c, with@));
    for i in 0..chars.len()
        invariant
            chars@ == s@,
            r@ + replaced(s@.skip(i as int), c, with@) == replaced(s@, c, with@),
    {
        let ghost before = r@;
        let ghost tail = s@.skip(i as int);
        let x = chars[i];
        if x == c {
            r.append(with);
        } else {
            r.push(x);
        }
        proof {
            assert(tail[0] == x);
            assert(tail.skip(1) =~= s@.skip(i + 1));
            assert(r@ + replaced(s@.skip(i + 1), c, with@) =~= before + replaced(tail, c, with@));
        }
    }
    assert(s@.skip(s@.len() as int) =~= Seq::<char>::empty());
    assert(r@ + Seq::<char>::empty() =~= r@);
    r
}

/// In lower case the letters from `A` to `Z` are those 32 places further on,
/// and all other characters stay as they are, each in its place.
pub proof fn law_lower_case(s: Seq<char>, i: int)
    requires
        0 <= i < s.len(),
    ensures
        lowercase(s).len() == s.len(),
        65 <= s[i] as u32 <= 90 ==> lowercase(s)[i] as u32 == s[i] as u32 + 32,
        !(65 <= s[i] as u32 <= 90) ==> lowercase(s)[i] == s[i],
{
}

/// A character is replaced wherever it stands, and nothing else is.
pub proof fn law_replacing(a: Seq<char>, c: char, b: Seq<char>, with: Seq<char>)
    requires
        !a.contains(c),
    ensures
        replaced(a, c, with) == a,
        replaced(a + seq![c] + b, c, with) == a + with + replaced(b, c, with),
    decreases a.len(),
{
    let s = a + seq![c] + b;
    if a.len() == 0 {
        assert(s.skip(1) =~= b);
        assert(a + with + replaced(b, c, with) =~= with + replaced(b, c, with));
    } else {
        assert(a[0] != c);
        assert forall|i: int| 0 <= i < a.skip(1).len() implies a.skip(1)[i] != c by {
            assert(a.skip(1)[i] == a[i + 1]);
        }
        law_replacing(a.skip(1), c, b, with);
        assert(s.skip(1) =~= a.skip(1) + seq![c] + b);
        assert(a =~= seq![a[0]] + a.skip(1));
        assert(seq![a[0]] + (a.skip(1) + with + replaced(b, c, with)) =~= a + with + replaced(
            b,
            c,
            with,
        ));
    }
}

/// A text occurs in another exactly where the other is it with something in
/// front of it and something behind it, or nothing.
pub proof fn law_occurrences(s: Seq<char>, p: Seq<char>, a: Seq<char>, b: Seq<char>)
    ensures
        occurs(a + p + b, p),
        occurs(s, p) ==> exists|i: int|
            0 <= i && i + p.len() <= s.len() && s == #[trigger] s.take(i) + p + s.skip(
                i + p.len(),
            ),
{
    let whole = a + p + b;
    let n = a.len() as int;
    assert(whole.subrange(n, n + p.len()) =~= p);
    assert(occurs_at(whole, p, n));
    if occurs(s, p) {
        let i = choose|i: int| occurs_at(s, p, i);
        assert(s =~= s.take(i) + s.subrange(i, i + p.len()) + s.skip(i + p.len()));
        assert(s == s.take(i) + p + s.skip(i + p.len()));
    }
}

/// What follows the front of a text is found where the text has that front,
/// and nothing where it has not.
pub proof fn law_after_the_front(s: Seq<char>, p: Seq<char>, rest: Seq<char>)
    ensures
        after_prefix(p + rest, p) == Some(rest),
        after_prefix(s, p) matches Some(r) ==> s == p + r,
        after_prefix(s, p) is None ==> !p.is_prefix_of(s),
{
    assert((p + rest).subrange(0, p.len() as int) =~= p);
    assert((p + rest).skip(p.len() as int) =~= rest);
    if p.is_prefix_of(s) {
        assert(s =~= s.subrange(0, p.len() as int) + s.skip(p.len() as int));
    }
}

/// An optional text is the text that is there, and texts are those that are
/// there, in their order.
pub proof fn law_texts(s: String, all: Seq<String>, i: int)
    ensures
        opt_text(Some(s)) == Some(s@),
        opt_text(None) is None,
        texts(all).len() == all.len(),
        0 <= i < all.len() ==> texts(all)[i] == all[i]@,
{
}

} // verus!
