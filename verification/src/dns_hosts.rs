//! The host overrides of the configuration: a map from host patterns to
//! targets that keeps its patterns distinct and in order.
use crate::text::{same_text, to_chars};
use vstd::prelude::*;

verus! {

/// Whether `a` comes before `b` in the order of their characters.
pub open spec fn precedes(a: Seq<char>, b: Seq<char>) -> bool
    decreases b.len(),
{
    b.len() > 0 && (a.len() == 0 || a[0] < b[0] || (a[0] == b[0] && precedes(a.skip(1), b.skip(1))))
}

proof fn lemma_precedes_irreflexive(a: Seq<char>)
    ensures
        !precedes(a, a),
    decreases a.len(),
{
    if a.len() > 0 {
        lemma_precedes_irreflexive(a.skip(1));
    }
}

proof fn lemma_precedes_transitive(a: Seq<char>, b: Seq<char>, c: Seq<char>)
    requires
        precedes(a, b),
        precedes(b, c),
    ensures
        precedes(a, c),
    decreases c.len(),
{
    if a.len() > 0 && a[0] == b[0] && b[0] == c[0] {
        lemma_precedes_transitive(a.skip(1), b.skip(1), c.skip(1));
    }
}

proof fn lemma_precedes_total(a: Seq<char>, b: Seq<char>)
    requires
        a != b,
    ensures
        precedes(a, b) || precedes(b, a),
    decreases a.len(),
{
    if a.len() > 0 && b.len() > 0 && a[0] == b[0] {
        if a.skip(1) == b.skip(1) {
            assert(a =~= seq![a[0]] + a.skip(1));
            assert(b =~= seq![b[0]] + b.skip(1));
        } else {
            lemma_precedes_total(a.skip(1), b.skip(1));
        }
    } else if a.len() == 0 && b.len() == 0 {
        assert(a =~= b);
    }
}

/// Whether `a` comes before `b` in the order of their characters.
pub fn text_precedes(a: &str, b: &str) -> (r: bool)
    ensures
        r == precedes(a@, b@),
{
    let x = to_chars(a);
    let y = to_chars(b);
    let n: usize = x.len();
    let m: usize = y.len();
    let mut i: usize = 0;
    assert(a@.skip(0) =~= a@ && b@.skip(0) =~= b@);
    while i < n && i < m
        invariant
            x@ == a@,
            y@ == b@,
            n == a@.len(),
            m == b@.len(),
            i <= n,
            i <= m,
            precedes(a@, b@) == precedes(a@.skip(i as int), b@.skip(i as int)),
        decreases n - i,
    {
        assert(a@.skip(i as int)[0] == x@[i as int]);
        assert(b@.skip(i as int)[0] == y@[i as int]);
        if x[i] < y[i] {
            return true;
        }
        if x[i] > y[i] {
            return false;
        }
        assert(a@.skip(i as int).skip(1) =~= a@.skip(i + 1));
        assert(b@.skip(i as int).skip(1) =~= b@.skip(i + 1));
        i += 1;
    }
    i < m
}

/// One override: hosts that match `pattern` are looked up as `target`.
#[derive(Debug)]
pub struct DnsHost {
    pub pattern: String,
    pub target: String,
}

impl Clone for DnsHost {
    fn clone(&self) -> (r: Self)
        ensures
            r == *self,
    {
        DnsHost { pattern: self.pattern.clone(), target: self.target.clone() }
    }
}

/// The pattern and the target of an override.
pub open spec fn dns_host_texts(e: DnsHost) -> (Seq<char>, Seq<char>) {
    (e.pattern@, e.target@)
}

/// The patterns and targets of a row of overrides.
pub open spec fn all_dns_host_texts(v: Seq<DnsHost>) -> Seq<(Seq<char>, Seq<char>)> {
    v.map_values(|e: DnsHost| dns_host_texts(e))
}

/// Whether the patterns are distinct and in ascending order.
pub open spec fn ascending(v: Seq<(Seq<char>, Seq<char>)>) -> bool {
    forall|i: int, j: int| 0 <= i < j < v.len() ==> precedes(#[trigger] v[i].0, #[trigger] v[j].0)
}

/// Where `pattern` stands, or would stand, in an ascending row.
pub open spec fn position(v: Seq<(Seq<char>, Seq<char>)>, pattern: Seq<char>) -> nat
    decreases v.len(),
{
    if v.len() > 0 && precedes(v[0].0, pattern) {
        1 + position(v.skip(1), pattern)
    } else {
        0
    }
}

proof fn lemma_position(v: Seq<(Seq<char>, Seq<char>)>, pattern: Seq<char>, k: int)
    requires
        0 <= k <= v.len(),
        forall|i: int| 0 <= i < k ==> precedes(#[trigger] v[i].0, pattern),
        k < v.len() ==> !precedes(v[k].0, pattern),
    ensures
        position(v, pattern) == k,
    decreases v.len(),
{
    if k > 0 {
        assert(precedes(v[0].0, pattern));
        let w = v.skip(1);
        assert forall|i: int| 0 <= i < k - 1 implies precedes(#[trigger] w[i].0, pattern) by {
            assert(w[i] == v[i + 1]);
        }
        lemma_position(w, pattern, k - 1);
    }
}

/// The row with `pattern` mapped to `target`: the entry of the pattern is
/// replaced where there is one, and else a new one takes its place in order.
pub open spec fn with_override(
    v: Seq<(Seq<char>, Seq<char>)>,
    pattern: Seq<char>,
    target: Seq<char>,
) -> Seq<(Seq<char>, Seq<char>)> {
    let k = position(v, pattern) as int;
    if k < v.len() && v[k].0 == pattern {
        v.update(k, (pattern, target))
    } else {
        v.insert(k, (pattern, target))
    }
}

/// The host overrides, ascending by pattern.
#[derive(Debug)]
pub struct DnsHosts {
    entries: Vec<DnsHost>,
}

impl View for DnsHosts {
    type V = Seq<(Seq<char>, Seq<char>)>;

    closed spec fn view(&self) -> Seq<(Seq<char>, Seq<char>)> {
        all_dns_host_texts(self.entries@)
    }
}

impl DnsHosts {
    #[verifier::type_invariant]
    spec fn wf(self) -> bool {
        ascending(all_dns_host_texts(self.entries@))
    }

    /// A map without overrides.
    pub fn new() -> (r: Self)
        ensures
            r@ == Seq::<(Seq<char>, Seq<char>)>::empty(),
    {
        let r = DnsHosts { entries: Vec::new() };
        assert(r@ =~= Seq::<(Seq<char>, Seq<char>)>::empty());
        r
    }

    /// The number of overrides.
    pub fn len(&self) -> (r: usize)
        ensures
            r == self@.len(),
            ascending(self@),
    {
        proof {
            use_type_invariant(self);
        }
        self.entries.len()
    }

    /// The override at position `i`.
    pub fn entry(&self, i: usize) -> (r: &DnsHost)
        requires
            i < self@.len(),
        ensures
            dns_host_texts(*r) == self@[i as int],
    {
        &self.entries[i]
    }

    /// Maps `pattern` to `target`, in place of what it was mapped to before.
    pub fn insert(&mut self, pattern: String, target: String)
        ensures
            final(self)@ == with_override(old(self)@, pattern@, target@),
    {
        proof {
            use_type_invariant(&*self);
        }
        let mut entries: Vec<DnsHost> = Vec::new();
        std::mem::swap(&mut entries, &mut self.entries);
        let ghost v = all_dns_host_texts(entries@);
        let n: usize = entries.len();
        let mut k: usize = 0;
        while k < n && text_precedes(entries[k].pattern.as_str(), pattern.as_str())
            invariant
                n == entries@.len(),
                k <= n,
                v == all_dns_host_texts(entries@),
                forall|i: int| 0 <= i < k ==> precedes(#[trigger] v[i].0, pattern@),
            decreases n - k,
        {
            assert(v[k as int].0 == entries@[k as int].pattern@);
            k += 1;
        }
        proof {
            lemma_position(v, pattern@, k as int);
        }
        let entry = DnsHost { pattern, target };
        let ghost new = dns_host_texts(entry);
        if k < n && same_text(entries[k].pattern.as_str(), entry.pattern.as_str()) {
            entries.set(k, entry);
            let ghost w = all_dns_host_texts(entries@);
            assert(w =~= v.update(k as int, new));
            assert forall|i: int, j: int| 0 <= i < j < w.len() implies precedes(
                #[trigger] w[i].0,
                #[trigger] w[j].0,
            ) by {
                assert(w[i].0 == v[i].0 && w[j].0 == v[j].0);
            }
        } else {
            entries.insert(k, entry);
            let ghost w = all_dns_host_texts(entries@);
            assert(w =~= v.insert(k as int, new));
            assert forall|i: int, j: int| 0 <= i < j < w.len() implies precedes(
                #[trigger] w[i].0,
                #[trigger] w[j].0,
            ) by {
                if k < n {
                    lemma_precedes_total(v[k as int].0, new.0);
                }
                if i < k && j > k {
                    assert(w[i] == v[i] && w[j] == v[j - 1]);
                } else if i == k {
                    assert(w[j] == v[j - 1]);
                    if j - 1 > k {
                        assert(precedes(v[k as int].0, v[j - 1].0));
                        lemma_precedes_transitive(new.0, v[k as int].0, v[j - 1].0);
                    }
                } else if j == k {
                    assert(w[i] == v[i]);
                } else if i > k {
                    assert(w[i] == v[i - 1] && w[j] == v[j - 1]);
                } else {
                    assert(w[i] == v[i] && w[j] == v[j]);
                }
            }
        }
        self.entries = entries;
    }
}

impl Clone for DnsHosts {
    fn clone(&self) -> (r: Self)
        ensures
            r@ == self@,
    {
        proof {
            use_type_invariant(self);
        }
        let entries = self.entries.clone();
        assert(entries@ =~= self.entries@);
        DnsHosts { entries }
    }
}

/// No two overrides have the same pattern.
pub proof fn lemma_ascending_distinct(v: Seq<(Seq<char>, Seq<char>)>, i: int, j: int)
    requires
        ascending(v),
        0 <= i < v.len(),
        0 <= j < v.len(),
        v[i].0 == v[j].0,
    ensures
        i == j,
{
    lemma_precedes_irreflexive(v[i].0);
    if i < j {
        assert(precedes(v[i].0, v[j].0));
    } else if j < i {
        assert(precedes(v[j].0, v[i].0));
    }
}

/// One text comes before another where it is the front of it, or has the
/// smaller character at the first place where they differ.
pub proof fn law_order_of_texts(a: Seq<char>, b: Seq<char>)
    ensures
        precedes(a, b) <==> (exists|k: int|
            0 <= k <= a.len() && k < b.len() && #[trigger] a.take(k) == b.take(k) && (k == a.len()
                || a[k] < b[k])),
    decreases b.len(),
{
    let goal = exists|k: int|
        0 <= k <= a.len() && k < b.len() && #[trigger] a.take(k) == b.take(k) && (k == a.len()
            || a[k] < b[k]);
    if b.len() > 0 {
        if a.len() == 0 || a[0] < b[0] {
            assert(a.take(0) =~= b.take(0));
        } else if a[0] == b[0] {
            let x = a.skip(1);
            let y = b.skip(1);
            law_order_of_texts(x, y);
            if precedes(x, y) {
                let k = choose|k: int|
                    0 <= k <= x.len() && k < y.len() && #[trigger] x.take(k) == y.take(k) && (k
                        == x.len() || x[k] < y[k]);
                assert forall|i: int| 0 <= i < k + 1 implies a[i] == b[i] by {
                    if i > 0 {
                        assert(x.take(k)[i - 1] == y.take(k)[i - 1]);
                    }
                }
                assert(a.take(k + 1) =~= b.take(k + 1));
            }
            if goal {
                let k = choose|k: int|
                    0 <= k <= a.len() && k < b.len() && #[trigger] a.take(k) == b.take(k) && (k
                        == a.len() || a[k] < b[k]);
                if k > 0 {
                    assert forall|i: int| 0 <= i < k - 1 implies x[i] == y[i] by {
                        assert(a.take(k)[i + 1] == b.take(k)[i + 1]);
                    }
                    assert(x.take(k - 1) =~= y.take(k - 1));
                }
            }
        } else if goal {
            let k = choose|k: int|
                0 <= k <= a.len() && k < b.len() && #[trigger] a.take(k) == b.take(k) && (k
                    == a.len() || a[k] < b[k]);
            if k > 0 {
                assert(a.take(k)[0] == b.take(k)[0]);
            }
        }
    }
}

proof fn lemma_position_splits(v: Seq<(Seq<char>, Seq<char>)>, pattern: Seq<char>)
    ensures
        position(v, pattern) <= v.len(),
        forall|i: int| 0 <= i < position(v, pattern) ==> precedes((#[trigger] v[i]).0, pattern),
        position(v, pattern) < v.len() ==> !precedes(v[position(v, pattern) as int].0, pattern),
    decreases v.len(),
{
    if v.len() > 0 && precedes(v[0].0, pattern) {
        let w = v.skip(1);
        lemma_position_splits(w, pattern);
        assert forall|i: int| 0 <= i < position(v, pattern) implies precedes(
            (#[trigger] v[i]).0,
            pattern,
        ) by {
            if i > 0 {
                assert(w[i - 1] == v[i]);
            }
        }
    }
}

/// Once an override is put in, it stands among the overrides, no other has its
/// pattern, and those with other patterns are the same as before.
pub proof fn law_override_is_put_in(
    v: Seq<(Seq<char>, Seq<char>)>,
    pattern: Seq<char>,
    target: Seq<char>,
    e: (Seq<char>, Seq<char>),
)
    requires
        ascending(v),
    ensures
        with_override(v, pattern, target).contains((pattern, target)),
        with_override(v, pattern, target).contains(e) && e.0 == pattern ==> e.1 == target,
        e.0 != pattern ==> (with_override(v, pattern, target).contains(e) <==> v.contains(e)),
{
    let w = with_override(v, pattern, target);
    let k = position(v, pattern) as int;
    lemma_position_splits(v, pattern);
    assert(w[k] == (pattern, target));
    lemma_precedes_irreflexive(pattern);
    if v.contains(e) && e.0 != pattern {
        let i = choose|i: int| 0 <= i < v.len() && v[i] == e;
        if w.len() == v.len() {
            assert(w[i] == e);
        } else if i < k {
            assert(w[i] == e);
        } else {
            assert(w[i + 1] == e);
        }
    }
    if w.contains(e) {
        let i = choose|i: int| 0 <= i < w.len() && w[i] == e;
        if i != k {
            let j = if w.len() == v.len() || i < k {
                i
            } else {
                i - 1
            };
            assert(v[j] == e);
            if e.0 == pattern {
                if j < k {
                    assert(precedes(v[j].0, pattern));
                } else if j == k {
                    assert(v[k].0 == pattern);
                } else {
                    assert(precedes(v[k].0, v[j].0));
                }
            }
        }
    }
}

/// What is said of an override is its pattern and its target.
pub proof fn law_override_as_it_is(e: DnsHost)
    ensures
        dns_host_texts(e) == (e.pattern@, e.target@),
{
}

} // verus!
