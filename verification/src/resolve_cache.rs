//! Resolved upstreams, and the cache that keeps them for a while.
use crate::doh::IpAddress;
use crate::text::same_text;
use vstd::prelude::*;

verus! {

/// An address and a port.
#[derive(Debug, Clone, Copy, PartialEq, Eq, Structural)]
pub struct SocketAddress {
    pub ip: IpAddress,
    pub port: u16,
}

/// Where an upstream can be reached, and the ECH configuration list to reach
/// it with.
#[derive(Debug)]
pub struct ResolvedUpstream {
    pub addrs: Vec<SocketAddress>,
    pub ech_config_list: Option<Vec<u8>>,
}

/// Where an upstream can be reached, as sequences.
#[verifier::ext_equal]
pub struct UpstreamModel {
    pub addrs: Seq<SocketAddress>,
    pub ech_config_list: Option<Seq<u8>>,
}

/// The bytes of an optional list.
pub open spec fn opt_bytes(o: Option<Vec<u8>>) -> Option<Seq<u8>> {
    match o {
        Some(v) => Some(v@),
        None => None,
    }
}

impl View for ResolvedUpstream {
    type V = UpstreamModel;

    open spec fn view(&self) -> UpstreamModel {
        UpstreamModel {
            addrs: self.addrs@,
            ech_config_list: opt_bytes(self.ech_config_list),
        }
    }
}

impl Clone for ResolvedUpstream {
    fn clone(&self) -> (r: Self)
        ensures
            r@ == self@,
    {
        let addrs = self.addrs.clone();
        assert(addrs@ =~= self.addrs@);
        let ech_config_list = match &self.ech_config_list {
            Some(list) => {
                let copy = list.clone();
                assert(copy@ =~= list@);
                Some(copy)
            },
            None => None,
        };
        ResolvedUpstream { addrs, ech_config_list }
    }
}

/// How long a resolved upstream is kept, in nanoseconds: five minutes.
pub const RESOLVE_CACHE_TTL: u64 = 300_000_000_000;

/// One entry of the cache.
#[derive(Debug)]
struct CacheEntry {
    host: String,
    port: u16,
    upstream: ResolvedUpstream,
    expires_at: u64,
}

/// A kept upstream and when it expires.
#[verifier::ext_equal]
pub struct CachedModel {
    pub upstream: UpstreamModel,
    pub expires_at: u64,
}

/// The resolved upstreams of hosts and ports, each until it expires.
#[derive(Debug)]
pub struct ResolveCache {
    entries: Vec<CacheEntry>,
}

spec fn key_of(entry: CacheEntry) -> (Seq<char>, u16) {
    (entry.host@, entry.port)
}

spec fn model_of(entry: CacheEntry) -> CachedModel {
    CachedModel { upstream: entry.upstream@, expires_at: entry.expires_at }
}

spec fn distinct_keys(entries: Seq<CacheEntry>) -> bool {
    forall|i: int, j: int|
        0 <= i < j < entries.len() ==> key_of(#[trigger] entries[i]) != key_of(
            #[trigger] entries[j],
        )
}

spec fn has_key(entries: Seq<CacheEntry>, key: (Seq<char>, u16)) -> bool {
    exists|i: int| 0 <= i < entries.len() && key_of(#[trigger] entries[i]) == key
}

spec fn find_key(entries: Seq<CacheEntry>, key: (Seq<char>, u16)) -> int {
    choose|i: int| 0 <= i < entries.len() && key_of(#[trigger] entries[i]) == key
}

spec fn entry_map(entries: Seq<CacheEntry>) -> Map<(Seq<char>, u16), CachedModel> {
    Map::new(
        |key: (Seq<char>, u16)| has_key(entries, key),
        |key: (Seq<char>, u16)| model_of(entries[find_key(entries, key)]),
    )
}

impl View for ResolveCache {
    type V = Map<(Seq<char>, u16), CachedModel>;

    closed spec fn view(&self) -> Map<(Seq<char>, u16), CachedModel> {
        entry_map(self.entries@)
    }
}

/// What the cache gives for a host and port at the time `now`.
pub open spec fn cached(
    cache: Map<(Seq<char>, u16), CachedModel>,
    host: Seq<char>,
    port: u16,
    now: u64,
) -> Option<UpstreamModel> {
    if cache.dom().contains((host, port)) && now < cache[(host, port)].expires_at {
        Some(cache[(host, port)].upstream)
    } else {
        None
    }
}

/// What is left of the cache at the time `now`.
pub open spec fn unexpired(cache: Map<(Seq<char>, u16), CachedModel>, now: u64) -> Map<
    (Seq<char>, u16),
    CachedModel,
> {
    Map::new(
        |key: (Seq<char>, u16)| cache.dom().contains(key) && now < cache[key].expires_at,
        |key: (Seq<char>, u16)| cache[key],
    )
}

/// The cache after an upstream was put into it at the time `now`: what had
/// expired is gone.
pub open spec fn stored(
    cache: Map<(Seq<char>, u16), CachedModel>,
    host: Seq<char>,
    port: u16,
    upstream: UpstreamModel,
    now: u64,
) -> Map<(Seq<char>, u16), CachedModel> {
    unexpired(cache, now).insert(
        (host, port),
        CachedModel { upstream, expires_at: (now + RESOLVE_CACHE_TTL) as u64 },
    )
}

impl ResolveCache {
    #[verifier::type_invariant]
    spec fn well_formed(self) -> bool {
        distinct_keys(self.entries@)
    }

    /// A cache that holds nothing.
    pub fn new() -> (r: ResolveCache)
        ensures
            r@ == Map::<(Seq<char>, u16), CachedModel>::empty(),
    {
        let r = ResolveCache { entries: Vec::new() };
        assert(r@ =~= Map::<(Seq<char>, u16), CachedModel>::empty());
        r
    }

    /// Reads what is kept for a host and port, unless it has expired.
    pub fn read_cached_upstream(&self, host: &str, port: u16, now: u64) -> (r: Option<
        ResolvedUpstream,
    >)
        ensures
            match r {
                Some(upstream) => cached(self@, host@, port, now) == Some(upstream@),
                None => cached(self@, host@, port, now) is None,
            },
    {
        proof {
            use_type_invariant(self);
        }
        let ghost all = self.entries@;
        let ghost key = (host@, port);
        for i in 0..self.entries.len()
            invariant
                all == self.entries@,
                distinct_keys(all),
                key == (host@, port),
                forall|j: int| 0 <= j < i ==> key_of(#[trigger] all[j]) != key,
        {
            let entry = &self.entries[i];
            if entry.port == port && same_text(entry.host.as_str(), host) {
                assert(key_of(all[i as int]) == key);
                assert(has_key(all, key) && find_key(all, key) == i);
                assert(self@.dom().contains(key) && self@[key] == model_of(all[i as int]));
                if now < entry.expires_at {
                    return Some(entry.upstream.clone());
                }
                return None;
            }
            assert(key_of(all[i as int]) != key);
        }
        assert(!has_key(all, key));
        None
    }

    /// Keeps an upstream for a host and port from `now` on, and drops
    /// everything that has expired.
    pub fn write_cached_upstream(
        &mut self,
        host: &str,
        port: u16,
        upstream: ResolvedUpstream,
        now: u64,
    )
        requires
            now + RESOLVE_CACHE_TTL <= u64::MAX,
        ensures
            final(self)@ == stored(old(self)@, host@, port, upstream@, now),
    {
        proof {
            use_type_invariant(&*self);
        }
        let mut before: Vec<CacheEntry> = Vec::new();
        std::mem::swap(&mut before, &mut self.entries);
        let ghost all = before@;
        let ghost key = (host@, port);
        let mut kept: Vec<CacheEntry> = Vec::new();
        while before.len() > 0
            invariant
                distinct_keys(all),
                key == (host@, port),
                before@.len() <= all.len(),
                before@ == all.take(before@.len() as int),
                distinct_keys(kept@),
                forall|k: (Seq<char>, u16)| #[trigger]
                    has_key(kept@, k) <==> {
                        &&& k != key
                        &&& exists|i: int|
                            before@.len() <= i < all.len() && key_of(#[trigger] all[i]) == k && now
                                < all[i].expires_at
                    },
                forall|j: int|
                    0 <= j < kept@.len() ==> exists|i: int|
                        before@.len() <= i < all.len() && #[trigger] kept@[j] == #[trigger] all[i],
            decreases before@.len(),
        {
            let ghost n = before@.len();
            let ghost previous = kept@;
            let entry = before.pop().unwrap();
            let ghost e = entry;
            assert(e == all[n - 1]);
            if now < entry.expires_at && !(entry.port == port && same_text(
                entry.host.as_str(),
                host,
            )) {
                kept.push(entry);
                proof {
                    assert(key_of(e) != key);
                    assert forall|i: int, j: int| 0 <= i < j < kept@.len() implies key_of(
                        #[trigger] kept@[i],
                    ) != key_of(#[trigger] kept@[j]) by {
                        if j == previous.len() {
                            assert(kept@[i] == previous[i]);
                            let m = choose|m: int| n <= m < all.len() && previous[i] == all[m];
                            assert(key_of(all[n - 1]) != key_of(all[m]));
                        }
                    }
                    assert forall|k: (Seq<char>, u16)| #[trigger] has_key(kept@, k) implies k != key
                        && (exists|i: int|
                        n - 1 <= i < all.len() && key_of(#[trigger] all[i]) == k && now
                            < all[i].expires_at) by {
                        let j = choose|j: int|
                            0 <= j < kept@.len() && key_of(#[trigger] kept@[j]) == k;
                        if j < previous.len() {
                            assert(previous[j] == kept@[j]);
                            assert(has_key(previous, k));
                        } else {
                            assert(key_of(all[n - 1]) == k);
                        }
                    }
                    assert forall|k: (Seq<char>, u16)|
                        k != key && (exists|i: int|
                            n - 1 <= i < all.len() && key_of(#[trigger] all[i]) == k && now
                                < all[i].expires_at) implies #[trigger] has_key(kept@, k) by {
                        let i = choose|i: int|
                            n - 1 <= i < all.len() && key_of(#[trigger] all[i]) == k && now
                                < all[i].expires_at;
                        if i == n - 1 {
                            assert(key_of(kept@[previous.len() as int]) == k);
                        } else {
                            assert(has_key(previous, k));
                            let j = choose|j: int|
                                0 <= j < previous.len() && key_of(#[trigger] previous[j]) == k;
                            assert(kept@[j] == previous[j]);
                        }
                    }
                    assert forall|j: int| 0 <= j < kept@.len() implies exists|i: int|
                        n - 1 <= i < all.len() && #[trigger] kept@[j] == #[trigger] all[i] by {
                        if j < previous.len() {
                            assert(kept@[j] == previous[j]);
                            let m = choose|m: int| n <= m < all.len() && previous[j] == all[m];
                            assert(kept@[j] == all[m]);
                        } else {
                            assert(kept@[j] == all[n - 1]);
                        }
                    }
                }
            } else {
                proof {
                    assert(!(key_of(e) != key && now < e.expires_at));
                    assert forall|k: (Seq<char>, u16)| #[trigger] has_key(kept@, k) <==> (k != key && (
                    exists|i: int|
                        n - 1 <= i < all.len() && key_of(#[trigger] all[i]) == k && now
                            < all[i].expires_at)) by {
                        if k != key && (exists|i: int|
                            n - 1 <= i < all.len() && key_of(#[trigger] all[i]) == k && now
                                < all[i].expires_at) {
                            let i = choose|i: int|
                                n - 1 <= i < all.len() && key_of(#[trigger] all[i]) == k && now
                                    < all[i].expires_at;
                            assert(i != n - 1);
                        }
                    }
                }
            }
        }
        let ghost middle = kept@;
        assert(!has_key(middle, key));
        let entry = CacheEntry {
            host: host.to_string(),
            port,
            upstream,
            expires_at: now + RESOLVE_CACHE_TTL,
        };
        let ghost e = entry;
        kept.push(entry);
        proof {
            assert forall|i: int, j: int| 0 <= i < j < kept@.len() implies key_of(
                #[trigger] kept@[i],
            ) != key_of(#[trigger] kept@[j]) by {
                if j == middle.len() {
                    assert(kept@[i] == middle[i]);
                    assert(has_key(middle, key_of(middle[i])));
                }
            }
            let was = entry_map(all);
            let is = entry_map(kept@);
            let goal = stored(was, host@, port, upstream@, now);
            assert forall|k: (Seq<char>, u16)| #![trigger is.dom().contains(k)]
                #![trigger goal.dom().contains(k)]
                is.dom().contains(k) == goal.dom().contains(k) && (is.dom().contains(k) ==> is[k]
                    == goal[k]) by {
                if k == key {
                    assert(key_of(kept@[middle.len() as int]) == key);
                    assert(has_key(kept@, key));
                    let f = find_key(kept@, key);
                    if f < middle.len() {
                        assert(key_of(kept@[f]) != key_of(kept@[middle.len() as int]));
                    }
                } else {
                    if has_key(kept@, k) {
                        let f = find_key(kept@, k);
                        assert(kept@[f] == middle[f]);
                        assert(has_key(middle, k));
                        let m = choose|m: int| 0 <= m < all.len() && middle[f] == all[m];
                        assert(key_of(all[m]) == k);
                        assert(has_key(all, k));
                        let i = choose|i: int|
                            0 <= i < all.len() && key_of(#[trigger] all[i]) == k && now
                                < all[i].expires_at;
                        assert(i == m);
                        assert(find_key(all, k) == m);
                    }
                    if goal.dom().contains(k) {
                        let g = find_key(all, k);
                        assert(key_of(all[g]) == k && now < all[g].expires_at);
                        assert(has_key(middle, k));
                        let j = choose|j: int|
                            0 <= j < middle.len() && key_of(#[trigger] middle[j]) == k;
                        assert(key_of(kept@[j]) == k);
                    }
                }
            }
            assert(is.dom() =~= goal.dom());
            assert(is =~= goal);
        }
        self.entries = kept;
    }
}

/// What was put into the cache is read back for five minutes, counted in
/// nanoseconds, and not any longer.
pub proof fn law_cache_returns_what_was_stored(
    cache: Map<(Seq<char>, u16), CachedModel>,
    host: Seq<char>,
    port: u16,
    upstream: UpstreamModel,
    now: u64,
    later: u64,
)
    requires
        now + 300_000_000_000 <= u64::MAX,
    ensures
        cached(stored(cache, host, port, upstream, now), host, port, later) == if later < now
            + 300_000_000_000 {
            Some(upstream)
        } else {
            None
        },
{
}

/// Putting an upstream into the cache leaves what is read for every other
/// host and port as it was, from then on.
pub proof fn law_cache_keeps_other_keys(
    cache: Map<(Seq<char>, u16), CachedModel>,
    host: Seq<char>,
    port: u16,
    upstream: UpstreamModel,
    now: u64,
    other_host: Seq<char>,
    other_port: u16,
    later: u64,
)
    requires
        now <= later,
        (other_host, other_port) != (host, port),
    ensures
        cached(stored(cache, host, port, upstream, now), other_host, other_port, later) == cached(
            cache,
            other_host,
            other_port,
            later,
        ),
{
}

/// What has expired is dropped once something else is put into the cache, and
/// only what was there before is still there beside it.
pub proof fn law_expired_is_dropped(
    cache: Map<(Seq<char>, u16), CachedModel>,
    host: Seq<char>,
    port: u16,
    upstream: UpstreamModel,
    now: u64,
    key: (Seq<char>, u16),
)
    requires
        key != (host, port),
    ensures
        stored(cache, host, port, upstream, now).dom().contains(key) <==> cache.dom().contains(key)
            && cache[key].expires_at > now,
        stored(cache, host, port, upstream, now).dom().contains(key) ==> stored(
            cache,
            host,
            port,
            upstream,
            now,
        )[key] == cache[key],
{
}

/// Nothing is read from an empty cache.
pub proof fn law_empty_cache(host: Seq<char>, port: u16, now: u64)
    ensures
        cached(Map::empty(), host, port, now) is None,
{
}

} // verus!
