//! A bounded least-recently-used cache from prompt text to completion text.
use lru::LruCache;
use vstd::prelude::*;

verus! {

/// Number of prompts the cache remembers.
pub const CACHE_SIZE: usize = 100;

/// `lru::LruCache`, opaque: what it holds is named by `lru_entries` and `lru_capacity`.
#[verifier::external_type_specification]
#[verifier::external_body]
#[verifier::reject_recursive_types(K)]
#[verifier::reject_recursive_types(V)]
#[verifier::reject_recursive_types(S)]
pub struct ExLruCache<K, V, S>(LruCache<K, V, S>);

/// The hasher `LruCache` uses by default, carried through opaque.
#[verifier::external_type_specification]
#[verifier::external_body]
pub struct ExDefaultHasher(lru::DefaultHasher);

/// The entries of an `LruCache` of strings, ordered from least to most recently used.
pub uninterp spec fn lru_entries(c: LruCache<String, String>) -> Seq<(Seq<char>, Seq<char>)>;

/// The number of entries an `LruCache` was created to hold.
pub uninterp spec fn lru_capacity(c: LruCache<String, String>) -> nat;

/// `s` holds an entry for key `k`.
pub open spec fn has_key(s: Seq<(Seq<char>, Seq<char>)>, k: Seq<char>) -> bool {
    exists|i: int| 0 <= i < s.len() && s[i].0 == k
}

/// The position of the entry for `k` (meaningful when `has_key(s, k)`).
pub open spec fn key_index(s: Seq<(Seq<char>, Seq<char>)>, k: Seq<char>) -> int {
    choose|i: int| 0 <= i < s.len() && s[i].0 == k
}

/// No key occurs in two entries.
pub open spec fn keys_distinct(s: Seq<(Seq<char>, Seq<char>)>) -> bool {
    forall|i: int, j: int| 0 <= i < j < s.len() ==> s[i].0 != s[j].0
}

/// The value stored for `k`, if any.
pub open spec fn lookup(s: Seq<(Seq<char>, Seq<char>)>, k: Seq<char>) -> Option<Seq<char>> {
    if has_key(s, k) {
        Some(s[key_index(s, k)].1)
    } else {
        None
    }
}

/// The entries after storing `v` under `k` in a cache of capacity `cap`: the entry
/// for `k` becomes the most recently used one; a new key in a full cache first
/// evicts the least recently used entry.
pub open spec fn after_put(
    s: Seq<(Seq<char>, Seq<char>)>,
    cap: nat,
    k: Seq<char>,
    v: Seq<char>,
) -> Seq<(Seq<char>, Seq<char>)> {
    if has_key(s, k) {
        s.remove(key_index(s, k)).push((k, v))
    } else if s.len() == cap {
        s.drop_first().push((k, v))
    } else {
        s.push((k, v))
    }
}

/// The entries after reading `k`: a present entry becomes the most recently used one.
pub open spec fn after_get(s: Seq<(Seq<char>, Seq<char>)>, k: Seq<char>) -> Seq<(Seq<char>, Seq<char>)> {
    if has_key(s, k) {
        let i = key_index(s, k);
        s.remove(i).push(s[i])
    } else {
        s
    }
}

/// Entries that a cache of capacity `cap` can hold.
pub open spec fn entries_wf(s: Seq<(Seq<char>, Seq<char>)>, cap: nat) -> bool {
    keys_distinct(s) && s.len() <= cap && cap > 0
}

/// The text held by an optional string.
pub open spec fn opt_view(r: Option<String>) -> Option<Seq<char>> {
    match r {
        Some(v) => Some(v@),
        None => None,
    }
}

/// Relies on `LruCache::new`: an empty cache that holds at most `cap` entries.
#[verifier::external_body]
fn lru_new(cap: usize) -> (c: LruCache<String, String>)
    requires
        cap > 0,
    ensures
        lru_entries(c) == Seq::<(Seq<char>, Seq<char>)>::empty(),
        lru_capacity(c) == cap,
{
    LruCache::new(std::num::NonZeroUsize::new(cap).unwrap())
}

/// Relies on `LruCache::put`: an existing entry for the key is updated and moved to
/// the most recently used end; a new key is added there, after the least recently
/// used entry is evicted when the cache is full.
#[verifier::external_body]
fn lru_put(c: &mut LruCache<String, String>, k: String, v: String)
    ensures
        lru_entries(*final(c)) == after_put(lru_entries(*old(c)), lru_capacity(*old(c)), k@, v@),
        lru_capacity(*final(c)) == lru_capacity(*old(c)),
{
    c.put(k, v);
}

/// Relies on `LruCache::get`: the value stored for the key, whose entry then becomes
/// the most recently used one; `None`, with nothing moved, for an absent key.
#[verifier::external_body]
fn lru_get(c: &mut LruCache<String, String>, k: &str) -> (r: Option<String>)
    ensures
        opt_view(r) == lookup(lru_entries(*old(c)), k@),
        lru_entries(*final(c)) == after_get(lru_entries(*old(c)), k@),
        lru_capacity(*final(c)) == lru_capacity(*old(c)),
{
    c.get(k).cloned()
}

/// The prompts seen so far and their completions, at most `CACHE_SIZE` of them.
pub struct CodeCache {
    cache: LruCache<String, String>,
}

impl View for CodeCache {
    type V = Seq<(Seq<char>, Seq<char>)>;

    closed spec fn view(&self) -> Self::V {
        lru_entries(self.cache)
    }
}

impl CodeCache {
    /// The number of entries the cache holds at most.
    pub closed spec fn capacity(&self) -> nat {
        lru_capacity(self.cache)
    }

    pub open spec fn wf(&self) -> bool {
        entries_wf(self@, self.capacity()) && self.capacity() == CACHE_SIZE
    }

    /// An empty cache of `CACHE_SIZE` entries.
    pub fn new() -> (r: Self)
        ensures
            r.wf(),
            r@ == Seq::<(Seq<char>, Seq<char>)>::empty(),
    {
        CodeCache { cache: lru_new(CACHE_SIZE) }
    }

    /// Stores `code` as the completion of `prompt`, as the most recently used entry.
    pub fn put(&mut self, prompt: String, code: String)
        requires
            old(self).wf(),
        ensures
            final(self).wf(),
            final(self)@ == after_put(old(self)@, CACHE_SIZE as nat, prompt@, code@),
    {
        proof {
            lemma_after_put_wf(self@, self.capacity(), prompt@, code@);
        }
        lru_put(&mut self.cache, prompt, code);
    }

    /// The completion stored for `prompt`, if any; a hit becomes the most recently used entry.
    pub fn get(&mut self, prompt: &str) -> (r: Option<String>)
        requires
            old(self).wf(),
        ensures
            final(self).wf(),
            opt_view(r) == lookup(old(self)@, prompt@),
            final(self)@ == after_get(old(self)@, prompt@),
    {
        proof {
            lemma_after_get_wf(self@, self.capacity(), prompt@);
        }
        lru_get(&mut self.cache, prompt)
    }
}

/// In entries with distinct keys, the entry at `p` is the one found for its key.
pub proof fn lemma_key_index_unique(s: Seq<(Seq<char>, Seq<char>)>, p: int)
    requires
        keys_distinct(s),
        0 <= p < s.len(),
    ensures
        has_key(s, s[p].0),
        key_index(s, s[p].0) == p,
{
    let k = s[p].0;
    assert(0 <= p < s.len() && s[p].0 == k);
    let i = key_index(s, k);
    if i != p {
        if i < p {
            assert(s[i].0 != s[p].0);
        } else {
            assert(s[p].0 != s[i].0);
        }
    }
}

/// Storing an entry keeps the entries within what the cache can hold.
pub proof fn lemma_after_put_wf(s: Seq<(Seq<char>, Seq<char>)>, cap: nat, k: Seq<char>, v: Seq<char>)
    requires
        entries_wf(s, cap),
    ensures
        entries_wf(after_put(s, cap, k, v), cap),
{
    let t = after_put(s, cap, k, v);
    if has_key(s, k) {
        let i = key_index(s, k);
        assert forall|a: int, b: int| 0 <= a < b < t.len() implies t[a].0 != t[b].0 by {
            if b == t.len() - 1 {
                let sa = if a < i { a } else { a + 1 };
                assert(t[a] == s[sa]);
                assert(s[i].0 == k);
            } else {
                let sa = if a < i { a } else { a + 1 };
                let sb = if b < i { b } else { b + 1 };
                assert(t[a] == s[sa]);
                assert(t[b] == s[sb]);
            }
        }
    } else {
        let r = if s.len() == cap { s.drop_first() } else { s };
        assert(t == r.push((k, v)));
        assert forall|a: int, b: int| 0 <= a < b < t.len() implies t[a].0 != t[b].0 by {
            if b == t.len() - 1 {
                let sa = if s.len() == cap { a + 1 } else { a };
                assert(t[a] == s[sa]);
            } else {
                let sa = if s.len() == cap { a + 1 } else { a };
                let sb = if s.len() == cap { b + 1 } else { b };
                assert(t[a] == s[sa]);
                assert(t[b] == s[sb]);
            }
        }
    }
}

/// Reading an entry keeps the entries within what the cache can hold.
pub proof fn lemma_after_get_wf(s: Seq<(Seq<char>, Seq<char>)>, cap: nat, k: Seq<char>)
    requires
        entries_wf(s, cap),
    ensures
        entries_wf(after_get(s, k), cap),
{
    if has_key(s, k) {
        let i = key_index(s, k);
        assert(after_get(s, k) == after_put(s, cap, k, s[i].1));
        lemma_after_put_wf(s, cap, k, s[i].1);
    }
}

/// The entries after storing each `(key, value)` of `puts` in turn.
pub open spec fn after_puts(
    s: Seq<(Seq<char>, Seq<char>)>,
    cap: nat,
    puts: Seq<(Seq<char>, Seq<char>)>,
) -> Seq<(Seq<char>, Seq<char>)>
    decreases puts.len(),
{
    if puts.len() == 0 {
        s
    } else {
        after_put(after_puts(s, cap, puts.drop_last()), cap, puts.last().0, puts.last().1)
    }
}

/// Reading a key right after storing a value under it gives that value.
pub proof fn lemma_get_after_put(s: Seq<(Seq<char>, Seq<char>)>, cap: nat, k: Seq<char>, v: Seq<char>)
    requires
        entries_wf(s, cap),
    ensures
        lookup(after_put(s, cap, k, v), k) == Some(v),
{
    let t = after_put(s, cap, k, v);
    lemma_after_put_wf(s, cap, k, v);
    lemma_key_index_unique(t, t.len() - 1);
}

/// Reading a key that has no entry gives nothing and moves no entry.
pub proof fn lemma_get_absent(s: Seq<(Seq<char>, Seq<char>)>, k: Seq<char>)
    requires
        !has_key(s, k),
    ensures
        lookup(s, k) == None::<Seq<char>>,
        after_get(s, k) == s,
{
}

/// After storing the first `m` of `puts` (distinct keys), the first key, while
/// still present, is followed by at least `m - 1` entries, all keys of `puts`.
proof fn lemma_puts_follow_first(
    s: Seq<(Seq<char>, Seq<char>)>,
    cap: nat,
    puts: Seq<(Seq<char>, Seq<char>)>,
    m: int,
)
    requires
        entries_wf(s, cap),
        keys_distinct(puts),
        1 <= m <= puts.len(),
    ensures
        entries_wf(after_puts(s, cap, puts.subrange(0, m)), cap),
        forall|p: int|
            #![trigger after_puts(s, cap, puts.subrange(0, m))[p]]
            0 <= p < after_puts(s, cap, puts.subrange(0, m)).len() && after_puts(
                s,
                cap,
                puts.subrange(0, m),
            )[p].0 == puts[0].0 ==> {
                let t = after_puts(s, cap, puts.subrange(0, m));
                &&& t.len() - 1 - p >= m - 1
                &&& forall|q: int|
                    #![trigger t[q]]
                    p < q < t.len() ==> exists|j: int| 1 <= j < m && t[q].0 == puts[j].0
            },
    decreases m,
{
    let pre = puts.subrange(0, m);
    let km = puts[m - 1].0;
    let vm = puts[m - 1].1;
    assert(pre.drop_last() =~= puts.subrange(0, m - 1));
    assert(pre.last() == puts[m - 1]);
    let t0 = after_puts(s, cap, puts.subrange(0, m - 1));
    let t = after_puts(s, cap, pre);
    assert(t == after_put(t0, cap, km, vm));
    if m == 1 {
        assert(puts.subrange(0, 0) =~= Seq::<(Seq<char>, Seq<char>)>::empty());
        assert(t0 == s);
        lemma_after_put_wf(s, cap, km, vm);
        lemma_key_index_unique(t, t.len() - 1);
        assert forall|p: int|
            #![trigger t[p]]
            0 <= p < t.len() && t[p].0 == puts[0].0 implies t.len() - 1 - p >= 0 && (forall|q: int|
                #![trigger t[q]]
                p < q < t.len() ==> exists|j: int| 1 <= j < m && t[q].0 == puts[j].0) by {
            lemma_key_index_unique(t, p);
        }
    } else {
        lemma_puts_follow_first(s, cap, puts, m - 1);
        lemma_after_put_wf(t0, cap, km, vm);
        assert(km != puts[0].0);
        assert forall|j: int| 1 <= j < m - 1 implies puts[j].0 != km by {}
        assert forall|p: int|
            #![trigger t[p]]
            0 <= p < t.len() && t[p].0 == puts[0].0 implies t.len() - 1 - p >= m - 1 && (forall|
                q: int,
            |
                #![trigger t[q]]
                p < q < t.len() ==> exists|j: int| 1 <= j < m && t[q].0 == puts[j].0) by {
            assert(p < t.len() - 1);
            if has_key(t0, km) {
                let i = key_index(t0, km);
                let p0 = if p < i { p } else { p + 1 };
                assert(t[p] == t0[p0]);
                if p0 < i {
                    assert(t0[i].0 == km);
                    assert(exists|j: int| 1 <= j < m - 1 && t0[i].0 == puts[j].0);
                }
                assert(p0 > i);
                assert forall|q: int|
                    #![trigger t[q]]
                    p < q < t.len() implies exists|j: int| 1 <= j < m && t[q].0 == puts[j].0 by {
                    if q == t.len() - 1 {
                        assert(t[q].0 == puts[m - 1].0);
                    } else {
                        assert(t[q] == t0[q + 1]);
                        let j = choose|j: int| 1 <= j < m - 1 && t0[q + 1].0 == puts[j].0;
                        assert(t[q].0 == puts[j].0);
                    }
                }
            } else if t0.len() == cap {
                let p0 = p + 1;
                assert(t[p] == t0[p0]);
                assert forall|q: int|
                    #![trigger t[q]]
                    p < q < t.len() implies exists|j: int| 1 <= j < m && t[q].0 == puts[j].0 by {
                    if q == t.len() - 1 {
                        assert(t[q].0 == puts[m - 1].0);
                    } else {
                        assert(t[q] == t0[q + 1]);
                        let j = choose|j: int| 1 <= j < m - 1 && t0[q + 1].0 == puts[j].0;
                        assert(t[q].0 == puts[j].0);
                    }
                }
            } else {
                assert(t[p] == t0[p]);
                assert forall|q: int|
                    #![trigger t[q]]
                    p < q < t.len() implies exists|j: int| 1 <= j < m && t[q].0 == puts[j].0 by {
                    if q == t.len() - 1 {
                        assert(t[q].0 == puts[m - 1].0);
                    } else {
                        assert(t[q] == t0[q]);
                        let j = choose|j: int| 1 <= j < m - 1 && t0[q].0 == puts[j].0;
                        assert(t[q].0 == puts[j].0);
                    }
                }
            }
        }
    }
}

/// Storing `cap + 1` distinct keys in turn, with no read in between, leaves no
/// entry for the first of them: it has been evicted.
pub proof fn lemma_distinct_puts_evict_first(
    s: Seq<(Seq<char>, Seq<char>)>,
    cap: nat,
    puts: Seq<(Seq<char>, Seq<char>)>,
)
    requires
        entries_wf(s, cap),
        keys_distinct(puts),
        puts.len() == cap + 1,
    ensures
        !has_key(after_puts(s, cap, puts), puts[0].0),
{
    lemma_puts_follow_first(s, cap, puts, puts.len() as int);
    assert(puts.subrange(0, puts.len() as int) =~= puts);
    let t = after_puts(s, cap, puts);
    if has_key(t, puts[0].0) {
        let p = key_index(t, puts[0].0);
        assert(t[p].0 == puts[0].0);
    }
}

/// Reading the least recently used key of a full cache protects it: the next new
/// key evicts the entry that followed it instead.
pub proof fn lemma_get_protects_from_eviction(
    s: Seq<(Seq<char>, Seq<char>)>,
    cap: nat,
    k: Seq<char>,
    v: Seq<char>,
)
    requires
        entries_wf(s, cap),
        s.len() == cap,
        cap >= 2,
        !has_key(s, k),
    ensures
        has_key(after_put(after_get(s, s[0].0), cap, k, v), s[0].0),
        !has_key(after_put(after_get(s, s[0].0), cap, k, v), s[1].0),
{
    lemma_key_index_unique(s, 0);
    let g = after_get(s, s[0].0);
    assert(g =~= s.drop_first().push(s[0]));
    if has_key(g, k) {
        let i = choose|i: int| 0 <= i < g.len() && g[i].0 == k;
        if i < g.len() - 1 {
            assert(g[i] == s[i + 1]);
        }
    }
    let t = after_put(g, cap, k, v);
    assert(t =~= g.drop_first().push((k, v)));
    assert(t[cap - 2] == s[0]);
    if has_key(t, s[1].0) {
        let i = choose|i: int| 0 <= i < t.len() && t[i].0 == s[1].0;
        if i < cap - 2 {
            assert(t[i] == s[i + 2]);
        }
    }
}

} // verus!
