use vstd::prelude::*;
use vstd::string::*;
use crate::config::{opt_view, GreeterConfig};
use crate::utils::paths::GREETER_NAME;
use crate::utils::text::{concat, path_join, path_join_spec};

verus! {

/// A user name or a session name, as characters.
pub type Text = Seq<char>;

/// One cache entry: a user name and the session that user last chose.
pub type Entry = (Text, Text);

/// How many users the session memory keeps before it forgets the least
/// recently used one.
pub const CACHE_LIMIT: usize = 100;

#[verifier::external_type_specification]
#[verifier::external_body]
#[verifier::reject_recursive_types(K)]
#[verifier::reject_recursive_types(V)]
#[verifier::reject_recursive_types(S)]
pub struct ExLruCache<K, V, S>(lru::LruCache<K, V, S>);

#[verifier::external_type_specification]
#[verifier::external_body]
pub struct ExLruDefaultHasher(lru::DefaultHasher);

/// What an `lru::LruCache<String, String>` holds, from the most recently
/// used entry to the least recently used one (the order of its `iter`).
pub uninterp spec fn lru_entries(c: lru::LruCache<String, String>) -> Seq<Entry>;

/// The capacity an `lru::LruCache<String, String>` was made with.
pub uninterp spec fn lru_capacity(c: lru::LruCache<String, String>) -> nat;

/// Index of the first entry whose key is `k`, or -1 when there is none.
pub open spec fn find_key(e: Seq<Entry>, k: Text) -> int
    decreases e.len(),
{
    if e.len() == 0 {
        -1
    } else if e[0].0 == k {
        0
    } else {
        let r = find_key(e.drop_first(), k);
        if r < 0 {
            -1
        } else {
            r + 1
        }
    }
}

/// Moves entry `i` to the most recently used position.
pub open spec fn touch(e: Seq<Entry>, i: int) -> Seq<Entry> {
    seq![e[i]] + e.remove(i)
}

/// The entries after `put(k, v)` on a cache of capacity `cap`: an existing
/// key is updated and moved to the front; a new key goes to the front, and
/// when the cache is full the least recently used entry (the last) leaves.
pub open spec fn put_entries(e: Seq<Entry>, cap: nat, k: Text, v: Text) -> Seq<Entry> {
    let i = find_key(e, k);
    if i >= 0 {
        seq![(k, v)] + e.remove(i)
    } else if e.len() == cap {
        seq![(k, v)] + e.drop_last()
    } else {
        seq![(k, v)] + e
    }
}

/// No key occurs twice.
pub open spec fn keys_distinct(e: Seq<Entry>) -> bool {
    forall|i: int, j: int| 0 <= i < j < e.len() ==> e[i].0 != e[j].0
}

/// The invariant every LRU cache keeps: a positive capacity, at most that
/// many entries, and each key at most once.
pub open spec fn lru_wf(e: Seq<Entry>, cap: nat) -> bool {
    &&& cap > 0
    &&& e.len() <= cap
    &&& keys_distinct(e)
}

/// The key-to-value mapping the entries describe.
pub open spec fn entries_map(e: Seq<Entry>) -> Map<Text, Text> {
    Map::new(|k: Text| find_key(e, k) >= 0, |k: Text| e[find_key(e, k)].1)
}

/// The entries after putting `items` in order into a cache that held `e`.
pub open spec fn put_all(e: Seq<Entry>, cap: nat, items: Seq<Entry>) -> Seq<Entry>
    decreases items.len(),
{
    if items.len() == 0 {
        e
    } else {
        let prev = put_all(e, cap, items.drop_last());
        put_entries(prev, cap, items.last().0, items.last().1)
    }
}

/// The view of a vector of string pairs.
pub open spec fn pairs_view(v: Seq<(String, String)>) -> Seq<Entry> {
    v.map_values(|p: (String, String)| (p.0@, p.1@))
}

/// `find_key` gives -1 or the index of the first entry with the key.
pub proof fn lemma_find_key(e: Seq<Entry>, k: Text)
    ensures
        -1 <= find_key(e, k) < e.len(),
        find_key(e, k) >= 0 ==> e[find_key(e, k)].0 == k,
        forall|j: int| 0 <= j < e.len() && (find_key(e, k) < 0 || j < find_key(e, k)) ==> e[j].0 != k,
    decreases e.len(),
{
    if e.len() > 0 && e[0].0 != k {
        lemma_find_key(e.drop_first(), k);
        assert forall|j: int| 0 <= j < e.len() && (find_key(e, k) < 0 || j < find_key(e, k)) implies e[j].0 != k by {
            if j > 0 {
                assert(e[j] == e.drop_first()[j - 1]);
            }
        }
    }
}

/// In a sequence whose keys are distinct, the entry found for a key is the
/// only one with that key.
pub proof fn lemma_find_key_distinct(e: Seq<Entry>, k: Text, i: int)
    requires
        keys_distinct(e),
        0 <= i < e.len(),
        e[i].0 == k,
    ensures
        find_key(e, k) == i,
{
    lemma_find_key(e, k);
}

/// Putting keeps the LRU invariant.
pub proof fn lemma_put_wf(e: Seq<Entry>, cap: nat, k: Text, v: Text)
    requires
        lru_wf(e, cap),
    ensures
        lru_wf(put_entries(e, cap, k, v), cap),
{
    lemma_find_key(e, k);
    let r = put_entries(e, cap, k, v);
    let i = find_key(e, k);
    assert forall|a: int, b: int| 0 <= a < b < r.len() implies r[a].0 != r[b].0 by {
        if i >= 0 {
            let rest = e.remove(i);
            if a == 0 {
                let bb = if b - 1 < i { b - 1 } else { b };
                assert(r[b] == e[bb]);
                if bb < i {
                } else {
                    assert(e[i].0 != e[bb].0);
                }
            } else {
                let aa = if a - 1 < i { a - 1 } else { a };
                let bb = if b - 1 < i { b - 1 } else { b };
                assert(r[a] == e[aa]);
                assert(r[b] == e[bb]);
            }
        } else if e.len() == cap {
            if a == 0 {
                assert(r[b] == e[b - 1]);
            } else {
                assert(r[a] == e[a - 1]);
                assert(r[b] == e[b - 1]);
            }
        } else {
            if a == 0 {
                assert(r[b] == e[b - 1]);
            } else {
                assert(r[a] == e[a - 1]);
                assert(r[b] == e[b - 1]);
            }
        }
    }
}

/// Moving an entry to the front keeps the LRU invariant and the mapping.
pub proof fn lemma_touch_wf(e: Seq<Entry>, cap: nat, i: int)
    requires
        lru_wf(e, cap),
        0 <= i < e.len(),
    ensures
        lru_wf(touch(e, i), cap),
        touch(e, i).len() == e.len(),
        touch(e, i)[0] == e[i],
{
    let r = touch(e, i);
    assert forall|a: int, b: int| 0 <= a < b < r.len() implies r[a].0 != r[b].0 by {
        let bb = if b - 1 < i { b - 1 } else { b };
        assert(r[b] == e[bb]);
        if a == 0 {
            assert(r[a] == e[i]);
        } else {
            let aa = if a - 1 < i { a - 1 } else { a };
            assert(r[a] == e[aa]);
        }
    }
}

/// Law (a read gives back what a write wrote): right after `put(k, v)` the
/// key `k` is the most recently used entry and maps to `v`.
pub proof fn lemma_put_then_find(e: Seq<Entry>, cap: nat, k: Text, v: Text)
    requires
        lru_wf(e, cap),
    ensures
        find_key(put_entries(e, cap, k, v), k) == 0,
        put_entries(e, cap, k, v)[0] == (k, v),
{
}

/// Law (what a put does to the mapping): the key gets the new value, and a
/// new key put into a full cache pushes out the least recently used key.
pub proof fn lemma_put_map(e: Seq<Entry>, cap: nat, k: Text, v: Text)
    requires
        lru_wf(e, cap),
    ensures
        entries_map(put_entries(e, cap, k, v)) == if find_key(e, k) >= 0 || e.len() < cap {
            entries_map(e).insert(k, v)
        } else {
            entries_map(e).remove(e.last().0).insert(k, v)
        },
{
    let r = put_entries(e, cap, k, v);
    lemma_put_wf(e, cap, k, v);
    lemma_find_key(e, k);
    let i = find_key(e, k);
    let target = if find_key(e, k) >= 0 || e.len() < cap {
        entries_map(e).insert(k, v)
    } else {
        entries_map(e).remove(e.last().0).insert(k, v)
    };
    assert forall|q: Text| #[trigger] entries_map(r).contains_key(q) <==> target.contains_key(q) by {
        lemma_find_key(r, q);
        lemma_find_key(e, q);
        if q == k {
            lemma_put_then_find(e, cap, k, v);
        } else {
            if entries_map(r).contains_key(q) {
                let j = find_key(r, q);
                assert(j > 0);
                let jj = if i >= 0 {
                    if j - 1 < i { j - 1 } else { j }
                } else {
                    j - 1
                };
                assert(r[j] == e[jj]);
                lemma_find_key_distinct(e, q, jj);
                if !(i >= 0 || e.len() < cap) {
                    assert(jj < e.len() - 1);
                    assert(e[jj].0 != e.last().0);
                }
            }
            if target.contains_key(q) {
                let jj = find_key(e, q);
                let j = if i >= 0 {
                    if jj < i { jj + 1 } else { jj }
                } else {
                    jj + 1
                };
                if i >= 0 {
                    assert(jj != i);
                    assert(r[j] == e[jj]);
                } else if e.len() == cap {
                    assert(jj != e.len() - 1);
                    assert(r[j] == e[jj]);
                } else {
                    assert(r[j] == e[jj]);
                }
                lemma_find_key_distinct(r, q, j);
            }
        }
    }
    assert forall|q: Text| #[trigger] entries_map(r).contains_key(q) implies entries_map(r)[q] == target[q] by {
        lemma_find_key(r, q);
        if q != k {
            let j = find_key(r, q);
            let jj = if i >= 0 {
                if j - 1 < i { j - 1 } else { j }
            } else {
                j - 1
            };
            assert(r[j] == e[jj]);
            lemma_find_key_distinct(e, q, jj);
        } else {
            lemma_put_then_find(e, cap, k, v);
        }
    }
    assert(entries_map(r) =~= target);
}

/// Law (a saved cache loaded back): putting the entries of a cache, in the
/// order they are listed (most recent first), into an empty cache of the
/// same capacity gives the same entries in reverse recency order.
pub proof fn lemma_put_all_reverses(items: Seq<Entry>, cap: nat)
    requires
        lru_wf(items, cap),
    ensures
        put_all(Seq::empty(), cap, items) == items.reverse(),
    decreases items.len(),
{
    if items.len() > 0 {
        let init = items.drop_last();
        assert(lru_wf(init, cap)) by {
            assert forall|a: int, b: int| 0 <= a < b < init.len() implies init[a].0 != init[b].0 by {
                assert(init[a] == items[a]);
                assert(init[b] == items[b]);
            }
        }
        lemma_put_all_reverses(init, cap);
        let prev = init.reverse();
        let k = items.last().0;
        lemma_find_key(prev, k);
        if find_key(prev, k) >= 0 {
            let j = find_key(prev, k);
            assert(prev[j] == init[init.len() - 1 - j]);
            assert(init[init.len() - 1 - j] == items[init.len() - 1 - j]);
            assert(false);
        }
        assert(seq![(k, items.last().1)] + prev =~= items.reverse());
    }
}

/// Law (a saved cache read back): writing the entries out (most recent
/// first) and reading them back into a cache of the same capacity keeps
/// every user's session, and reverses the recency order.
pub proof fn lemma_store_roundtrip(e: Seq<Entry>)
    requires
        lru_wf(e, CACHE_LIMIT as nat),
    ensures
        put_all(Seq::empty(), CACHE_LIMIT as nat, e) == e.reverse(),
        entries_map(put_all(Seq::empty(), CACHE_LIMIT as nat, e)) == entries_map(e),
{
    lemma_put_all_reverses(e, CACHE_LIMIT as nat);
    let r = e.reverse();
    let n = e.len() as int;
    assert(keys_distinct(r)) by {
        assert forall|a: int, b: int| 0 <= a < b < r.len() implies r[a].0 != r[b].0 by {
            assert(r[a] == e[n - 1 - a]);
            assert(r[b] == e[n - 1 - b]);
        }
    }
    assert forall|k: Text| #[trigger] entries_map(r).contains_key(k) <==> entries_map(e).contains_key(k) by {
        lemma_find_key(r, k);
        lemma_find_key(e, k);
        if find_key(r, k) >= 0 {
            let j = find_key(r, k);
            assert(r[j] == e[n - 1 - j]);
            lemma_find_key_distinct(e, k, n - 1 - j);
        }
        if find_key(e, k) >= 0 {
            let j = find_key(e, k);
            assert(r[n - 1 - j] == e[j]);
            lemma_find_key_distinct(r, k, n - 1 - j);
        }
    }
    assert forall|k: Text| #[trigger] entries_map(r).contains_key(k) implies entries_map(r)[k] == entries_map(e)[k] by {
        lemma_find_key(r, k);
        let j = find_key(r, k);
        assert(r[j] == e[n - 1 - j]);
        lemma_find_key_distinct(e, k, n - 1 - j);
    }
    assert(entries_map(r) =~= entries_map(e));
}

/// Building `put_all` one item at a time.
pub proof fn lemma_put_all_step(e: Seq<Entry>, cap: nat, items: Seq<Entry>, i: int)
    requires
        0 <= i < items.len(),
    ensures
        put_all(e, cap, items.take(i + 1)) == put_entries(
            put_all(e, cap, items.take(i)),
            cap,
            items[i].0,
            items[i].1,
        ),
{
    assert(items.take(i + 1).drop_last() =~= items.take(i));
}

/// `put_all` keeps the LRU invariant.
pub proof fn lemma_put_all_wf(e: Seq<Entry>, cap: nat, items: Seq<Entry>)
    requires
        lru_wf(e, cap),
    ensures
        lru_wf(put_all(e, cap, items), cap),
    decreases items.len(),
{
    if items.len() > 0 {
        lemma_put_all_wf(e, cap, items.drop_last());
        lemma_put_wf(put_all(e, cap, items.drop_last()), cap, items.last().0, items.last().1);
    }
}

/// Makes an empty `lru::LruCache` (`LruCache::new`) with room for `cap`
/// entries; the caller guarantees `cap` is not zero, as `NonZeroUsize` needs.
#[verifier::external_body]
fn lru_new(cap: usize) -> (c: lru::LruCache<String, String>)
    requires
        cap > 0,
    ensures
        lru_entries(c) == Seq::<Entry>::empty(),
        lru_capacity(c) == cap,
{
    lru::LruCache::new(std::num::NonZeroUsize::new(cap).unwrap())
}

/// `LruCache::put`: updates or inserts `k` at the most recently used
/// position, evicting the least recently used entry of a full cache, and
/// returns the value `k` had before, if any. The source has no path that
/// panics (it only unwraps the removal of an entry it knows is present).
#[verifier::external_body]
fn lru_put(c: &mut lru::LruCache<String, String>, k: String, v: String) -> (r: Option<String>)
    ensures
        lru_capacity(*final(c)) == lru_capacity(*old(c)),
        lru_entries(*final(c)) == put_entries(lru_entries(*old(c)), lru_capacity(*old(c)), k@, v@),
        find_key(lru_entries(*old(c)), k@) >= 0 ==> r is Some && r->0@ == lru_entries(*old(c))[find_key(lru_entries(*old(c)), k@)].1,
        find_key(lru_entries(*old(c)), k@) < 0 ==> r is None,
    no_unwind
{
    c.put(k, v)
}

/// `LruCache::get`: the value of `k`, moving its entry to the most recently
/// used position; `None` and no change when `k` is absent. The source has no
/// path that panics.
#[verifier::external_body]
fn lru_get<'a>(c: &'a mut lru::LruCache<String, String>, k: &String) -> (r: Option<&'a String>)
    ensures
        lru_capacity(*final(c)) == lru_capacity(*old(c)),
        find_key(lru_entries(*old(c)), k@) >= 0 ==> {
            &&& r is Some
            &&& r->0@ == lru_entries(*old(c))[find_key(lru_entries(*old(c)), k@)].1
            &&& lru_entries(*final(c)) == touch(lru_entries(*old(c)), find_key(lru_entries(*old(c)), k@))
        },
        find_key(lru_entries(*old(c)), k@) < 0 ==> r is None && lru_entries(*final(c)) == lru_entries(*old(c)),
    no_unwind
{
    c.get(k)
}

/// `LruCache::len`: the number of entries.
#[verifier::external_body]
fn lru_len(c: &lru::LruCache<String, String>) -> (r: usize)
    ensures
        r == lru_entries(*c).len(),
{
    c.len()
}

/// `LruCache::iter`: the entries from most to least recently used, each
/// key and value copied out.
#[verifier::external_body]
fn lru_iter(c: &lru::LruCache<String, String>) -> (r: Vec<(String, String)>)
    ensures
        pairs_view(r@) == lru_entries(*c),
{
    c.iter().map(|(k, v)| (k.clone(), v.clone())).collect()
}

/// A least-recently-used map from user names to session names, holding at
/// most its capacity of entries.
pub struct LruWrapper(lru::LruCache<String, String>);

impl View for LruWrapper {
    type V = Seq<Entry>;

    /// The entries from the most recently used to the least recently used.
    closed spec fn view(&self) -> Seq<Entry> {
        lru_entries(self.0)
    }
}

impl LruWrapper {
    #[verifier::type_invariant]
    closed spec fn wf(self) -> bool {
        lru_wf(lru_entries(self.0), lru_capacity(self.0))
    }

    /// The capacity the map was made with.
    pub closed spec fn cap(&self) -> nat {
        lru_capacity(self.0)
    }

    /// An empty map that holds at most `capacity` entries.
    pub fn new(capacity: usize) -> (r: Self)
        requires
            capacity > 0,
        ensures
            r@ == Seq::<Entry>::empty(),
            r.cap() == capacity,
            lru_wf(r@, r.cap()),
    {
        LruWrapper(lru_new(capacity))
    }

    /// Maps `key` to `value` and makes it the most recently used entry.
    pub fn put(&mut self, key: String, value: String)
        ensures
            final(self).cap() == old(self).cap(),
            final(self)@ == put_entries(old(self)@, old(self).cap(), key@, value@),
            lru_wf(old(self)@, old(self).cap()),
            lru_wf(final(self)@, final(self).cap()),
    {
        proof {
            use_type_invariant(&*self);
            lemma_put_wf(lru_entries(self.0), lru_capacity(self.0), key@, value@);
        }
        let _ = lru_put(&mut self.0, key, value);
    }

    /// The value of `key`, which becomes the most recently used entry.
    pub fn get(&mut self, key: &String) -> (r: Option<&String>)
        ensures
            final(self).cap() == old(self).cap(),
            find_key(old(self)@, key@) >= 0 ==> {
                &&& r is Some
                &&& r->0@ == old(self)@[find_key(old(self)@, key@)].1
                &&& final(self)@ == touch(old(self)@, find_key(old(self)@, key@))
            },
            find_key(old(self)@, key@) < 0 ==> r is None && final(self)@ == old(self)@,
            lru_wf(old(self)@, old(self).cap()),
            lru_wf(final(self)@, final(self).cap()),
    {
        proof {
            use_type_invariant(&*self);
            lemma_find_key(lru_entries(self.0), key@);
            if find_key(lru_entries(self.0), key@) >= 0 {
                lemma_touch_wf(lru_entries(self.0), lru_capacity(self.0), find_key(lru_entries(self.0), key@));
            }
        }
        lru_get(&mut self.0, key)
    }

    /// The number of entries.
    pub fn len(&self) -> (r: usize)
        ensures
            r == self@.len(),
    {
        lru_len(&self.0)
    }

    /// The entries from the most recently used to the least recently used:
    /// the order in which they are written out.
    pub fn entries(&self) -> (r: Vec<(String, String)>)
        ensures
            pairs_view(r@) == self@,
    {
        lru_iter(&self.0)
    }

    /// A map of capacity `CACHE_LIMIT` built by putting `items` in order:
    /// the way a stored map is read back.
    pub fn from_entries(items: Vec<(String, String)>) -> (r: Self)
        ensures
            r.cap() == CACHE_LIMIT,
            lru_wf(r@, r.cap()),
            r@ == put_all(Seq::empty(), CACHE_LIMIT as nat, pairs_view(items@)),
    {
        let mut lru = LruWrapper::new(CACHE_LIMIT);
        let n = items.len();
        let mut i: usize = 0;
        while i < n
            invariant
                n == items.len(),
                0 <= i <= n,
                lru.cap() == CACHE_LIMIT,
                lru_wf(lru@, lru.cap()),
                lru@ == put_all(Seq::empty(), CACHE_LIMIT as nat, pairs_view(items@).take(i as int)),
            decreases n - i,
        {
            let k = items[i].0.clone();
            let v = items[i].1.clone();
            lru.put(k, v);
            proof {
                lemma_put_all_step(Seq::empty(), CACHE_LIMIT as nat, pairs_view(items@), i as int);
            }
            i += 1;
        }
        assert(pairs_view(items@).take(n as int) =~= pairs_view(items@));
        lru
    }
}

/// Returns the base directory for all cache files (state, images, etc.):
/// the configured one, else `/var/cache/mdgreet`.
pub fn get_cache_dir(config: &GreeterConfig) -> (r: String)
    ensures
        r@ == match opt_view(config.cache.path) {
            Some(p) => p,
            None => "/var/cache/mdgreet"@,
        },
{
    match &config.cache.path {
        Some(p) => p.clone(),
        None => {
            let r = concat("/var/cache/", GREETER_NAME);
            proof {
                reveal_strlit("mdgreet");
                reveal_strlit("/var/cache/");
                reveal_strlit("/var/cache/mdgreet");
                assert(r@ =~= "/var/cache/mdgreet"@);
            }
            r
        },
    }
}

/// The cache directory of a configuration, as a spec.
pub open spec fn cache_dir_spec(config: GreeterConfig) -> Seq<char> {
    match opt_view(config.cache.path) {
        Some(p) => p,
        None => "/var/cache/mdgreet"@,
    }
}

/// The login state remembered between runs of the greeter.
pub struct Cache {
    /// The last user who logged in
    pub last_user: Option<String>,
    /// Maps username to their last used session (compositor name) using LRU
    pub user_to_last_sess: LruWrapper,
    /// Where the state is stored; empty when it is not stored.
    pub path: String,
}

impl Default for Cache {
    fn default() -> (r: Self)
        ensures
            r.last_user is None,
            r.user_to_last_sess@ == Seq::<Entry>::empty(),
            r.user_to_last_sess.cap() == CACHE_LIMIT,
            r.path_view() == Seq::<char>::empty(),
    {
        Cache {
            last_user: None,
            user_to_last_sess: LruWrapper::new(CACHE_LIMIT),
            path: String::new(),
        }
    }
}

impl Cache {
    /// Where the state is stored; empty when it is not stored.
    pub open spec fn path_view(&self) -> Seq<char> {
        self.path@
    }

    /// Where the state is stored; empty when it is not stored.
    pub fn path(&self) -> (r: &String)
        ensures
            r@ == self.path_view(),
    {
        &self.path
    }

    /// A state read back from storage; like every state that was read
    /// back, it does not know where it is stored yet.
    pub fn restored(last_user: Option<String>, user_to_last_sess: LruWrapper) -> (r: Self)
        ensures
            r.last_user == last_user,
            r.user_to_last_sess == user_to_last_sess,
            r.path_view() == Seq::<char>::empty(),
    {
        Cache { last_user, user_to_last_sess, path: String::new() }
    }

    /// The file the state of `config` is stored in: `state.toml` in the
    /// cache directory.
    pub fn state_path(config: &GreeterConfig) -> (r: String)
        ensures
            r@ == path_join_spec(cache_dir_spec(*config), "state.toml"@),
    {
        let dir = get_cache_dir(config);
        path_join(dir.as_str(), "state.toml")
    }

    /// The state to start with: the stored one when it could be read and
    /// parsed, else an empty one; either way it is stored in
    /// `state_path(config)` from now on.
    pub fn load(config: &GreeterConfig, stored: Option<Cache>) -> (r: Self)
        ensures
            r.path_view() == path_join_spec(cache_dir_spec(*config), "state.toml"@),
            match stored {
                Some(c) => r.last_user == c.last_user && r.user_to_last_sess == c.user_to_last_sess,
                None => r.last_user is None && r.user_to_last_sess@ == Seq::<Entry>::empty()
                    && r.user_to_last_sess.cap() == CACHE_LIMIT,
            },
    {
        let mut cache = match stored {
            Some(c) => c,
            None => Cache::default(),
        };
        cache.path = Cache::state_path(config);
        cache
    }

    /// Remembers `user` as the last user who logged in.
    pub fn set_last_user(&mut self, user: String)
        ensures
            final(self).last_user == Some(user),
            final(self).user_to_last_sess == old(self).user_to_last_sess,
            final(self).path_view() == old(self).path_view(),
    {
        self.last_user = Some(user);
    }

    /// Remembers `session` as the last session of `user`.
    pub fn set_last_session(&mut self, user: String, session: String)
        ensures
            final(self).last_user == old(self).last_user,
            final(self).path_view() == old(self).path_view(),
            final(self).user_to_last_sess.cap() == old(self).user_to_last_sess.cap(),
            final(self).user_to_last_sess@ == put_entries(
                old(self).user_to_last_sess@,
                old(self).user_to_last_sess.cap(),
                user@,
                session@,
            ),
            lru_wf(final(self).user_to_last_sess@, final(self).user_to_last_sess.cap()),
    {
        self.user_to_last_sess.put(user, session);
    }

    /// The last session of `user`, if remembered; `user` becomes the most
    /// recently used entry.
    pub fn get_last_session(&mut self, user: &str) -> (r: Option<&String>)
        ensures
            final(self).last_user == old(self).last_user,
            final(self).path_view() == old(self).path_view(),
            final(self).user_to_last_sess.cap() == old(self).user_to_last_sess.cap(),
            lru_wf(final(self).user_to_last_sess@, final(self).user_to_last_sess.cap()),
            find_key(old(self).user_to_last_sess@, user@) >= 0 ==> {
                &&& r is Some
                &&& r->0@ == old(self).user_to_last_sess@[find_key(old(self).user_to_last_sess@, user@)].1
                &&& final(self).user_to_last_sess@ == touch(
                    old(self).user_to_last_sess@,
                    find_key(old(self).user_to_last_sess@, user@),
                )
            },
            find_key(old(self).user_to_last_sess@, user@) < 0 ==> r is None
                && final(self).user_to_last_sess@ == old(self).user_to_last_sess@,
    {
        let key = String::from_str(user);
        self.user_to_last_sess.get(&key)
    }
}

} // verus!
