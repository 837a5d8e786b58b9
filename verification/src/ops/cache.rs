//! The store of encoded response bodies: entries keyed by content fingerprint
//! and encoding name, with a running total of their sizes and a last-access
//! time on each.

use vstd::prelude::*;

verus! {

/// What identifies one encoded artifact: the fingerprint of the unencoded
/// content, and the name of the encoding.
pub struct CacheKey {
    pub fingerprint: Vec<u8>,
    pub encoding: String,
}

impl View for CacheKey {
    type V = (Seq<u8>, Seq<char>);

    open spec fn view(&self) -> (Seq<u8>, Seq<char>) {
        (self.fingerprint@, self.encoding@)
    }
}

/// Whether two byte vectors hold the same bytes.
pub fn bytes_same(a: &Vec<u8>, b: &Vec<u8>) -> (r: bool)
    ensures
        r == (a@ == b@),
{
    if a.len() != b.len() {
        return false;
    }
    let mut i: usize = 0;
    while i < a.len()
        invariant
            i <= a.len(),
            a.len() == b.len(),
            a@.take(i as int) == b@.take(i as int),
        decreases a.len() - i,
    {
        if a[i] != b[i] {
            return false;
        }
        i = i + 1;
        assert(a@.take(i as int) =~= a@.take(i - 1).push(a@[i - 1]));
        assert(b@.take(i as int) =~= b@.take(i - 1).push(b@[i - 1]));
    }
    assert(a@ =~= a@.take(a.len() as int));
    assert(b@ =~= b@.take(b.len() as int));
    true
}

impl CacheKey {
    /// The key of the copy in `encoding` of the content with this fingerprint.
    pub fn new(fingerprint: Vec<u8>, encoding: String) -> (k: CacheKey)
        ensures
            k@ == (fingerprint@, encoding@),
    {
        CacheKey { fingerprint, encoding }
    }

    /// Whether two keys name the same artifact.
    pub fn same(&self, other: &CacheKey) -> (r: bool)
        ensures
            r == (self@ == other@),
    {
        bytes_same(&self.fingerprint, &other.fingerprint) && self.encoding == other.encoding
    }

    /// A second key for the same artifact.
    pub fn duplicate(&self) -> (k: CacheKey)
        ensures
            k@ == self@,
    {
        CacheKey { fingerprint: self.fingerprint.clone(), encoding: self.encoding.clone() }
    }
}

/// What an entry holds.
pub enum Cached {
    /// An encoded file on disk, with its length.
    File { path: String, size: u64 },
    /// A mark that encoding was tried and did not pay: nothing is stored.
    Rejected,
    /// An encoded body held in memory.
    Bytes(Vec<u8>),
}

/// What an entry holds, as texts and bytes.
pub enum CachedView {
    File { path: Seq<char>, size: u64 },
    Rejected,
    Bytes(Seq<u8>),
}

impl View for Cached {
    type V = CachedView;

    open spec fn view(&self) -> CachedView {
        match self {
            Cached::File { path, size } => CachedView::File { path: path@, size: *size },
            Cached::Rejected => CachedView::Rejected,
            Cached::Bytes(b) => CachedView::Bytes(b@),
        }
    }
}

impl CachedView {
    /// The number of bytes that the entry adds to its cache's total.
    pub open spec fn weight(&self) -> nat {
        match self {
            CachedView::File { size, .. } => *size as nat,
            CachedView::Rejected => 0,
            CachedView::Bytes(b) => b.len(),
        }
    }
}

impl Cached {
    /// The number of bytes that the entry adds to its cache's total.
    pub fn weight(&self) -> (n: u64)
        ensures
            n == self@.weight(),
    {
        match self {
            Cached::File { size, .. } => *size,
            Cached::Rejected => 0,
            Cached::Bytes(b) => b.len() as u64,
        }
    }
}

/// One encoded artifact in a cache.
pub struct Entry {
    pub key: CacheKey,
    pub content: Cached,
    /// Last access, in nanoseconds of the clock that the caller reads.
    pub atime: u64,
}

/// An entry, as texts and bytes.
pub struct EntryView {
    pub key: (Seq<u8>, Seq<char>),
    pub content: CachedView,
    pub atime: u64,
}

impl View for Entry {
    type V = EntryView;

    open spec fn view(&self) -> EntryView {
        EntryView { key: self.key@, content: self.content@, atime: self.atime }
    }
}

/// The entries of `s` as texts and bytes.
pub open spec fn entry_views(s: Seq<Entry>) -> Seq<EntryView> {
    Seq::new(s.len(), |i: int| s[i]@)
}

/// The sum of the weights of `s`.
pub open spec fn total_weight(s: Seq<EntryView>) -> nat
    decreases s.len(),
{
    if s.len() == 0 {
        0
    } else {
        total_weight(s.drop_last()) + s.last().content.weight()
    }
}

/// No two entries of `s` share a key.
pub open spec fn distinct_keys(s: Seq<EntryView>) -> bool {
    forall|i: int, j: int| 0 <= i < j < s.len() ==> s[i].key != s[j].key
}

/// The offset in `s` of the entry with key `k`, or the length of `s`.
pub open spec fn key_index(s: Seq<EntryView>, k: (Seq<u8>, Seq<char>)) -> int
    decreases s.len(),
{
    if s.len() == 0 {
        0
    } else if s[0].key == k {
        0
    } else {
        1 + key_index(s.subrange(1, s.len() as int), k)
    }
}

/// `s` holds an entry with key `k`.
pub open spec fn has_key(s: Seq<EntryView>, k: (Seq<u8>, Seq<char>)) -> bool {
    exists|i: int| 0 <= i < s.len() && s[i].key == k
}

/// The offset of the entry of `s` that was accessed longest ago; of several
/// such, the first. Zero for the empty sequence.
pub open spec fn coldest_index(s: Seq<EntryView>) -> int
    decreases s.len(),
{
    if s.len() <= 1 {
        0
    } else {
        let r = coldest_index(s.drop_last());
        if s.last().atime < s[r].atime {
            s.len() - 1
        } else {
            r
        }
    }
}

pub(crate) proof fn lemma_coldest_index(s: Seq<EntryView>)
    requires
        s.len() > 0,
    ensures
        0 <= coldest_index(s) < s.len(),
        forall|j: int| 0 <= j < s.len() ==> s[coldest_index(s)].atime <= (#[trigger] s[j]).atime,
        forall|j: int|
            0 <= j < coldest_index(s) ==> s[coldest_index(s)].atime < (#[trigger] s[j]).atime,
    decreases s.len(),
{
    if s.len() > 1 {
        let t = s.drop_last();
        lemma_coldest_index(t);
        let r = coldest_index(t);
        assert(t[r] == s[r]);
        assert forall|j: int| 0 <= j < s.len() implies s[coldest_index(s)].atime <= (
        #[trigger] s[j]).atime by {
            if j < s.len() - 1 {
                assert(t[j] == s[j]);
            }
        }
        assert forall|j: int| 0 <= j < coldest_index(s) implies s[coldest_index(s)].atime < (
        #[trigger] s[j]).atime by {
            assert(t[j] == s[j]);
        }
    }
}

/// The weight of a sequence is that of its parts.
proof fn lemma_total_weight_concat(a: Seq<EntryView>, b: Seq<EntryView>)
    ensures
        total_weight(a + b) == total_weight(a) + total_weight(b),
    decreases b.len(),
{
    if b.len() == 0 {
        assert(a + b =~= a);
    } else {
        assert((a + b).drop_last() =~= a + b.drop_last());
        lemma_total_weight_concat(a, b.drop_last());
    }
}

/// Taking an entry out lowers the weight by that entry's.
pub(crate) proof fn lemma_total_weight_remove(s: Seq<EntryView>, i: int)
    requires
        0 <= i < s.len(),
    ensures
        total_weight(s.remove(i)) + s[i].content.weight() == total_weight(s),
{
    let a = s.take(i);
    let m = seq![s[i]];
    let b = s.skip(i + 1);
    assert(s =~= a + m + b);
    assert(s.remove(i) =~= a + b);
    lemma_total_weight_concat(a, m);
    lemma_total_weight_concat(a + m, b);
    lemma_total_weight_concat(a, b);
    assert(m.drop_last() =~= Seq::<EntryView>::empty());
    assert(total_weight(m.drop_last()) == 0);
    assert(m.last() == s[i]);
    assert(total_weight(m) == s[i].content.weight());
}

pub(crate) proof fn lemma_key_index(s: Seq<EntryView>, k: (Seq<u8>, Seq<char>))
    ensures
        0 <= key_index(s, k) <= s.len(),
        forall|j: int| 0 <= j < key_index(s, k) ==> (#[trigger] s[j]).key != k,
        key_index(s, k) < s.len() ==> s[key_index(s, k)].key == k,
        has_key(s, k) <==> key_index(s, k) < s.len(),
    decreases s.len(),
{
    if s.len() != 0 && s[0].key != k {
        let t = s.subrange(1, s.len() as int);
        lemma_key_index(t, k);
        assert forall|j: int| 0 <= j < key_index(s, k) implies (#[trigger] s[j]).key != k by {
            if j > 0 {
                assert(t[j - 1] == s[j]);
            }
        }
        if key_index(t, k) < t.len() {
            assert(t[key_index(t, k)] == s[key_index(t, k) + 1]);
        }
        if has_key(s, k) {
            let i = choose|i: int| 0 <= i < s.len() && s[i].key == k;
            assert(t[i - 1] == s[i]);
        }
    }
}

/// `s` without the entry under key `k`, if it has one.
pub open spec fn without_key(s: Seq<EntryView>, k: (Seq<u8>, Seq<char>)) -> Seq<EntryView> {
    if key_index(s, k) < s.len() {
        s.remove(key_index(s, k))
    } else {
        s
    }
}

/// Whether an entry last accessed at `atime` has outlived `ttl` seconds at
/// the time `now`: whether it was accessed more than `ttl` seconds before
/// `now`. Times are in nanoseconds. An access time that lies after `now`
/// never has.
pub open spec fn outlived(atime: u64, now: u64, ttl: u64) -> bool {
    atime <= now && now - atime > ttl * 1_000_000_000
}

/// `s` after the least recently accessed entries have left one by one, until
/// the total weight is no more than `limit`.
pub open spec fn evicted_to(s: Seq<EntryView>, limit: nat) -> Seq<EntryView>
    decreases s.len(),
{
    let i = coldest_index(s);
    if total_weight(s) <= limit || !(0 <= i < s.len()) {
        s
    } else {
        evicted_to(s.remove(i), limit)
    }
}

/// Eviction ends under the limit.
pub proof fn lemma_evicted_to_fits(s: Seq<EntryView>, limit: nat)
    ensures
        total_weight(evicted_to(s, limit)) <= limit,
    decreases s.len(),
{
    if s.len() != 0 {
        lemma_coldest_index(s);
        if total_weight(s) > limit {
            lemma_evicted_to_fits(s.remove(coldest_index(s)), limit);
        }
    }
}

/// Removal keeps keys distinct.
pub(crate) proof fn lemma_remove_distinct(s: Seq<EntryView>, i: int)
    requires
        distinct_keys(s),
        0 <= i < s.len(),
    ensures
        distinct_keys(s.remove(i)),
        forall|k: (Seq<u8>, Seq<char>)| k != s[i].key ==> (has_key(s.remove(i), k) <==> has_key(s, k)),
        !has_key(s.remove(i), s[i].key),
{
    let t = s.remove(i);
    assert forall|a: int, b: int| 0 <= a < b < t.len() implies t[a].key != t[b].key by {
        let a2 = if a < i { a } else { a + 1 };
        let b2 = if b < i { b } else { b + 1 };
        assert(t[a] == s[a2] && t[b] == s[b2]);
    }
    assert forall|k: (Seq<u8>, Seq<char>)| k != s[i].key implies (has_key(t, k) <==> has_key(
        s,
        k,
    )) by {
        if has_key(t, k) {
            let a = choose|a: int| 0 <= a < t.len() && t[a].key == k;
            let a2 = if a < i { a } else { a + 1 };
            assert(t[a] == s[a2]);
        }
        if has_key(s, k) {
            let a = choose|a: int| 0 <= a < s.len() && s[a].key == k;
            let a2 = if a < i { a } else { a - 1 };
            assert(t[a2] == s[a]);
        }
    }
    if has_key(t, s[i].key) {
        let a = choose|a: int| 0 <= a < t.len() && t[a].key == s[i].key;
        let a2 = if a < i { a } else { a + 1 };
        assert(t[a] == s[a2]);
    }
}

/// `s` without the entries that have outlived `ttl` seconds at `now`.
pub open spec fn swept(s: Seq<EntryView>, now: u64, ttl: u64) -> Seq<EntryView>
    decreases s.len(),
{
    if s.len() == 0 {
        s
    } else if outlived(s[0].atime, now, ttl) {
        swept(s.skip(1), now, ttl)
    } else {
        seq![s[0]] + swept(s.skip(1), now, ttl)
    }
}

/// Of two entries that together exceed the limit, where the one accessed
/// later fits alone, the one accessed earlier is evicted and the other stays,
/// in whichever order they stand.
pub proof fn lemma_lru_by_atime(s: Seq<EntryView>, limit: nat)
    requires
        s.len() == 2,
        s[0].atime != s[1].atime,
        total_weight(s) > limit,
        s[0].atime < s[1].atime ==> s[1].content.weight() <= limit,
        s[1].atime < s[0].atime ==> s[0].content.weight() <= limit,
    ensures
        s[0].atime < s[1].atime ==> evicted_to(s, limit) == seq![s[1]],
        s[1].atime < s[0].atime ==> evicted_to(s, limit) == seq![s[0]],
{
    lemma_coldest_index(s);
    let i = coldest_index(s);
    let t = s.remove(i);
    lemma_total_weight_remove(s, i);
    assert(t.len() == 1);
    assert(t.drop_last() =~= Seq::<EntryView>::empty());
    assert(total_weight(t.drop_last()) == 0);
    assert(total_weight(t) == t[0].content.weight());
    if s[0].atime < s[1].atime {
        assert(i == 0);
        assert(t =~= seq![s[1]]);
    } else {
        assert(i == 1);
        assert(t =~= seq![s[0]]);
    }
    assert(evicted_to(t, limit) == t);
}

/// What is stored under a key is found under it: it stands last, and no
/// other entry has the key.
pub proof fn lemma_stored_is_found(s: Seq<EntryView>, e: EntryView)
    requires
        distinct_keys(s),
    ensures
        key_index(without_key(s, e.key).push(e), e.key) == without_key(s, e.key).len(),
        distinct_keys(without_key(s, e.key).push(e)),
{
    let key = e.key;
    let base = without_key(s, key);
    let stored = base.push(e);
    lemma_key_index(s, key);
    lemma_key_index(stored, key);
    if key_index(s, key) < s.len() {
        lemma_remove_distinct(s, key_index(s, key));
    }
    assert(!has_key(base, key));
    assert(stored[stored.len() - 1] == e);
    let k = key_index(stored, key);
    if k < stored.len() - 1 {
        assert(stored[k] == base[k]);
    }
    assert forall|a: int, b: int| 0 <= a < b < stored.len() implies stored[a].key
        != stored[b].key by {
        if b == stored.len() - 1 {
            assert(stored[a] == base[a]);
        } else {
            assert(stored[a] == base[a] && stored[b] == base[b]);
        }
    }
}

/// An entry that is marked as accessed is still found where it stood.
pub proof fn lemma_touched_is_found(s: Seq<EntryView>, key: (Seq<u8>, Seq<char>), now: u64)
    requires
        0 <= key_index(s, key) < s.len(),
    ensures
        key_index(
            s.update(key_index(s, key), EntryView { atime: now, ..s[key_index(s, key)] }),
            key,
        ) == key_index(s, key),
{
    let i = key_index(s, key);
    let after = s.update(i, EntryView { atime: now, ..s[i] });
    lemma_key_index(s, key);
    lemma_key_index(after, key);
    let k = key_index(after, key);
    assert(after[i].key == key);
    if k < i {
        assert(after[k] == s[k]);
    }
}

/// A cache of encoded bodies.
pub struct Cache {
    entries: Vec<Entry>,
    size: u64,
}

impl View for Cache {
    type V = Seq<EntryView>;

    closed spec fn view(&self) -> Seq<EntryView> {
        entry_views(self.entries@)
    }
}

impl Cache {
    /// The running total of the entries' sizes, in bytes.
    pub closed spec fn total(&self) -> nat {
        self.size as nat
    }

    /// No key occurs twice, and the running total is the sum of the entries'
    /// sizes.
    pub open spec fn wf(&self) -> bool {
        &&& distinct_keys(self@)
        &&& self.total() == total_weight(self@)
    }

    /// The running total fits in 64 bits.
    pub proof fn lemma_total_bounded(&self)
        ensures
            self.total() <= u64::MAX,
    {
    }

    /// An empty cache.
    pub fn new() -> (c: Cache)
        ensures
            c.wf(),
            c@ == Seq::<EntryView>::empty(),
            c.total() == 0,
    {
        let c = Cache { entries: Vec::new(), size: 0 };
        assert(c@ =~= Seq::<EntryView>::empty());
        c
    }

    /// The number of entries.
    pub fn len(&self) -> (n: usize)
        ensures
            n == self@.len(),
    {
        self.entries.len()
    }

    /// The running total of the entries' sizes, in bytes.
    pub fn size(&self) -> (n: u64)
        ensures
            n == self.total(),
    {
        self.size
    }

    /// Where the entry under `key` stands, if there is one.
    pub fn find(&self, key: &CacheKey) -> (r: Option<usize>)
        ensures
            match r {
                Some(i) => i < self@.len() && i == key_index(self@, key@),
                None => !has_key(self@, key@),
            },
    {
        let mut i: usize = 0;
        proof {
            lemma_key_index(self@, key@);
        }
        while i < self.entries.len()
            invariant
                i <= self.entries.len(),
                forall|j: int| 0 <= j < i ==> (#[trigger] self@[j]).key != key@,
                0 <= key_index(self@, key@) <= self@.len(),
                forall|j: int|
                    0 <= j < key_index(self@, key@) ==> (#[trigger] self@[j]).key != key@,
                key_index(self@, key@) < self@.len() ==> self@[key_index(self@, key@)].key
                    == key@,
                has_key(self@, key@) <==> key_index(self@, key@) < self@.len(),
            decreases self.entries.len() - i,
        {
            if self.entries[i].key.same(key) {
                assert(self@[i as int].key == key@);
                return Some(i);
            }
            assert(self@[i as int].key != key@);
            i = i + 1;
        }
        None
    }

    /// The entry at `i`.
    pub fn get(&self, i: usize) -> (e: &Entry)
        requires
            i < self@.len(),
        ensures
            e@ == self@[i as int],
    {
        &self.entries[i]
    }

    /// Records an access to the entry at `i`.
    pub fn touch(&mut self, i: usize, now: u64)
        requires
            old(self).wf(),
            i < old(self)@.len(),
        ensures
            final(self).wf(),
            final(self)@ == old(self)@.update(
                i as int,
                EntryView { atime: now, ..old(self)@[i as int] },
            ),
            final(self).total() == old(self).total(),
    {
        let ghost s0 = self@;
        let mut e = self.entries.remove(i);
        e.atime = now;
        self.entries.insert(i, e);
        proof {
            let s1 = self@;
            assert(s1 =~= s0.update(i as int, EntryView { atime: now, ..s0[i as int] }));
            assert forall|a: int, b: int| 0 <= a < b < s1.len() implies s1[a].key != s1[b].key by {
                assert(s1[a].key == s0[a].key);
                assert(s1[b].key == s0[b].key);
            }
            lemma_total_weight_remove(s0, i as int);
            lemma_total_weight_remove(s1, i as int);
            assert(s1.remove(i as int) =~= s0.remove(i as int));
        }
    }

    /// The entry that was accessed longest ago, if the cache holds any.
    pub fn coldest(&self) -> (r: Option<usize>)
        ensures
            match r {
                Some(i) => i < self@.len() && i == coldest_index(self@),
                None => self@.len() == 0,
            },
    {
        if self.entries.len() == 0 {
            return None;
        }
        let mut best: usize = 0;
        let mut i: usize = 1;
        assert(self@.take(1).len() == 1);
        while i < self.entries.len()
            invariant
                1 <= i <= self.entries.len(),
                best == coldest_index(self@.take(i as int)),
                best < i,
            decreases self.entries.len() - i,
        {
            proof {
                assert(self@.take(i + 1).drop_last() =~= self@.take(i as int));
                assert(self@.take(i + 1).last() == self@[i as int]);
                assert(self@.take(i + 1)[best as int] == self@[best as int]);
            }
            if self.entries[i].atime < self.entries[best].atime {
                best = i;
            }
            i = i + 1;
        }
        assert(self@.take(i as int) =~= self@);
        Some(best)
    }

    /// Takes the entry at `i` out of the cache.
    pub fn remove(&mut self, i: usize) -> (e: Entry)
        requires
            old(self).wf(),
            i < old(self)@.len(),
        ensures
            final(self).wf(),
            final(self)@ == old(self)@.remove(i as int),
            e@ == old(self)@[i as int],
            final(self).total() + e@.content.weight() == old(self).total(),
    {
        proof {
            lemma_total_weight_remove(self@, i as int);
            lemma_remove_distinct(self@, i as int);
        }
        let e = self.entries.remove(i);
        assert(self@ =~= old(self)@.remove(i as int));
        let w = e.content.weight();
        self.size = self.size - w;
        e
    }

    /// Stores `content` under `key`, in place of what the key held before,
    /// unless the total would no longer fit in 64 bits: then the cache stays as
    /// it is and the result is `false`.
    pub fn insert(&mut self, key: CacheKey, content: Cached, atime: u64) -> (stored: bool)
        requires
            old(self).wf(),
        ensures
            final(self).wf(),
            stored <==> total_weight(without_key(old(self)@, key@)) + content@.weight()
                <= u64::MAX,
            stored ==> final(self)@ == without_key(old(self)@, key@).push(
                EntryView { key: key@, content: content@, atime },
            ),
            !stored ==> final(self)@ == old(self)@,
    {
        let w = content.weight();
        let found = self.find(&key);
        proof {
            lemma_key_index(self@, key@);
        }
        let held: u64 = match found {
            Some(i) => {
                proof {
                    lemma_total_weight_remove(self@, i as int);
                }
                self.entries[i].content.weight()
            },
            None => 0,
        };
        assert(self.size - held == total_weight(without_key(self@, key@)));
        if w > u64::MAX - (self.size - held) {
            return false;
        }
        match found {
            Some(i) => {
                let _ = self.remove(i);
            },
            None => {},
        }
        let ghost base = self@;
        assert(base == without_key(old(self)@, key@));
        assert(!has_key(base, key@)) by {
            if found is Some {
                lemma_remove_distinct(old(self)@, found->0 as int);
            }
        }
        let e = Entry { key, content, atime };
        self.entries.push(e);
        self.size = self.size + w;
        proof {
            let s1 = self@;
            assert(s1 =~= base.push(e@));
            assert(s1.drop_last() =~= base);
            assert forall|a: int, b: int| 0 <= a < b < s1.len() implies s1[a].key != s1[b].key by {
                if b == s1.len() - 1 {
                    assert(base[a].key != key@);
                }
            }
        }
        true
    }

    /// Whether the entry at `i` has outlived `ttl` seconds at `now`.
    pub fn outlived_at(&self, i: usize, now: u64, ttl: u64) -> (r: bool)
        requires
            i < self@.len(),
        ensures
            r == outlived(self@[i as int].atime, now, ttl),
    {
        let atime = self.entries[i].atime;
        atime <= now && ((now - atime) as u128) > (ttl as u128) * 1_000_000_000
    }

    /// The first entry at or after `from` that has outlived `ttl` seconds at
    /// `now`, if there is one.
    pub fn next_outlived(&self, from: usize, now: u64, ttl: u64) -> (r: Option<usize>)
        ensures
            match r {
                Some(i) => from <= i < self@.len() && outlived(self@[i as int].atime, now, ttl)
                    && forall|j: int|
                    from <= j < i ==> !outlived((#[trigger] self@[j]).atime, now, ttl),
                None => forall|j: int|
                    from <= j < self@.len() ==> !outlived((#[trigger] self@[j]).atime, now, ttl),
            },
    {
        let mut i: usize = from;
        while i < self.entries.len()
            invariant
                from <= i,
                forall|j: int| from <= j < i ==> !outlived((#[trigger] self@[j]).atime, now, ttl),
            decreases self.entries.len() - i,
        {
            if self.outlived_at(i, now, ttl) {
                return Some(i);
            }
            i = i + 1;
        }
        None
    }

    /// Drops every entry that has outlived `ttl` seconds at `now`, and returns
    /// the number of bytes that left.
    pub fn sweep(&mut self, now: u64, ttl: u64) -> (freed: u64)
        requires
            old(self).wf(),
        ensures
            final(self).wf(),
            final(self)@ == swept(old(self)@, now, ttl),
            freed == old(self).total() - final(self).total(),
    {
        let start = self.size;
        let mut i: usize = 0;
        proof {
            assert(self@.take(0) =~= Seq::<EntryView>::empty());
            assert(self@.skip(0) =~= self@);
        }
        while i < self.entries.len()
            invariant
                self.wf(),
                i <= self@.len(),
                self.total() <= start,
                start == old(self).total(),
                swept(old(self)@, now, ttl) == self@.take(i as int) + swept(
                    self@.skip(i as int),
                    now,
                    ttl,
                ),
            decreases self@.len() - i,
        {
            let ghost before = self@;
            if self.outlived_at(i, now, ttl) {
                let _ = self.remove(i);
                proof {
                    assert(self@.take(i as int) =~= before.take(i as int));
                    assert(self@.skip(i as int) =~= before.skip(i as int).skip(1));
                }
            } else {
                i = i + 1;
                proof {
                    assert(self@.take(i as int) =~= before.take(i - 1) + seq![
                        before.skip(i - 1)[0],
                    ]);
                    assert(self@.skip(i as int) =~= before.skip(i - 1).skip(1));
                }
            }
        }
        proof {
            assert(self@.take(i as int) =~= self@);
            assert(self@.skip(i as int) =~= Seq::<EntryView>::empty());
        }
        start - self.size
    }

    /// Evicts least recently accessed entries until the total is no more than
    /// `limit`, and returns the number of bytes that left.
    pub fn evict_to(&mut self, limit: u64) -> (freed: u64)
        requires
            old(self).wf(),
        ensures
            final(self).wf(),
            final(self)@ == evicted_to(old(self)@, limit as nat),
            final(self).total() <= limit,
            freed == old(self).total() - final(self).total(),
    {
        let start = self.size;
        while self.size > limit
            invariant
                self.wf(),
                self.total() <= start,
                start == old(self).total(),
                evicted_to(self@, limit as nat) == evicted_to(old(self)@, limit as nat),
            decreases self@.len(),
        {
            proof {
                if self@.len() > 0 {
                    lemma_coldest_index(self@);
                }
            }
            match self.coldest() {
                Some(i) => {
                    let _ = self.remove(i);
                },
                None => {
                    assert(total_weight(self@) == 0);
                    assert(false);
                },
            }
        }
        start - self.size
    }
}

} // verus!
