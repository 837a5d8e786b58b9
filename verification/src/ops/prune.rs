//! Keeping the caches within their bounds: evicting what was used longest
//! ago while a cache is over its limit, and dropping what has not been used
//! for too long.

use crate::ops::cache::{
    coldest_index, evicted_to, outlived, swept, Cached, CachedView, EntryView,
};
use crate::ops::encoded::{distinct_tags, print_views};
use crate::ops::{HttpHandler, Options};
use vstd::prelude::*;

verus! {

/// The shortest time between two sweeps, in seconds.
pub const MIN_PRUNE_INTERVAL: u64 = 10;

/// The time between two sweeps for a time to live of `ttl` seconds: a sixth
/// of that time, and ten seconds at least.
pub open spec fn interval_for(ttl: Option<u64>) -> u64 {
    match ttl {
        Some(t) => if t / 6 > MIN_PRUNE_INTERVAL {
            t / 6
        } else {
            MIN_PRUNE_INTERVAL
        },
        None => MIN_PRUNE_INTERVAL,
    }
}

/// `files` without the fingerprints that are `hash`.
pub open spec fn without_print(files: Seq<(Seq<char>, Seq<u8>)>, hash: Seq<u8>) -> Seq<
    (Seq<char>, Seq<u8>),
>
    decreases files.len(),
{
    if files.len() == 0 {
        files
    } else if files.last().1 == hash {
        without_print(files.drop_last(), hash)
    } else {
        without_print(files.drop_last(), hash).push(files.last())
    }
}

/// Taking fingerprints off the record leaves one record for each tag, and
/// none that was not there.
pub proof fn lemma_without_print_distinct(files: Seq<(Seq<char>, Seq<u8>)>, hash: Seq<u8>)
    requires
        distinct_tags(files),
    ensures
        distinct_tags(without_print(files, hash)),
        forall|i: int|
            0 <= i < without_print(files, hash).len() ==> exists|j: int|
                0 <= j < files.len() && files[j] == #[trigger] without_print(files, hash)[i],
    decreases files.len(),
{
    if files.len() != 0 {
        let shorter = files.drop_last();
        lemma_without_print_distinct(shorter, hash);
        let kept = without_print(shorter, hash);
        let all = without_print(files, hash);
        assert forall|i: int| 0 <= i < all.len() implies exists|j: int|
            0 <= j < files.len() && files[j] == #[trigger] all[i] by {
            if i < kept.len() {
                let j = choose|j: int| 0 <= j < shorter.len() && shorter[j] == kept[i];
                assert(files[j] == all[i]);
            } else {
                assert(files[files.len() - 1] == all[i]);
            }
        }
        assert forall|a: int, b: int| 0 <= a < b < all.len() implies all[a].0 != all[b].0 by {
            if b == kept.len() {
                let j = choose|j: int| 0 <= j < shorter.len() && shorter[j] == kept[a];
                assert(files[j] == kept[a]);
            }
        }
    }
}

/// An encoded copy of the file with the fingerprint `hash` is in `cache`.
pub open spec fn copy_present(cache: Seq<EntryView>, hash: Seq<u8>) -> bool {
    exists|i: int|
        0 <= i < cache.len() && (#[trigger] cache[i]).key.0 == hash && cache[i].content is File
}

/// The fingerprints on record once a copy of the file with the fingerprint
/// `hash` has left the cache, which is now `cache`: those of the file go,
/// unless another copy of it is still there.
pub open spec fn prints_after(
    files: Seq<(Seq<char>, Seq<u8>)>,
    cache: Seq<EntryView>,
    hash: Seq<u8>,
) -> Seq<(Seq<char>, Seq<u8>)> {
    if copy_present(cache, hash) {
        files
    } else {
        without_print(files, hash)
    }
}

/// An entry that is marked as given up never outlives any time to live: its
/// time of access is the latest there is.
pub proof fn lemma_given_up_is_never_swept(now: u64, ttl: u64)
    ensures
        !outlived(u64::MAX, now, ttl),
{
}

/// An encoded copy that is to leave the cache of files once its file is
/// deleted: where it stands in the cache, and the path of its file.
pub struct Eviction {
    pub index: usize,
    pub path: String,
}

/// What `prune` has done, and what is left to do.
pub struct PruneReport {
    /// The bytes that left the cache of generated pages.
    pub freed_generated: u64,
    /// Whether a sweep is due, so that the cache of files is to be swept too.
    pub sweep: bool,
}

fn has_copy(cache: &crate::ops::cache::Cache, hash: &Vec<u8>) -> (r: bool)
    ensures
        r == copy_present(cache@, hash@),
{
    let mut at: usize = 0;
    while at < cache.len()
        invariant
            at <= cache@.len(),
            forall|j: int|
                0 <= j < at ==> !((#[trigger] cache@[j]).key.0 == hash@ && cache@[j].content is File),
        decreases cache@.len() - at,
    {
        let other = cache.get(at);
        let present = match &other.content {
            Cached::File { .. } => true,
            _ => false,
        };
        if present && crate::ops::cache::bytes_same(&other.key.fingerprint, hash) {
            return true;
        }
        at = at + 1;
    }
    false
}

/// A handler together with the bounds that its caches are held to.
pub struct PruneChain {
    pub handler: HttpHandler,
    pub encoded_filesystem_limit: Option<u64>,
    pub encoded_generated_limit: Option<u64>,
    /// After how many seconds without use an entry is dropped.
    pub encoded_prune: Option<u64>,
    /// The shortest time between two sweeps, in seconds.
    pub prune_interval: u64,
    /// When the caches were last swept, in nanoseconds; zero before the first
    /// sweep.
    pub last_prune: u64,
}

/// Whether a sweep is due at `now`, `last` being the time of the last one:
/// time has passed, and at least `interval` whole seconds of it.
pub open spec fn due(last: u64, now: u64, interval: u64) -> bool {
    last < now && (now - last) / 1_000_000_000 >= interval
}

/// The cache of generated pages after `prune`: brought under its limit where
/// it has one, and swept where a sweep is due.
pub open spec fn pruned_generated(
    cache: Seq<EntryView>,
    limit: Option<u64>,
    ttl: Option<u64>,
    sweep: bool,
    now: u64,
) -> Seq<EntryView> {
    let capped = match limit {
        Some(l) => evicted_to(cache, l as nat),
        None => cache,
    };
    match ttl {
        Some(t) => if sweep {
            swept(capped, now, t)
        } else {
            capped
        },
        None => capped,
    }
}

impl PruneChain {
    /// The handler's caches keep their books.
    pub open spec fn wf(&self) -> bool {
        self.handler.wf()
    }

    /// The chain that a server with the options `opts` starts with.
    pub fn new(opts: Options) -> (c: PruneChain)
        ensures
            c.wf(),
            c.encoded_filesystem_limit == opts.encoded_filesystem_limit,
            c.encoded_generated_limit == opts.encoded_generated_limit,
            c.encoded_prune == opts.encoded_prune,
            c.prune_interval == interval_for(opts.encoded_prune),
            c.last_prune == 0,
            c.handler.made_from(opts),
    {
        let encoded_filesystem_limit = opts.encoded_filesystem_limit;
        let encoded_generated_limit = opts.encoded_generated_limit;
        let encoded_prune = opts.encoded_prune;
        let sixth: u64 = match encoded_prune {
            Some(t) => t / 6,
            None => 0,
        };
        PruneChain {
            handler: HttpHandler::new(opts),
            encoded_filesystem_limit,
            encoded_generated_limit,
            encoded_prune,
            prune_interval: if sixth > MIN_PRUNE_INTERVAL {
                sixth
            } else {
                MIN_PRUNE_INTERVAL
            },
            last_prune: 0,
        }
    }

    /// The next encoded copy to evict because the cache of files is over its
    /// limit: the one that was used longest ago. Its file is to be deleted
    /// first; `evicted` is called only once that is done, and where it cannot
    /// be done no more is evicted.
    ///
    /// Where the result is `None` the cache is within its limit.
    pub fn next_eviction(&self) -> (r: Option<Eviction>)
        requires
            self.wf(),
        ensures
            match r {
                Some(e) => self.encoded_filesystem_limit matches Some(limit)
                    && self.handler.cache_fs.total() > limit && self.handler.cache_fs@.len() > 0
                    && e.index == coldest_index(self.handler.cache_fs@) && e.path@
                    == path_of(self.handler.cache_fs@[e.index as int].content),
                None => match self.encoded_filesystem_limit {
                    Some(limit) => self.handler.cache_fs.total() <= limit,
                    None => true,
                },
            },
    {
        let limit = match self.encoded_filesystem_limit {
            Some(l) => l,
            None => {
                return None;
            },
        };
        if self.handler.cache_fs.size() <= limit {
            return None;
        }
        match self.handler.cache_fs.coldest() {
            Some(index) => {
                let path = match &self.handler.cache_fs.get(index).content {
                    Cached::File { path, .. } => path.clone(),
                    _ => String::new(),
                };
                Some(Eviction { index, path })
            },
            None => {
                assert(crate::ops::cache::total_weight(self.handler.cache_fs@) == 0);
                None
            },
        }
    }

    /// `self` is what `before` becomes when the encoded copy at `index` leaves
    /// the cache of files: the entry is gone, the total is lower by its size,
    /// the fingerprints of its file are off the record unless another copy of
    /// the file is cached, and all else is as it was.
    pub open spec fn without_copy(&self, before: &PruneChain, index: int) -> bool {
        &&& self.wf()
        &&& self.handler.same_settings(&before.handler)
        &&& self.handler.cache_gen == before.handler.cache_gen
        &&& self.encoded_filesystem_limit == before.encoded_filesystem_limit
        &&& self.encoded_generated_limit == before.encoded_generated_limit
        &&& self.encoded_prune == before.encoded_prune
        &&& self.prune_interval == before.prune_interval
        &&& self.last_prune == before.last_prune
        &&& self.handler.cache_fs@ == before.handler.cache_fs@.remove(index)
        &&& self.handler.cache_fs.total() + before.handler.cache_fs@[index].content.weight()
            == before.handler.cache_fs.total()
        &&& print_views(self.handler.cache_fs_files@) == prints_after(
            print_views(before.handler.cache_fs_files@),
            before.handler.cache_fs@.remove(index),
            before.handler.cache_fs@[index].key.0,
        )
    }

    /// Goes on with the eviction `e`, which `next_eviction` has named because
    /// the cache of files is over its limit, once the deletion of its file has
    /// been tried. Where the file is gone the copy leaves the cache, and the
    /// result says to ask `next_eviction` again. Where it is not, nothing
    /// changes, and the result says to evict no more for now: the books keep
    /// what the disk keeps.
    pub fn after_deletion(&mut self, e: &Eviction, deleted: bool) -> (go_on: bool)
        requires
            old(self).wf(),
            e.index < old(self).handler.cache_fs@.len(),
        ensures
            go_on == deleted,
            deleted ==> final(self).without_copy(old(self), e.index as int),
            !deleted ==> *final(self) == *old(self),
    {
        if deleted {
            let _ = self.evicted(e.index);
        }
        deleted
    }

    /// Goes on with the eviction `e`, which `next_expired` has named because
    /// the copy has outlived its time, once the deletion of its file has been
    /// tried. Where the file is gone the copy leaves the cache; where it is
    /// not, nothing changes. The result is the offset to hand to `next_expired`
    /// next: that of `e` where the copy has left, so that the entry that has
    /// moved up is looked at, and the one behind it where the copy stays.
    pub fn after_expiry(&mut self, e: &Eviction, deleted: bool) -> (from: usize)
        requires
            old(self).wf(),
            e.index < old(self).handler.cache_fs@.len(),
        ensures
            deleted ==> from == e.index && final(self).without_copy(old(self), e.index as int),
            !deleted ==> from == e.index + 1 && *final(self) == *old(self),
    {
        if deleted {
            let _ = self.evicted(e.index);
            e.index
        } else {
            let entries = self.handler.cache_fs.len();
            assert(e.index < entries);
            e.index + 1
        }
    }

    /// Takes the encoded copy at `index` out of the cache of files, and the
    /// fingerprints of its file off the record. Returns the bytes that left.
    pub fn evicted(&mut self, index: usize) -> (freed: u64)
        requires
            old(self).wf(),
            index < old(self).handler.cache_fs@.len(),
        ensures
            final(self).without_copy(old(self), index as int),
            freed == old(self).handler.cache_fs@[index as int].content.weight(),
    {
        let e = self.handler.cache_fs.remove(index);
        if has_copy(&self.handler.cache_fs, &e.key.fingerprint) {
            return e.content.weight();
        }
        let ghost all = print_views(self.handler.cache_fs_files@);
        let mut kept: Vec<(String, Vec<u8>)> = Vec::new();
        let mut i: usize = 0;
        assert(all.take(0) =~= Seq::empty());
        assert(print_views(kept@) =~= Seq::empty());
        while i < self.handler.cache_fs_files.len()
            invariant
                i <= self.handler.cache_fs_files.len(),
                all == print_views(self.handler.cache_fs_files@),
                print_views(kept@) == without_print(all.take(i as int), e.key.fingerprint@),
            decreases self.handler.cache_fs_files.len() - i,
        {
            let ghost before = print_views(kept@);
            let record = &self.handler.cache_fs_files[i];
            proof {
                assert(all.take(i + 1).drop_last() =~= all.take(i as int));
                assert(all.take(i + 1).last() == (record.0@, record.1@));
            }
            if !crate::ops::cache::bytes_same(&record.1, &e.key.fingerprint) {
                let hash = record.1.clone();
                assert(hash@ =~= record.1@);
                kept.push((record.0.clone(), hash));
                assert(print_views(kept@) =~= before.push((record.0@, record.1@)));
            }
            i = i + 1;
        }
        assert(all.take(all.len() as int) =~= all);
        proof {
            lemma_without_print_distinct(all, e.key.fingerprint@);
        }
        self.handler.cache_fs_files = kept;
        e.content.weight()
    }

    /// The first encoded copy at or after `from` in the cache of files that
    /// has not been used for longer than entries live, if there is one. Its
    /// file is to be deleted first, and `evicted` called once that is done.
    pub fn next_expired(&self, from: usize, now: u64) -> (r: Option<Eviction>)
        ensures
            match r {
                Some(e) => self.encoded_prune matches Some(ttl) && from <= e.index
                    < self.handler.cache_fs@.len() && outlived(
                    self.handler.cache_fs@[e.index as int].atime,
                    now,
                    ttl,
                ) && e.path@ == path_of(self.handler.cache_fs@[e.index as int].content)
                    && forall|j: int|
                    from <= j < e.index ==> !outlived(
                        (#[trigger] self.handler.cache_fs@[j]).atime,
                        now,
                        ttl,
                    ),
                None => self.encoded_prune matches Some(ttl) ==> forall|j: int|
                    from <= j < self.handler.cache_fs@.len() ==> !outlived(
                        (#[trigger] self.handler.cache_fs@[j]).atime,
                        now,
                        ttl,
                    ),
            },
    {
        let ttl = match self.encoded_prune {
            Some(t) => t,
            None => {
                return None;
            },
        };
        match self.handler.cache_fs.next_outlived(from, now, ttl) {
            Some(index) => {
                let path = match &self.handler.cache_fs.get(index).content {
                    Cached::File { path, .. } => path.clone(),
                    _ => String::new(),
                };
                Some(Eviction { index, path })
            },
            None => None,
        }
    }

    /// Prunes what is held in memory: brings the cache of generated pages
    /// under its limit, and, where entries have a time to live and a sweep is
    /// due at `now`, sweeps that cache and says that the cache of files is to
    /// be swept. The time of the last sweep becomes `now` wherever entries
    /// have a time to live.
    pub fn prune(&mut self, now: u64) -> (r: PruneReport)
        requires
            old(self).wf(),
        ensures
            final(self).wf(),
            final(self).handler.same_settings(&old(self).handler),
            final(self).handler.cache_fs == old(self).handler.cache_fs,
            final(self).handler.cache_fs_files == old(self).handler.cache_fs_files,
            final(self).encoded_filesystem_limit == old(self).encoded_filesystem_limit,
            final(self).encoded_generated_limit == old(self).encoded_generated_limit,
            final(self).encoded_prune == old(self).encoded_prune,
            final(self).prune_interval == old(self).prune_interval,
            r.sweep == (old(self).encoded_prune is Some && due(
                old(self).last_prune,
                now,
                old(self).prune_interval,
            )),
            final(self).last_prune == if old(self).encoded_prune is Some {
                now
            } else {
                old(self).last_prune
            },
            final(self).handler.cache_gen@ == pruned_generated(
                old(self).handler.cache_gen@,
                old(self).encoded_generated_limit,
                old(self).encoded_prune,
                r.sweep,
                now,
            ),
            r.freed_generated == old(self).handler.cache_gen.total()
                - final(self).handler.cache_gen.total(),
            old(self).encoded_generated_limit is Some ==> final(self).handler.cache_gen.total()
                <= old(self).encoded_generated_limit->0,
    {
        let mut freed: u64 = 0;
        match self.encoded_generated_limit {
            Some(limit) => {
                freed = self.handler.cache_gen.evict_to(limit);
            },
            None => {},
        }
        let mut sweep = false;
        match self.encoded_prune {
            Some(ttl) => {
                let last = self.last_prune;
                self.last_prune = now;
                if last < now && (now - last) / 1_000_000_000 >= self.prune_interval {
                    sweep = true;
                    let more = self.handler.cache_gen.sweep(now, ttl);
                    proof {
                        old(self).handler.cache_gen.lemma_total_bounded();
                    }
                    freed = freed + more;
                }
            },
            None => {},
        }
        PruneReport { freed_generated: freed, sweep }
    }
}

/// `time::precise_time_ns`: the reading of a clock, in nanoseconds since a
/// time that is not told.
#[verifier::external_body]
fn precise_time_ns() -> (now: u64) {
    time::precise_time_ns()
}

impl PruneChain {
    /// Prunes as `prune` does, at the time that the clock shows. Where entries
    /// have a time to live, that time is afterwards in `last_prune`: it is the
    /// time of the sweep, where one was due.
    pub fn prune_now(&mut self) -> (r: PruneReport)
        requires
            old(self).wf(),
        ensures
            final(self).wf(),
            final(self).handler.same_settings(&old(self).handler),
            final(self).handler.cache_fs == old(self).handler.cache_fs,
            final(self).handler.cache_fs_files == old(self).handler.cache_fs_files,
            final(self).encoded_filesystem_limit == old(self).encoded_filesystem_limit,
            final(self).encoded_generated_limit == old(self).encoded_generated_limit,
            final(self).encoded_prune == old(self).encoded_prune,
            final(self).prune_interval == old(self).prune_interval,
            old(self).encoded_prune is None ==> final(self).last_prune == old(self).last_prune,
            r.sweep == (old(self).encoded_prune is Some && due(
                old(self).last_prune,
                final(self).last_prune,
                old(self).prune_interval,
            )),
            final(self).handler.cache_gen@ == pruned_generated(
                old(self).handler.cache_gen@,
                old(self).encoded_generated_limit,
                old(self).encoded_prune,
                r.sweep,
                final(self).last_prune,
            ),
            r.freed_generated == old(self).handler.cache_gen.total()
                - final(self).handler.cache_gen.total(),
            old(self).encoded_generated_limit is Some ==> final(self).handler.cache_gen.total()
                <= old(self).encoded_generated_limit->0,
    {
        let now = precise_time_ns();
        self.prune(now)
    }
}

/// The path of the file that an entry stands for; empty for an entry that
/// stands for none.
pub open spec fn path_of(content: CachedView) -> Seq<char> {
    match content {
        CachedView::File { path, .. } => path,
        _ => Seq::empty(),
    }
}

} // verus!
