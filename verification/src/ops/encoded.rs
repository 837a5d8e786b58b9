//! Files that are served encoded: the fingerprints of files, the cache of
//! their encoded copies, and the steps between a request and its answer.

use crate::ops::cache::{
    key_index, lemma_key_index, total_weight, without_key, CacheKey, Cached, CachedView, EntryView,
};
use crate::ops::encode::{
    encoding_extension, extension_of, hex_of, negotiated, response_encoding, to_hex, Accepted,
};
use crate::ops::file::{file_lines, quote, quoted, FileFacts};
use crate::ops::response::{user_agent, Body, BodyView, Response, ResponseView};
use crate::ops::{below, join_below, HttpHandler};
use crate::text::{append_str, chars_of, dec_digits, decimal, same, string_of};
use vstd::prelude::*;

verus! {

/// The fingerprints that have been taken, as texts and bytes.
pub open spec fn print_views(files: Seq<(String, Vec<u8>)>) -> Seq<(Seq<char>, Seq<u8>)> {
    Seq::new(files.len(), |i: int| (files[i].0@, files[i].1@))
}

/// The offset of the first fingerprint for `etag` in `files`, or their number.
pub open spec fn print_index(files: Seq<(Seq<char>, Seq<u8>)>, etag: Seq<char>) -> int
    decreases files.len(),
{
    if files.len() == 0 {
        0
    } else if files[0].0 == etag {
        0
    } else {
        1 + print_index(files.skip(1), etag)
    }
}

proof fn lemma_print_index(files: Seq<(Seq<char>, Seq<u8>)>, etag: Seq<char>)
    ensures
        0 <= print_index(files, etag) <= files.len(),
        forall|j: int| 0 <= j < print_index(files, etag) ==> (#[trigger] files[j]).0 != etag,
        print_index(files, etag) < files.len() ==> files[print_index(files, etag)].0 == etag,
    decreases files.len(),
{
    if files.len() != 0 && files[0].0 != etag {
        let t = files.skip(1);
        lemma_print_index(t, etag);
        assert forall|j: int| 0 <= j < print_index(files, etag) implies (#[trigger] files[j]).0
            != etag by {
            if j > 0 {
                assert(t[j - 1] == files[j]);
            }
        }
        if print_index(t, etag) < t.len() {
            assert(t[print_index(t, etag)] == files[print_index(t, etag) + 1]);
        }
    }
}

/// The fingerprint that is on record for the file with the tag `etag`.
pub open spec fn print_of(files: Seq<(Seq<char>, Seq<u8>)>, etag: Seq<char>) -> Option<Seq<u8>> {
    let i = print_index(files, etag);
    if 0 <= i < files.len() {
        Some(files[i].1)
    } else {
        None
    }
}

/// `files` with `hash` on record for `etag`, in place of what was there.
pub open spec fn with_print(
    files: Seq<(Seq<char>, Seq<u8>)>,
    etag: Seq<char>,
    hash: Seq<u8>,
) -> Seq<(Seq<char>, Seq<u8>)> {
    let i = print_index(files, etag);
    if 0 <= i < files.len() {
        files.update(i, (etag, hash))
    } else {
        files.push((etag, hash))
    }
}

/// No two fingerprints on record are for the same tag.
pub open spec fn distinct_tags(files: Seq<(Seq<char>, Seq<u8>)>) -> bool {
    forall|i: int, j: int| 0 <= i < j < files.len() ==> files[i].0 != files[j].0
}

/// Putting a fingerprint on record leaves one record for each tag.
pub proof fn lemma_with_print_distinct(
    files: Seq<(Seq<char>, Seq<u8>)>,
    etag: Seq<char>,
    hash: Seq<u8>,
)
    requires
        distinct_tags(files),
    ensures
        distinct_tags(with_print(files, etag, hash)),
        print_of(with_print(files, etag, hash), etag) == Some(hash),
{
    lemma_print_index(files, etag);
    let after = with_print(files, etag, hash);
    let i = print_index(files, etag);
    assert forall|a: int, b: int| 0 <= a < b < after.len() implies after[a].0 != after[b].0 by {
        if i < files.len() {
            assert(after[a].0 == files[a].0 && after[b].0 == files[b].0);
        } else if b == after.len() - 1 {
            assert(after[a] == files[a]);
        }
    }
    lemma_print_index(after, etag);
    let k = print_index(after, etag);
    if i < files.len() {
        assert(after[i].0 == etag);
        if k < i {
            assert(after[k] == files[k]);
        }
    } else {
        assert(after[after.len() - 1].0 == etag);
        if k < after.len() - 1 {
            assert(after[k] == files[k]);
        }
    }
}

/// The name of the encoded copy of a file: the file's fingerprint in
/// hexadecimal, the file's extension where it has one, and the extension of
/// the encoding, or its name where it has none.
pub open spec fn encoded_name(hash: Seq<u8>, ext: Option<Seq<char>>, encoding: Seq<char>) -> Seq<
    char,
> {
    hex_of(hash) + "."@ + match ext {
        Some(e) => e + "."@,
        None => ""@,
    } + match extension_of(encoding) {
        Some(x) => x,
        None => encoding,
    }
}

fn encoded_name_of(hash: &Vec<u8>, ext: Option<&str>, encoding: &str) -> (r: String)
    ensures
        r@ == encoded_name(
            hash@,
            match ext {
                Some(e) => Some(e@),
                None => None,
            },
            encoding@,
        ),
{
    let mut out = chars_of(to_hex(hash).as_str());
    append_str(&mut out, ".");
    let mut middle: Vec<char> = match ext {
        Some(e) => {
            let mut m = chars_of(e);
            append_str(&mut m, ".");
            m
        },
        None => chars_of(""),
    };
    crate::text::append(&mut out, &middle);
    match encoding_extension(encoding) {
        Some(x) => append_str(&mut out, x),
        None => append_str(&mut out, encoding),
    }
    string_of(&out)
}

/// The answer that carries the encoded copy at `path`.
pub open spec fn encoded_file(f: FileFacts, encoding: Seq<char>, path: Seq<char>) -> ResponseView {
    ResponseView {
        status: 200,
        lines: file_lines(f.modified@).push(("ETag"@, quoted(f.etag@))).push(
            ("Content-Encoding"@, encoding),
        ).push(("Content-Type"@, f.mime@)),
        additional: Seq::empty(),
        body: BodyView::File(path),
    }
}

/// The answer that carries the file as it is because encoding it did not pay
/// when it was tried.
pub open spec fn rejected_file(f: FileFacts) -> ResponseView {
    ResponseView {
        status: 200,
        lines: file_lines(f.modified@).push(("ETag"@, quoted(f.etag@))).push(
            ("Content-Type"@, f.mime@),
        ),
        additional: Seq::empty(),
        body: BodyView::File(f.path@),
    }
}

/// The answer that carries the file as it is, with its length.
pub open spec fn identity_file(f: FileFacts) -> ResponseView {
    ResponseView {
        status: 200,
        lines: file_lines(f.modified@).push(("ETag"@, quoted(f.etag@))).push(
            ("Content-Length"@, dec_digits(f.len as nat)),
        ).push(("Content-Type"@, f.mime@)),
        additional: Seq::empty(),
        body: BodyView::File(f.path@),
    }
}

/// What is to happen next for a file that may be served encoded.
pub enum EncodeStep {
    /// The answer is ready.
    Done(Response),
    /// The file's fingerprint is not on record: it is to be taken, and handed
    /// to `file_hashed` with this encoding.
    Hash(String),
    /// There is no encoded copy: the file is to be encoded into `target`, and
    /// the outcome handed to `file_encoded` with this key.
    Encode { key: CacheKey, target: String },
}

/// An `EncodeStep` as the texts and bytes that it holds.
pub enum EncodeStepView {
    Done(ResponseView),
    Hash(Seq<char>),
    Encode { key: (Seq<u8>, Seq<char>), target: Seq<char> },
}

impl View for EncodeStep {
    type V = EncodeStepView;

    open spec fn view(&self) -> EncodeStepView {
        match self {
            EncodeStep::Done(r) => EncodeStepView::Done(r@),
            EncodeStep::Hash(e) => EncodeStepView::Hash(e@),
            EncodeStep::Encode { key, target } => EncodeStepView::Encode {
                key: key@,
                target: target@,
            },
        }
    }
}

/// The step for a file whose fingerprint is `hash`, to be served as
/// `encoding`: the cached copy, the file as it is where encoding was given
/// up, or else the making of a copy in `dir`.
pub open spec fn lookup_step(
    cache: Seq<EntryView>,
    dir: Seq<char>,
    f: FileFacts,
    ext: Option<Seq<char>>,
    encoding: Seq<char>,
    hash: Seq<u8>,
) -> EncodeStepView {
    let i = key_index(cache, (hash, encoding));
    if 0 <= i < cache.len() && cache[i].content is File {
        EncodeStepView::Done(encoded_file(f, encoding, cache[i].content->File_path))
    } else if 0 <= i < cache.len() && cache[i].content is Rejected {
        EncodeStepView::Done(rejected_file(f))
    } else {
        EncodeStepView::Encode {
            key: (hash, encoding),
            target: below(dir, encoded_name(hash, ext, encoding)),
        }
    }
}

/// The cache after the step `lookup_step`: a copy that is served is marked as
/// accessed at `now`.
pub open spec fn lookup_cache(
    cache: Seq<EntryView>,
    encoding: Seq<char>,
    hash: Seq<u8>,
    now: u64,
) -> Seq<EntryView> {
    let i = key_index(cache, (hash, encoding));
    if 0 <= i < cache.len() && cache[i].content is File {
        cache.update(i, EntryView { atime: now, ..cache[i] })
    } else {
        cache
    }
}

/// The first step for a file that may be served encoded.
pub open spec fn first_step(
    cache: Seq<EntryView>,
    files: Seq<(Seq<char>, Seq<u8>)>,
    dir: Option<Seq<char>>,
    f: FileFacts,
    ext: Option<Seq<char>>,
    accept: Seq<Accepted>,
) -> EncodeStepView {
    match (dir, negotiated(accept)) {
        (Some(d), Some(encoding)) => match print_of(files, f.etag@) {
            Some(hash) => lookup_step(cache, d, f, ext, encoding, hash),
            None => EncodeStepView::Hash(encoding),
        },
        _ => EncodeStepView::Done(identity_file(f)),
    }
}

/// The cache after `first_step`.
pub open spec fn first_cache(
    cache: Seq<EntryView>,
    files: Seq<(Seq<char>, Seq<u8>)>,
    dir: Option<Seq<char>>,
    f: FileFacts,
    accept: Seq<Accepted>,
    now: u64,
) -> Seq<EntryView> {
    match (dir, negotiated(accept), print_of(files, f.etag@)) {
        (Some(d), Some(encoding), Some(hash)) => lookup_cache(cache, encoding, hash, now),
        _ => cache,
    }
}

/// An encoded copy of `encoded` bytes pays for a file of `plain` bytes if the
/// file is at least eleven tenths of the copy.
pub open spec fn pays(plain: u64, encoded: u64) -> bool {
    plain * 10 >= encoded * 11
}

/// Whether the encoded copy of `encoded` bytes of the file `f` is kept.
pub open spec fn kept(
    cache: Seq<EntryView>,
    key: (Seq<u8>, Seq<char>),
    f: FileFacts,
    encoded: Option<u64>,
    limit: u64,
) -> bool {
    encoded matches Some(n) && pays(f.len, n) && n <= limit && total_weight(
        without_key(cache, key),
    ) + n <= u64::MAX
}

/// The cache after an attempt to encode: a copy that is kept is entered with
/// the time `now`; one that is not is entered as given up, with a time that
/// no other entry has, so that it is the last to be evicted.
pub open spec fn encoded_cache(
    cache: Seq<EntryView>,
    key: (Seq<u8>, Seq<char>),
    target: Seq<char>,
    f: FileFacts,
    encoded: Option<u64>,
    limit: u64,
    now: u64,
) -> Seq<EntryView> {
    match encoded {
        None => cache,
        Some(n) => if kept(cache, key, f, encoded, limit) {
            without_key(cache, key).push(
                EntryView { key, content: CachedView::File { path: target, size: n }, atime: now },
            )
        } else {
            without_key(cache, key).push(
                EntryView { key, content: CachedView::Rejected, atime: u64::MAX },
            )
        },
    }
}

fn answer_file(f: &FileFacts, encoding: Option<&str>, length: bool, path: &str) -> (r: Response)
    ensures
        encoding is Some && !length ==> r@ == encoded_file(*f, encoding->0@, path@),
        encoding is None && !length && path@ == f.path@ ==> r@ == rejected_file(*f),
        encoding is None && length && path@ == f.path@ ==> r@ == identity_file(*f),
{
    let mut r = Response::new(200);
    r.header("Server", user_agent());
    r.header("Last-Modified", f.modified.as_str());
    r.header("Accept-Ranges", "bytes");
    r.header("ETag", quote(f.etag.as_str()).as_str());
    match encoding {
        Some(e) => {
            r.header("Content-Encoding", e);
        },
        None => {},
    }
    if length {
        r.header("Content-Length", string_of(&decimal(f.len)).as_str());
    }
    r.header("Content-Type", f.mime.as_str());
    r.with_body(Body::File(string_of(&chars_of(path))));
    r
}

impl HttpHandler {
    /// The fingerprint on record for the file with the tag `etag`.
    pub fn fingerprint_of(&self, etag: &str) -> (r: Option<Vec<u8>>)
        ensures
            match r {
                Some(h) => print_of(print_views(self.cache_fs_files@), etag@) == Some(h@),
                None => print_of(print_views(self.cache_fs_files@), etag@) is None,
            },
    {
        match self.fingerprint_index(etag) {
            Some(i) => {
                let h = self.cache_fs_files[i].1.clone();
                assert(h@ =~= self.cache_fs_files@[i as int].1@);
                Some(h)
            },
            None => None,
        }
    }

    fn fingerprint_index(&self, etag: &str) -> (r: Option<usize>)
        ensures
            match r {
                Some(i) => i < self.cache_fs_files@.len() && i == print_index(
                    print_views(self.cache_fs_files@),
                    etag@,
                ),
                None => print_index(print_views(self.cache_fs_files@), etag@)
                    == self.cache_fs_files@.len(),
            },
    {
        let want = chars_of(etag);
        let ghost files = print_views(self.cache_fs_files@);
        proof {
            lemma_print_index(files, etag@);
        }
        let mut i: usize = 0;
        while i < self.cache_fs_files.len()
            invariant
                i <= self.cache_fs_files.len(),
                want@ == etag@,
                files == print_views(self.cache_fs_files@),
                forall|j: int| 0 <= j < i ==> (#[trigger] files[j]).0 != etag@,
                0 <= print_index(files, etag@) <= files.len(),
                forall|j: int|
                    0 <= j < print_index(files, etag@) ==> (#[trigger] files[j]).0 != etag@,
                print_index(files, etag@) < files.len() ==> files[print_index(files, etag@)].0
                    == etag@,
            decreases self.cache_fs_files.len() - i,
        {
            if same(&chars_of(self.cache_fs_files[i].0.as_str()), &want) {
                assert(files[i as int].0 == etag@);
                return Some(i);
            }
            assert(files[i as int].0 != etag@);
            i = i + 1;
        }
        None
    }

    /// Puts the fingerprint `hash` on record for the file with the tag `etag`.
    pub fn remember_fingerprint(&mut self, etag: &str, hash: Vec<u8>)
        requires
            old(self).wf(),
        ensures
            final(self).wf(),
            final(self).same_settings(old(self)),
            final(self).cache_fs == old(self).cache_fs,
            final(self).cache_gen == old(self).cache_gen,
            print_views(final(self).cache_fs_files@) == with_print(
                print_views(old(self).cache_fs_files@),
                etag@,
                hash@,
            ),
    {
        let ghost files = print_views(self.cache_fs_files@);
        proof {
            lemma_with_print_distinct(files, etag@, hash@);
        }
        match self.fingerprint_index(etag) {
            Some(i) => {
                let _ = self.cache_fs_files.remove(i);
                self.cache_fs_files.insert(i, (string_of(&chars_of(etag)), hash));
                assert(print_views(self.cache_fs_files@) =~= files.update(
                    i as int,
                    (etag@, hash@),
                ));
            },
            None => {
                self.cache_fs_files.push((string_of(&chars_of(etag)), hash));
                assert(print_views(self.cache_fs_files@) =~= files.push((etag@, hash@)));
            },
        }
    }

    fn lookup_encoded(
        &mut self,
        dir: &str,
        f: &FileFacts,
        ext: Option<&str>,
        encoding: String,
        hash: Vec<u8>,
        now: u64,
    ) -> (r: EncodeStep)
        requires
            old(self).wf(),
        ensures
            final(self).wf(),
            final(self).same_settings(old(self)),
            final(self).cache_gen == old(self).cache_gen,
            final(self).cache_fs_files == old(self).cache_fs_files,
            r@ == lookup_step(
                old(self).cache_fs@,
                dir@,
                *f,
                match ext {
                    Some(e) => Some(e@),
                    None => None,
                },
                encoding@,
                hash@,
            ),
            final(self).cache_fs@ == lookup_cache(old(self).cache_fs@, encoding@, hash@, now),
    {
        let name = encoded_name_of(&hash, ext, encoding.as_str());
        let key = CacheKey::new(hash, encoding);
        proof {
            lemma_key_index(self.cache_fs@, key@);
        }
        match self.cache_fs.find(&key) {
            Some(i) => {
                let held: Option<Option<String>> = match &self.cache_fs.get(i).content {
                    Cached::File { path, .. } => Some(Some(path.clone())),
                    Cached::Rejected => Some(None),
                    Cached::Bytes(_) => None,
                };
                match held {
                    Some(Some(path)) => {
                        self.cache_fs.touch(i, now);
                        return EncodeStep::Done(
                            answer_file(f, Some(key.encoding.as_str()), false, path.as_str()),
                        );
                    },
                    Some(None) => {
                        return EncodeStep::Done(answer_file(f, None, false, f.path.as_str()));
                    },
                    None => {},
                }
            },
            None => {},
        }
        EncodeStep::Encode { key, target: join_below(dir, name.as_str()) }
    }

    /// Starts on a file that may be served encoded: picks the encoding, and
    /// looks for the file's fingerprint and for an encoded copy.
    pub fn handle_get_file_encoded(
        &mut self,
        f: &FileFacts,
        ext: Option<&str>,
        accept: &Vec<Accepted>,
        now: u64,
    ) -> (r: EncodeStep)
        requires
            old(self).wf(),
        ensures
            final(self).wf(),
            final(self).same_settings(old(self)),
            final(self).cache_gen == old(self).cache_gen,
            final(self).cache_fs_files == old(self).cache_fs_files,
            r@ == first_step(
                old(self).cache_fs@,
                print_views(old(self).cache_fs_files@),
                match old(self).encoded_temp_dir {
                    Some(d) => Some(d.1@),
                    None => None,
                },
                *f,
                match ext {
                    Some(e) => Some(e@),
                    None => None,
                },
                accept@,
            ),
            final(self).cache_fs@ == first_cache(
                old(self).cache_fs@,
                print_views(old(self).cache_fs_files@),
                match old(self).encoded_temp_dir {
                    Some(d) => Some(d.1@),
                    None => None,
                },
                *f,
                accept@,
                now,
            ),
    {
        let dir: String = match &self.encoded_temp_dir {
            Some(d) => d.1.clone(),
            None => {
                return EncodeStep::Done(answer_file(f, None, true, f.path.as_str()));
            },
        };
        let encoding = match response_encoding(accept) {
            Some(e) => e,
            None => {
                return EncodeStep::Done(answer_file(f, None, true, f.path.as_str()));
            },
        };
        match self.fingerprint_of(f.etag.as_str()) {
            Some(hash) => self.lookup_encoded(dir.as_str(), f, ext, encoding, hash, now),
            None => EncodeStep::Hash(encoding),
        }
    }

    /// Goes on with a file whose fingerprint `hash` has just been taken: puts
    /// it on record and looks for an encoded copy. `dir` is the directory of
    /// the encoded copies.
    pub fn file_hashed(
        &mut self,
        dir: &str,
        f: &FileFacts,
        ext: Option<&str>,
        encoding: String,
        hash: Vec<u8>,
        now: u64,
    ) -> (r: EncodeStep)
        requires
            old(self).wf(),
        ensures
            final(self).wf(),
            final(self).same_settings(old(self)),
            final(self).cache_gen == old(self).cache_gen,
            print_views(final(self).cache_fs_files@) == with_print(
                print_views(old(self).cache_fs_files@),
                f.etag@,
                hash@,
            ),
            r@ == lookup_step(
                old(self).cache_fs@,
                dir@,
                *f,
                match ext {
                    Some(e) => Some(e@),
                    None => None,
                },
                encoding@,
                hash@,
            ),
            final(self).cache_fs@ == lookup_cache(old(self).cache_fs@, encoding@, hash@, now),
    {
        let copy = hash.clone();
        assert(copy@ =~= hash@);
        self.remember_fingerprint(f.etag.as_str(), copy);
        self.lookup_encoded(dir, f, ext, encoding, hash, now)
    }

    /// Ends the way of a file that was to be encoded into `target`. `encoded`
    /// is the length of the copy, or `None` where encoding failed. The answer
    /// carries the copy where it is kept, and else the file as it is; the
    /// second result says whether the copy is to be deleted.
    pub fn file_encoded(
        &mut self,
        f: &FileFacts,
        key: CacheKey,
        target: String,
        encoded: Option<u64>,
        now: u64,
    ) -> (r: (Response, bool))
        requires
            old(self).wf(),
        ensures
            final(self).wf(),
            final(self).same_settings(old(self)),
            final(self).cache_gen == old(self).cache_gen,
            final(self).cache_fs_files == old(self).cache_fs_files,
            r.0@ == if kept(
                old(self).cache_fs@,
                key@,
                *f,
                encoded,
                old(self).encoded_filesystem_limit,
            ) {
                encoded_file(*f, key@.1, target@)
            } else {
                identity_file(*f)
            },
            r.1 == (encoded is Some && !kept(
                old(self).cache_fs@,
                key@,
                *f,
                encoded,
                old(self).encoded_filesystem_limit,
            )),
            final(self).cache_fs@ == encoded_cache(
                old(self).cache_fs@,
                key@,
                target@,
                *f,
                encoded,
                old(self).encoded_filesystem_limit,
                now,
            ),
    {
        let n = match encoded {
            Some(n) => n,
            None => {
                return (answer_file(f, None, true, f.path.as_str()), false);
            },
        };
        let pays = (f.len as u128) * 10 >= (n as u128) * 11;
        proof {
            let cache = self.cache_fs@;
            self.cache_fs.lemma_total_bounded();
            lemma_key_index(cache, key@);
            if key_index(cache, key@) < cache.len() {
                crate::ops::cache::lemma_total_weight_remove(cache, key_index(cache, key@));
            }
        }
        if pays && n <= self.encoded_filesystem_limit {
            let response = answer_file(f, Some(key.encoding.as_str()), false, target.as_str());
            let again = key.duplicate();
            if self.cache_fs.insert(key, Cached::File { path: target, size: n }, now) {
                return (response, false);
            }
            let _ = self.cache_fs.insert(again, Cached::Rejected, u64::MAX);
            return (answer_file(f, None, true, f.path.as_str()), true);
        }
        let _ = self.cache_fs.insert(key, Cached::Rejected, u64::MAX);
        (answer_file(f, None, true, f.path.as_str()), true)
    }
}

/// Once a file has been encoded, a request for it in the same encoding is
/// answered from the cache: with the copy where it was kept, and with the file
/// as it is, without another attempt, where it was not.
pub proof fn lemma_encoded_once(
    cache: Seq<EntryView>,
    key: (Seq<u8>, Seq<char>),
    target: Seq<char>,
    dir: Seq<char>,
    f: FileFacts,
    ext: Option<Seq<char>>,
    n: u64,
    limit: u64,
    now: u64,
)
    requires
        crate::ops::cache::distinct_keys(cache),
    ensures
        lookup_step(encoded_cache(cache, key, target, f, Some(n), limit, now), dir, f, ext, key.1, key.0)
            == if kept(cache, key, f, Some(n), limit) {
            EncodeStepView::Done(encoded_file(f, key.1, target))
        } else {
            EncodeStepView::Done(rejected_file(f))
        },
{
    let e = if kept(cache, key, f, Some(n), limit) {
        EntryView { key, content: CachedView::File { path: target, size: n }, atime: now }
    } else {
        EntryView { key, content: CachedView::Rejected, atime: u64::MAX }
    };
    crate::ops::cache::lemma_stored_is_found(cache, e);
}

/// What a request comes to once the step `step` is taken, the encoder's
/// outcome being `encoded`: its answer, and the cache behind it.
pub open spec fn step_outcome(
    step: EncodeStepView,
    cache: Seq<EntryView>,
    f: FileFacts,
    encoded: Option<u64>,
    limit: u64,
    now: u64,
) -> (ResponseView, Seq<EntryView>) {
    match step {
        EncodeStepView::Encode { key, target } => (
            if kept(cache, key, f, encoded, limit) {
                encoded_file(f, key.1, target)
            } else {
                identity_file(f)
            },
            encoded_cache(cache, key, target, f, encoded, limit, now),
        ),
        EncodeStepView::Done(r) => (r, cache),
        EncodeStepView::Hash(_) => (identity_file(f), cache),
    }
}

/// What a whole request for the file `f` comes to, through whichever of
/// `handle_get_file_encoded`, `file_hashed` and `file_encoded` it takes: its
/// answer, the cache of files and the fingerprints on record behind it. `hash`
/// is the file's fingerprint, and `encoded` what the encoder makes of the file
/// in the encoding that is picked.
pub open spec fn request_outcome(
    cache: Seq<EntryView>,
    files: Seq<(Seq<char>, Seq<u8>)>,
    dir: Option<Seq<char>>,
    f: FileFacts,
    ext: Option<Seq<char>>,
    accept: Seq<Accepted>,
    hash: Seq<u8>,
    encoded: Option<u64>,
    limit: u64,
    now: u64,
) -> (ResponseView, Seq<EntryView>, Seq<(Seq<char>, Seq<u8>)>) {
    match first_step(cache, files, dir, f, ext, accept) {
        EncodeStepView::Hash(encoding) => {
            let after = step_outcome(
                lookup_step(cache, dir->0, f, ext, encoding, hash),
                lookup_cache(cache, encoding, hash, now),
                f,
                encoded,
                limit,
                now,
            );
            (after.0, after.1, with_print(files, f.etag@, hash))
        },
        step => {
            let after = step_outcome(
                step,
                first_cache(cache, files, dir, f, accept, now),
                f,
                encoded,
                limit,
                now,
            );
            (after.0, after.1, files)
        },
    }
}

/// A file that has not changed is answered the second time as the first time:
/// with the same body, and where the first answer was encoded, with the same
/// answer altogether. Once the encoder has been asked and has not failed, it
/// is not asked again.
pub proof fn lemma_second_request(
    cache: Seq<EntryView>,
    files: Seq<(Seq<char>, Seq<u8>)>,
    dir: Option<Seq<char>>,
    f: FileFacts,
    ext: Option<Seq<char>>,
    accept: Seq<Accepted>,
    hash: Seq<u8>,
    encoded: Option<u64>,
    limit: u64,
    now: u64,
    later: u64,
)
    requires
        crate::ops::cache::distinct_keys(cache),
        distinct_tags(files),
        print_of(files, f.etag@) is Some ==> print_of(files, f.etag@) == Some(hash),
    ensures
        ({
            let first = request_outcome(cache, files, dir, f, ext, accept, hash, encoded, limit, now);
            let second = request_outcome(
                first.1,
                first.2,
                dir,
                f,
                ext,
                accept,
                hash,
                encoded,
                limit,
                later,
            );
            &&& second.0.status == first.0.status
            &&& second.0.body == first.0.body
            &&& first.0.body != BodyView::File(f.path@) ==> second.0 == first.0
            &&& encoded is Some && dir is Some && negotiated(accept) is Some ==> first_step(
                first.1,
                first.2,
                dir,
                f,
                ext,
                accept,
            ) is Done
        }),
{
    let first = request_outcome(cache, files, dir, f, ext, accept, hash, encoded, limit, now);
    if dir is Some && negotiated(accept) is Some {
        let d = dir->0;
        let encoding = negotiated(accept)->0;
        let key = (hash, encoding);
        lemma_with_print_distinct(files, f.etag@, hash);
        lemma_key_index(cache, key);
        let i = key_index(cache, key);
        assert(print_of(first.2, f.etag@) == Some(hash));
        if 0 <= i < cache.len() && cache[i].content is File {
            crate::ops::cache::lemma_touched_is_found(cache, key, now);
            assert(first.1 == lookup_cache(cache, encoding, hash, now));
        } else if 0 <= i < cache.len() && cache[i].content is Rejected {
            assert(first.1 == cache);
        } else {
            assert(lookup_cache(cache, encoding, hash, now) == cache);
            let target = below(d, encoded_name(hash, ext, encoding));
            match encoded {
                Some(n) => {
                    let e = if kept(cache, key, f, encoded, limit) {
                        EntryView {
                            key,
                            content: CachedView::File { path: target, size: n },
                            atime: now,
                        }
                    } else {
                        EntryView { key, content: CachedView::Rejected, atime: u64::MAX }
                    };
                    crate::ops::cache::lemma_stored_is_found(cache, e);
                    assert(first.1 == crate::ops::cache::without_key(cache, key).push(e));
                },
                None => {
                    assert(first.1 == cache);
                },
            }
        }
    }
}

} // verus!
