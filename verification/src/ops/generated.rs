//! Pages that the server writes itself: their entity tags, and the cache of
//! their encoded forms.

use crate::ops::cache::{
    key_index, lemma_key_index, total_weight, without_key, CacheKey, Cached, CachedView, EntryView,
};
use crate::ops::encode::{
    blake3_digest, encode_str, encoded_form, hex_of, file_hash, negotiated,
    response_encoding, to_hex, Accepted,
};
use crate::ops::file::{etag_match, lists_tag, quote, quoted, IfNoneMatch};
use crate::ops::response::{
    no_lines, server_text, user_agent, Body, BodyView, Method, Response, ResponseView,
};
use crate::ops::HttpHandler;
use vstd::prelude::*;
use vstd::string::StrSliceExecFns;
use vstd::utf8::encode_utf8;

verus! {

/// The media type of the pages that the server writes.
pub open spec fn html_type() -> Seq<char> {
    "text/html; charset=utf-8"@
}

/// The entity tag of a page: the hash of its text, in hexadecimal.
pub open spec fn page_tag(body: Seq<char>) -> Seq<char> {
    hex_of(blake3_digest(encode_utf8(body)))
}

/// The bytes that `cache` holds under `key`.
pub open spec fn stored_bytes(cache: Seq<EntryView>, key: (Seq<u8>, Seq<char>)) -> Option<Seq<u8>> {
    let i = key_index(cache, key);
    if 0 <= i < cache.len() {
        match cache[i].content {
            CachedView::Bytes(b) => Some(b),
            _ => None,
        }
    } else {
        None
    }
}

/// What becomes of a page on its way out.
pub enum PageOutcome {
    /// The client has the page already.
    NotModified,
    /// The page goes out as it is.
    Identity,
    /// The page goes out in this encoding, with these bytes from the cache.
    Cached(Seq<char>, Seq<u8>),
    /// The page goes out in this encoding, with these bytes fresh from the
    /// encoder.
    Fresh(Seq<char>, Seq<u8>),
}

/// Whether the client has the page already: it asked to read, the page is an
/// answer in the affirmative, and the request lists the page's tag.
pub open spec fn page_revalidates(
    method: Method,
    status: u16,
    inm: Option<IfNoneMatch>,
    etag: Seq<char>,
) -> bool {
    &&& status == 200
    &&& (method is Get || method is Head)
    &&& inm matches Some(IfNoneMatch::Items(tags)) && lists_tag(tags@, etag)
}

/// What becomes of the page `body`, with `cache` as it stands.
pub open spec fn page_outcome(
    cache: Seq<EntryView>,
    method: Method,
    status: u16,
    body: Seq<char>,
    inm: Option<IfNoneMatch>,
    accept: Seq<Accepted>,
) -> PageOutcome {
    if page_revalidates(method, status, inm, page_tag(body)) {
        PageOutcome::NotModified
    } else {
        match negotiated(accept) {
            None => PageOutcome::Identity,
            Some(encoding) => match stored_bytes(
                cache,
                (blake3_digest(encode_utf8(body)), encoding),
            ) {
                Some(bytes) => PageOutcome::Cached(encoding, bytes),
                None => match encoded_form(encode_utf8(body), encoding) {
                    Some(bytes) => PageOutcome::Fresh(encoding, bytes),
                    None => PageOutcome::Identity,
                },
            },
        }
    }
}

/// The answer that carries a page in the encoding `encoding`.
pub open spec fn encoded_page(
    status: u16,
    encoding: Seq<char>,
    etag: Seq<char>,
    bytes: Seq<u8>,
) -> ResponseView {
    ResponseView {
        status,
        lines: no_lines().push(("Server"@, server_text())).push(("Content-Encoding"@, encoding)).push(
            ("ETag"@, quoted(etag)),
        ).push(("Content-Type"@, html_type())),
        additional: Seq::empty(),
        body: BodyView::Bytes(bytes),
    }
}

/// The answer that carries a page as it is, or, with an empty body, says that
/// the client has it.
pub open spec fn plain_page(status: u16, etag: Seq<char>, body: BodyView) -> ResponseView {
    ResponseView {
        status,
        lines: no_lines().push(("Server"@, server_text())).push(("ETag"@, quoted(etag))).push(
            ("Content-Type"@, html_type()),
        ),
        additional: Seq::empty(),
        body,
    }
}

/// The answer for a page with the outcome `outcome`.
pub open spec fn page_response(outcome: PageOutcome, status: u16, body: Seq<char>) -> ResponseView {
    match outcome {
        PageOutcome::NotModified => plain_page(304, page_tag(body), BodyView::Empty),
        PageOutcome::Identity => plain_page(status, page_tag(body), BodyView::Text(body)),
        PageOutcome::Cached(encoding, bytes) => encoded_page(
            status,
            encoding,
            page_tag(body),
            bytes,
        ),
        PageOutcome::Fresh(encoding, bytes) => encoded_page(
            status,
            encoding,
            page_tag(body),
            bytes,
        ),
    }
}

/// The cache after a page with the outcome `outcome`: a hit is marked as
/// accessed at `now`; a fresh encoding is stored, unless it is larger than
/// `limit` or the total would not fit in 64 bits.
pub open spec fn page_cache(
    cache: Seq<EntryView>,
    outcome: PageOutcome,
    body: Seq<char>,
    limit: u64,
    now: u64,
) -> Seq<EntryView> {
    match outcome {
        PageOutcome::Cached(encoding, bytes) => {
            let i = key_index(cache, (blake3_digest(encode_utf8(body)), encoding));
            cache.update(i, EntryView { atime: now, ..cache[i] })
        },
        PageOutcome::Fresh(encoding, bytes) => {
            let key = (blake3_digest(encode_utf8(body)), encoding);
            if bytes.len() <= limit && total_weight(without_key(cache, key)) + bytes.len()
                <= u64::MAX {
                without_key(cache, key).push(
                    EntryView { key, content: CachedView::Bytes(bytes), atime: now },
                )
            } else {
                cache
            }
        },
        _ => cache,
    }
}

fn plain(status: u16, etag: &str, body: Body) -> (r: Response)
    ensures
        r@ == plain_page(status, etag@, body@),
{
    let mut r = Response::new(status);
    r.header("Server", user_agent());
    r.header("ETag", quote(etag).as_str());
    r.header("Content-Type", "text/html; charset=utf-8");
    r.with_body(body);
    r
}

fn encoded(status: u16, encoding: &str, etag: &str, bytes: Vec<u8>) -> (r: Response)
    ensures
        r@ == encoded_page(status, encoding@, etag@, bytes@),
{
    let mut r = Response::new(status);
    r.header("Server", user_agent());
    r.header("Content-Encoding", encoding);
    r.header("ETag", quote(etag).as_str());
    r.header("Content-Type", "text/html; charset=utf-8");
    r.with_body(Body::Bytes(bytes));
    r
}

impl HttpHandler {
    /// Sends the page `body` on its way: tells a client that has it that it
    /// does, and else picks an encoding, takes the encoded page from the cache
    /// or makes and stores it, and falls back to the page as it is.
    pub fn handle_generated_response_encoding(
        &mut self,
        method: &Method,
        status: u16,
        body: String,
        inm: &Option<IfNoneMatch>,
        accept: &Vec<Accepted>,
        now: u64,
    ) -> (r: Response)
        requires
            old(self).wf(),
        ensures
            final(self).wf(),
            final(self).same_settings(old(self)),
            final(self).cache_fs == old(self).cache_fs,
            final(self).cache_fs_files == old(self).cache_fs_files,
            r@ == page_response(
                page_outcome(old(self).cache_gen@, *method, status, body@, *inm, accept@),
                status,
                body@,
            ),
            final(self).cache_gen@ == page_cache(
                old(self).cache_gen@,
                page_outcome(old(self).cache_gen@, *method, status, body@, *inm, accept@),
                body@,
                old(self).encoded_generated_limit,
                now,
            ),
    {
        let text = body.as_str().as_bytes_vec();
        let hash = file_hash(text.as_slice());
        let etag = to_hex(&hash);
        if status == 200 && method.is_read() {
            match inm {
                Some(IfNoneMatch::Items(tags)) => {
                    if etag_match(tags, etag.as_str()) {
                        return plain(304, etag.as_str(), Body::Empty);
                    }
                },
                _ => {},
            }
        }
        let encoding = match response_encoding(accept) {
            Some(e) => e,
            None => {
                return plain(status, etag.as_str(), Body::Text(body));
            },
        };
        let key = CacheKey::new(hash, encoding.clone());
        proof {
            lemma_key_index(self.cache_gen@, key@);
        }
        match self.cache_gen.find(&key) {
            Some(i) => {
                let hit: Option<Vec<u8>> = match &self.cache_gen.get(i).content {
                    Cached::Bytes(b) => Some(b.clone()),
                    _ => None,
                };
                match hit {
                    Some(bytes) => {
                        self.cache_gen.touch(i, now);
                        return encoded(status, encoding.as_str(), etag.as_str(), bytes);
                    },
                    None => {},
                }
            },
            None => {},
        }
        match encode_str(&text, encoding.as_str()) {
            Some(bytes) => {
                if bytes.len() as u64 <= self.encoded_generated_limit {
                    let _ = self.cache_gen.insert(key, Cached::Bytes(bytes.clone()), now);
                }
                encoded(status, encoding.as_str(), etag.as_str(), bytes)
            },
            None => plain(status, etag.as_str(), Body::Text(body)),
        }
    }
}

/// A page that is asked for twice in the same way is answered twice in the
/// same way, byte for byte; and once it is in the cache, it is answered from
/// there.
pub proof fn lemma_cache_idempotence(
    cache: Seq<EntryView>,
    method: Method,
    status: u16,
    body: Seq<char>,
    inm: Option<IfNoneMatch>,
    accept: Seq<Accepted>,
    limit: u64,
    now: u64,
)
    requires
        crate::ops::cache::distinct_keys(cache),
    ensures
        ({
            let first = page_outcome(cache, method, status, body, inm, accept);
            let after = page_cache(cache, first, body, limit, now);
            let second = page_outcome(after, method, status, body, inm, accept);
            &&& page_response(second, status, body) == page_response(first, status, body)
            &&& first is Cached ==> second == first
            &&& first is Fresh && after != cache ==> second == PageOutcome::Cached(
                first->Fresh_0,
                first->Fresh_1,
            )
        }),
{
    let first = page_outcome(cache, method, status, body, inm, accept);
    let after = page_cache(cache, first, body, limit, now);
    match first {
        PageOutcome::Cached(encoding, bytes) => {
            let key = (blake3_digest(encode_utf8(body)), encoding);
            lemma_key_index(cache, key);
            lemma_key_index(after, key);
            let i = key_index(cache, key);
            let k = key_index(after, key);
            assert(after[i].key == key);
            if k < i {
                assert(after[k] == cache[k]);
            }
        },
        PageOutcome::Fresh(encoding, bytes) => {
            let key = (blake3_digest(encode_utf8(body)), encoding);
            if after != cache {
                let e = EntryView { key, content: CachedView::Bytes(bytes), atime: now };
                crate::ops::cache::lemma_stored_is_found(cache, e);
            }
        },
        _ => {},
    }
}

} // verus!
