//! Requests that read: what a path is answered with, where a directory's
//! index is, and where a client is sent instead.

use crate::ops::pages::{invalid_url_page, not_utf8};
use crate::ops::response::{
    no_lines, server_text, user_agent, BodyView, ErrorPage, ErrorPageView, Response, ResponseView,
};
use crate::ops::write::{within_sandbox, PathFacts};
use crate::ops::{Cidr, HttpHandler, IpAddress};
use crate::text::{
    chars_of, find_char, index_of, lemma_index_of, lower_ascii, lowercase_of, lowered, same,
    string_of, to_lowercase,
};
use crate::ops::file::FileFacts;
use crate::util::files::{
    etag_text, file_etag, file_time_modified, get_mime_type_str, http_date_text, known_mime,
    LAST_SECOND,
};
use vstd::prelude::*;
use vstd::string::StringSliceAdditionalSpecFns;
use vstd::utf8::{decode_utf8, valid_utf8};

verus! {

/// The extensions that mark a directory's index, in the order in which they
/// are looked for; they are also the ones that a path may leave out.
pub open spec fn index_extensions() -> Seq<Seq<char>> {
    seq!["html"@, "htm"@, "shtml"@]
}

/// The extension with the number `i` of `index_extensions`.
pub fn index_extension(i: usize) -> (r: &'static str)
    requires
        i < 3,
    ensures
        r@ == index_extensions()[i as int],
{
    if i == 0 {
        "html"
    } else if i == 1 {
        "htm"
    } else {
        "shtml"
    }
}

/// What answers a `GET`.
pub enum GetRoute {
    Refused(ErrorPage),
    /// Nothing is there, or it may not be touched.
    NotFound,
    /// A description of the file, for programs.
    RawFsFile,
    /// A part of the file.
    FileRange,
    File,
    /// A description of the directory, for programs.
    RawFsDir,
    Directory,
}

/// A `GetRoute` as the texts that it holds.
pub enum GetRouteView {
    Refused(ErrorPageView),
    NotFound,
    RawFsFile,
    FileRange,
    File,
    RawFsDir,
    Directory,
}

impl View for GetRoute {
    type V = GetRouteView;

    open spec fn view(&self) -> GetRouteView {
        match self {
            GetRoute::Refused(p) => GetRouteView::Refused(p@),
            GetRoute::NotFound => GetRouteView::NotFound,
            GetRoute::RawFsFile => GetRouteView::RawFsFile,
            GetRoute::FileRange => GetRouteView::FileRange,
            GetRoute::File => GetRouteView::File,
            GetRoute::RawFsDir => GetRouteView::RawFsDir,
            GetRoute::Directory => GetRouteView::Directory,
        }
    }
}

/// What answers a `GET` for the path with the facts `p`.
pub open spec fn get_route(
    follow_symlinks: bool,
    sandbox_symlinks: bool,
    p: PathFacts,
    range: bool,
    raw_fs: bool,
) -> GetRouteView {
    if p.url_err {
        GetRouteView::Refused(invalid_url_page(not_utf8()))
    } else if !p.exists || !within_sandbox(
        follow_symlinks,
        sandbox_symlinks,
        p.symlink,
        p.inside_root,
    ) {
        GetRouteView::NotFound
    } else if p.is_file {
        if raw_fs {
            GetRouteView::RawFsFile
        } else if range {
            GetRouteView::FileRange
        } else {
            GetRouteView::File
        }
    } else if raw_fs {
        GetRouteView::RawFsDir
    } else {
        GetRouteView::Directory
    }
}

/// Whatever a request names, it is served only from within the sandbox:
/// where a link stands on the way, only where links are followed, and, where
/// links are held to the hosted directory, only where the path lies inside
/// it. All else is answered as not found or refused.
pub proof fn lemma_get_stays_in_sandbox(
    follow_symlinks: bool,
    sandbox_symlinks: bool,
    p: PathFacts,
    range: bool,
    raw_fs: bool,
)
    ensures
        ({
            let route = get_route(follow_symlinks, sandbox_symlinks, p, range, raw_fs);
            route is Refused || route is NotFound || (p.exists && (!p.symlink || (follow_symlinks
                && (sandbox_symlinks ==> p.inside_root))))
        }),
{
}

/// What answers a `GET` for a directory.
#[derive(Debug, Clone, Copy, PartialEq, Eq, Structural)]
pub enum DirRoute {
    /// The index with this number of `index_extensions` is served.
    Index(usize),
    /// The client is sent to the same address with a slash at its end, where
    /// the index with this number is then served.
    Redirect(usize),
    NotFound,
    /// The listing for small screens.
    MobileListing,
    Listing,
}

/// The number of the first index that is there, or the number of indices.
pub open spec fn first_index(present: Seq<bool>) -> int
    decreases present.len(),
{
    if present.len() == 0 {
        0
    } else if present[0] {
        0
    } else {
        1 + first_index(present.skip(1))
    }
}

proof fn lemma_first_index(present: Seq<bool>, i: int)
    requires
        0 <= i <= present.len(),
        forall|j: int| 0 <= j < i ==> !present[j],
        i < present.len() ==> present[i],
    ensures
        first_index(present) == i,
    decreases present.len(),
{
    if present.len() != 0 && !present[0] {
        let t = present.skip(1);
        assert forall|j: int| 0 <= j < i - 1 implies !t[j] by {
            assert(t[j] == present[j + 1]);
        }
        lemma_first_index(t, i - 1);
    }
}

/// What answers a `GET` for a directory, `present` saying for each of
/// `index_extensions` whether the directory holds that index.
pub open spec fn dir_route(
    check_indices: bool,
    generate_listings: bool,
    follow_symlinks: bool,
    sandbox_symlinks: bool,
    present: Seq<bool>,
    inside_root: bool,
    trailing_slash: bool,
    mobile: bool,
) -> DirRoute {
    let i = first_index(present);
    if check_indices && 0 <= i < present.len() && (!(follow_symlinks && sandbox_symlinks)
        || inside_root) {
        if trailing_slash {
            DirRoute::Index(i as usize)
        } else {
            DirRoute::Redirect(i as usize)
        }
    } else if !generate_listings {
        DirRoute::NotFound
    } else if mobile {
        DirRoute::MobileListing
    } else {
        DirRoute::Listing
    }
}

/// `url` with a slash at the end of its path: before the first question
/// mark, or at the end where there is none.
pub open spec fn slashed(url: Seq<char>) -> Seq<char> {
    url.take(index_of(url, '?')) + seq!['/'] + url.skip(index_of(url, '?'))
}

/// A block holds an address if both are of one kind and the address starts
/// with as many bits of the block's address as the block's length says.
pub open spec fn cidr_contains(network: Cidr, address: IpAddress) -> bool {
    match (network, address) {
        (Cidr::V4(base, length), IpAddress::V4(a)) => length <= 32 && (length == 0 || (base >> (
        32 - length) as u32) == (a >> (32 - length) as u32)),
        (Cidr::V6(base, length), IpAddress::V6(a)) => length <= 128 && (length == 0 || (base >> (
        128 - length) as u128) == (a >> (128 - length) as u128)),
        _ => false,
    }
}

/// Whether the block `network` holds `address`.
pub fn network_contains(network: &Cidr, address: &IpAddress) -> (r: bool)
    ensures
        r == cidr_contains(*network, *address),
{
    match (network, address) {
        (Cidr::V4(base, length), IpAddress::V4(a)) => {
            if *length > 32 {
                false
            } else if *length == 0 {
                true
            } else {
                let shift: u32 = (32 - *length) as u32;
                (*base >> shift) == (*a >> shift)
            }
        },
        (Cidr::V6(base, length), IpAddress::V6(a)) => {
            if *length > 128 {
                false
            } else if *length == 0 {
                true
            } else {
                let shift: u128 = (128 - *length) as u128;
                (*base >> shift) == (*a >> shift)
            }
        },
        _ => false,
    }
}

/// The raw values that a request carries under one header name.
pub struct RawHeader {
    pub name: String,
    pub values: Vec<Vec<u8>>,
}

/// The values under the first header of `headers` that is named `name`,
/// whatever the case of their letters.
pub open spec fn raw_values(headers: Seq<RawHeader>, name: Seq<char>) -> Option<Seq<Vec<u8>>>
    decreases headers.len(),
{
    if headers.len() == 0 {
        None
    } else if lowered(headers[0].name@) == lowered(name) {
        Some(headers[0].values@)
    } else {
        raw_values(headers.skip(1), name)
    }
}

/// The address that a proxy in `network` gives in the header `header`: the
/// first value under that name, where it is text.
pub open spec fn forwarded_by(
    network: Cidr,
    header: Seq<char>,
    peer: IpAddress,
    headers: Seq<RawHeader>,
) -> Option<Seq<char>> {
    if !cidr_contains(network, peer) {
        None
    } else {
        match raw_values(headers, header) {
            Some(values) => if values.len() > 0 && valid_utf8(values[0]@) {
                Some(decode_utf8(values[0]@))
            } else {
                None
            },
            None => None,
        }
    }
}

/// The address of the request as the client wrote it, where a proxy that
/// the server knows passes it on: that of the first proxy that does.
pub open spec fn forwarded_url(
    redirs: Seq<(Cidr, String)>,
    peer: IpAddress,
    headers: Seq<RawHeader>,
) -> Option<Seq<char>>
    decreases redirs.len(),
{
    if redirs.len() == 0 {
        None
    } else {
        match forwarded_by(redirs[0].0, redirs[0].1@, peer, headers) {
            Some(url) => Some(url),
            None => forwarded_url(redirs.skip(1), peer, headers),
        }
    }
}

fn find_raw<'a>(headers: &'a Vec<RawHeader>, name: &str) -> (r: Option<&'a Vec<Vec<u8>>>)
    ensures
        match r {
            Some(values) => raw_values(headers@, name@) == Some(values@),
            None => raw_values(headers@, name@) is None,
        },
{
    let want = lower_ascii(name);
    let mut i: usize = 0;
    assert(headers@.skip(0) =~= headers@);
    while i < headers.len()
        invariant
            i <= headers.len(),
            want@ == lowered(name@),
            raw_values(headers@, name@) == raw_values(headers@.skip(i as int), name@),
        decreases headers.len() - i,
    {
        assert(headers@.skip(i as int).skip(1) =~= headers@.skip(i + 1));
        if same(&lower_ascii(headers[i].name.as_str()), &want) {
            return Some(&headers[i].values);
        }
        i = i + 1;
    }
    None
}

/// The media type of a file by its extension: that of the configured
/// overrides, else the built-in one, both for the extension in lower case;
/// else that of binary data or of text.
pub open spec fn mime_for(
    overrides: Seq<(String, String)>,
    ext: Seq<char>,
    binary: bool,
) -> Seq<char> {
    let low = lowercase_of(ext);
    let i = override_index(overrides, low);
    if 0 <= i < overrides.len() {
        overrides[i].1@
    } else {
        match known_mime(low) {
            Some(m) => m,
            None => if binary {
                "application/octet-stream"@
            } else {
                "text/plain"@
            },
        }
    }
}

/// The offset of the first override for `ext`, or the number of overrides.
pub open spec fn override_index(overrides: Seq<(String, String)>, ext: Seq<char>) -> int
    decreases overrides.len(),
{
    if overrides.len() == 0 {
        0
    } else if overrides[0].0@ == ext {
        0
    } else {
        1 + override_index(overrides.skip(1), ext)
    }
}

proof fn lemma_override_index(overrides: Seq<(String, String)>, ext: Seq<char>, i: int)
    requires
        0 <= i <= overrides.len(),
        forall|j: int| 0 <= j < i ==> (#[trigger] overrides[j]).0@ != ext,
        i < overrides.len() ==> overrides[i].0@ == ext,
    ensures
        override_index(overrides, ext) == i,
    decreases overrides.len(),
{
    if overrides.len() != 0 && overrides[0].0@ != ext {
        let t = overrides.skip(1);
        assert forall|j: int| 0 <= j < i - 1 implies (#[trigger] t[j]).0@ != ext by {
            assert(t[j] == overrides[j + 1]);
        }
        lemma_override_index(t, ext, i - 1);
    }
}

/// Puts a slash at the end of the path of `url`.
pub fn slashise(url: &str) -> (r: String)
    ensures
        r@ == slashed(url@),
{
    let chars = chars_of(url);
    proof {
        lemma_index_of(chars@, '?');
    }
    let at = find_char(&chars, '?');
    let mut out = crate::text::slice(&chars, 0, at);
    out.push('/');
    crate::text::append(&mut out, &crate::text::slice(&chars, at, chars.len()));
    assert(out@ =~= slashed(url@));
    string_of(&out)
}

impl HttpHandler {
    /// Decides what answers a `GET` for the path with the facts `p`.
    pub fn handle_get(&self, p: &PathFacts, range: bool, raw_fs: bool) -> (r: GetRoute)
        ensures
            r@ == get_route(self.follow_symlinks, self.sandbox_symlinks, *p, range, raw_fs),
    {
        if p.url_err {
            GetRoute::Refused(
                self.handle_invalid_url("<p>Percent-encoding decoded to invalid UTF-8.</p>"),
            )
        } else if !p.exists || !self.in_sandbox(p) {
            GetRoute::NotFound
        } else if p.is_file {
            if raw_fs {
                GetRoute::RawFsFile
            } else if range {
                GetRoute::FileRange
            } else {
                GetRoute::File
            }
        } else if raw_fs {
            GetRoute::RawFsDir
        } else {
            GetRoute::Directory
        }
    }

    /// Whether to look for a file that has the path's name and an extension
    /// that the path leaves out: nothing is at the path, the path has no
    /// extension, and extensions may be left out.
    pub fn tries_extensions(&self, exists: bool, has_extension: bool) -> (r: bool)
        ensures
            r == (!exists && !has_extension && self.strip_extensions),
    {
        !exists && !has_extension && self.strip_extensions
    }

    /// Decides what answers a `GET` for a directory.
    pub fn handle_get_dir(
        &self,
        present: &Vec<bool>,
        inside_root: bool,
        trailing_slash: bool,
        mobile: bool,
    ) -> (r: DirRoute)
        ensures
            r == dir_route(
                self.check_indices,
                self.generate_listings,
                self.follow_symlinks,
                self.sandbox_symlinks,
                present@,
                inside_root,
                trailing_slash,
                mobile,
            ),
    {
        let mut i: usize = 0;
        while i < present.len() && !present[i]
            invariant
                i <= present.len(),
                forall|j: int| 0 <= j < i ==> !present@[j],
            decreases present.len() - i,
        {
            i = i + 1;
        }
        proof {
            lemma_first_index(present@, i as int);
        }
        if self.check_indices && i < present.len() && (!(self.follow_symlinks
            && self.sandbox_symlinks) || inside_root) {
            if trailing_slash {
                DirRoute::Index(i)
            } else {
                DirRoute::Redirect(i)
            }
        } else if !self.generate_listings {
            DirRoute::NotFound
        } else if mobile {
            DirRoute::MobileListing
        } else {
            DirRoute::Listing
        }
    }

    /// Sends the client to `url` with a slash at the end of its path.
    pub fn handle_get_dir_index_no_slash(&self, url: &str) -> (r: Response)
        ensures
            r@ == (ResponseView {
                status: 303,
                lines: no_lines().push(("Server"@, server_text())).push(
                    ("Location"@, slashed(url@)),
                ),
                additional: Seq::empty(),
                body: BodyView::Empty,
            }),
    {
        let mut r = Response::new(303);
        r.header("Server", user_agent());
        r.header("Location", slashise(url).as_str());
        r
    }

    /// The address of the request as the client wrote it: what a known proxy
    /// passes on, or else `url`.
    pub fn user_facing_request_url(
        &self,
        peer: &IpAddress,
        headers: &Vec<RawHeader>,
        url: &str,
    ) -> (r: String)
        ensures
            r@ == match forwarded_url(self.proxy_redirs@, *peer, headers@) {
                Some(u) => u,
                None => url@,
            },
    {
        let mut i: usize = 0;
        assert(self.proxy_redirs@.skip(0) =~= self.proxy_redirs@);
        while i < self.proxy_redirs.len()
            invariant
                i <= self.proxy_redirs.len(),
                forwarded_url(self.proxy_redirs@, *peer, headers@) == forwarded_url(
                    self.proxy_redirs@.skip(i as int),
                    *peer,
                    headers@,
                ),
            decreases self.proxy_redirs.len() - i,
        {
            assert(self.proxy_redirs@.skip(i as int).skip(1) =~= self.proxy_redirs@.skip(i + 1));
            let row = &self.proxy_redirs[i];
            if network_contains(&row.0, peer) {
                match find_raw(headers, row.1.as_str()) {
                    Some(values) => {
                        if values.len() > 0 {
                            match core::str::from_utf8(values[0].as_slice()) {
                                Ok(text) => {
                                    proof {
                                        vstd::utf8::encode_utf8_decode_utf8(text@);
                                    }
                                    return string_of(&chars_of(text));
                                },
                                Err(_) => {},
                            }
                        }
                    },
                    None => {},
                }
            }
            i = i + 1;
        }
        string_of(&chars_of(url))
    }

    /// What the server knows of the file at `path`: `len` bytes long, number
    /// `file_id` on `volume`, last changed `mtime` seconds after the epoch, with
    /// the extension `ext`, and binary or not. The time is written for headers
    /// where `file_time_modified` writes it, and is left empty otherwise.
    pub fn file_facts(
        &self,
        path: &str,
        len: u64,
        volume: u64,
        file_id: u64,
        mtime: u64,
        ext: &str,
        binary: bool,
    ) -> (f: FileFacts)
        ensures
            f.path@ == path@,
            f.len == len,
            f.etag@ == etag_text(volume, file_id, mtime),
            f.mtime == if mtime <= LAST_SECOND {
                mtime as i64
            } else {
                i64::MAX
            },
            f.modified@ == if mtime <= LAST_SECOND {
                http_date_text(mtime as i64)
            } else {
                Seq::<char>::empty()
            },
            f.mime@ == mime_for(self.mime_type_overrides@, ext@, binary),
    {
        let secs: i64 = if mtime <= LAST_SECOND as u64 {
            mtime as i64
        } else {
            i64::MAX
        };
        let modified = match file_time_modified(secs) {
            Some(text) => text,
            None => String::new(),
        };
        FileFacts {
            path: string_of(&chars_of(path)),
            len,
            etag: file_etag(volume, file_id, mtime),
            modified,
            mtime: secs,
            mime: self.guess_mime_type(ext, binary),
        }
    }

    /// The media type of a file with the extension `ext`, whose contents are
    /// binary data or not.
    pub fn guess_mime_type(&self, ext: &str, binary: bool) -> (r: String)
        ensures
            r@ == mime_for(self.mime_type_overrides@, ext@, binary),
    {
        let low = to_lowercase(ext);
        let want = chars_of(low.as_str());
        let mut i: usize = 0;
        while i < self.mime_type_overrides.len()
            invariant
                i <= self.mime_type_overrides.len(),
                want@ == lowercase_of(ext@),
                forall|j: int|
                    0 <= j < i ==> (#[trigger] self.mime_type_overrides@[j]).0@ != lowercase_of(
                        ext@,
                    ),
            decreases self.mime_type_overrides.len() - i,
        {
            if same(&chars_of(self.mime_type_overrides[i].0.as_str()), &want) {
                proof {
                    lemma_override_index(self.mime_type_overrides@, lowercase_of(ext@), i as int);
                }
                return self.mime_type_overrides[i].1.clone();
            }
            i = i + 1;
        }
        proof {
            lemma_override_index(self.mime_type_overrides@, lowercase_of(ext@), i as int);
        }
        match get_mime_type_str(low.as_str()) {
            Some(m) => m,
            None => if binary {
                string_of(&chars_of("application/octet-stream"))
            } else {
                string_of(&chars_of("text/plain"))
            },
        }
    }
}

} // verus!
