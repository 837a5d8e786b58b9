//! Request handling: the decisions a file server takes between reading a
//! request and writing its response.

pub mod auth;
pub mod cache;
pub mod credentials;
pub mod dispatch;
pub mod encode;
pub mod encoded;
pub mod file;
pub mod generated;
pub mod get;
pub mod listing;
pub mod pages;
pub mod ports;
pub mod prune;
pub mod rawfs;
pub mod resolve;
pub mod response;
pub mod write;

pub use self::credentials::generate_auth_data;
pub use self::ports::try_ports;
pub use self::prune::PruneChain;

use crate::ops::auth::{asked, Credentials, PathPolicy};
use crate::ops::cache::Cache;
use crate::ops::response::{method_names, Method};
use crate::text::{append_str, chars_of, find_char, index_of, lemma_index_of, slice, string_of};
use vstd::prelude::*;

verus! {

/// How much the server reports of what it does.
#[derive(Debug, Clone, Copy, PartialEq, Eq, Structural)]
pub enum LogLevel {
    All,
    NoServeStatus,
    NoStartup,
    NoAuth,
}

/// A block of addresses: those that share their first bits, as many as the
/// length says, with the block's own address.
#[derive(Debug, Clone, Copy, PartialEq, Eq, Structural)]
pub enum Cidr {
    /// An address of 32 bits and a length of at most 32.
    V4(u32, u8),
    /// An address of 128 bits and a length of at most 128.
    V6(u128, u8),
}

/// The address of a peer.
#[derive(Debug, Clone, Copy, PartialEq, Eq, Structural)]
pub enum IpAddress {
    V4(u32),
    V6(u128),
}

/// What the server is started with.
pub struct Options {
    /// The hosted directory: its name as given, and its path.
    pub hosted_directory: (String, String),
    pub follow_symlinks: bool,
    pub sandbox_symlinks: bool,
    pub generate_listings: bool,
    pub check_indices: bool,
    pub strip_extensions: bool,
    pub loglevel: LogLevel,
    pub log_colour: bool,
    pub webdav: bool,
    pub allow_writes: bool,
    pub encode_fs: bool,
    /// For each guarded path the credentials as `name` or `name:password`, or
    /// `None` where the path needs none. The empty path stands for all paths.
    /// Of several entries for one path the first counts.
    pub path_auth_data: Vec<(String, Option<String>)>,
    /// The directory for temporary files: its name as given, and its path.
    pub temp_directory: (String, String),
    pub encoded_filesystem_limit: Option<u64>,
    pub encoded_generated_limit: Option<u64>,
    /// After how many seconds without use an encoded body is dropped.
    pub encoded_prune: Option<u64>,
    /// For each network of proxies, the header in which they name the client.
    /// Of several rows for one network the first counts.
    pub proxies: Vec<(Cidr, String)>,
    /// For each network of proxies, the header in which they give the address
    /// that the client asked for. Of several rows for one network the first
    /// counts.
    pub proxy_redirs: Vec<(Cidr, String)>,
    /// Media types by extension, which go before the built-in ones. Of
    /// several for one extension the first counts.
    pub mime_type_overrides: Vec<(String, String)>,
    pub additional_headers: Vec<(String, Vec<u8>)>,
    /// The extensions, in lower case, of formats that are compressed already.
    pub encoding_blacklist: Vec<String>,
}

/// The state of the server between requests.
pub struct HttpHandler {
    pub hosted_directory: (String, String),
    pub follow_symlinks: bool,
    pub sandbox_symlinks: bool,
    pub generate_listings: bool,
    pub check_indices: bool,
    pub strip_extensions: bool,
    /// Whether to log at all, and whether in colour.
    pub log: (bool, bool),
    pub webdav: bool,
    pub global_auth_data: Option<Credentials>,
    pub path_auth_data: Vec<PathPolicy>,
    pub writes_temp_dir: Option<(String, String)>,
    pub encoded_temp_dir: Option<(String, String)>,
    pub proxies: Vec<(Cidr, String)>,
    pub proxy_redirs: Vec<(Cidr, String)>,
    pub mime_type_overrides: Vec<(String, String)>,
    pub additional_headers: Vec<(String, Vec<u8>)>,
    pub encoding_blacklist: Vec<String>,
    /// Encoded bodies of generated pages.
    pub cache_gen: Cache,
    /// The fingerprint of each file that was hashed, by the file's entity tag.
    pub cache_fs_files: Vec<(String, Vec<u8>)>,
    /// Encoded copies of files.
    pub cache_fs: Cache,
    pub encoded_filesystem_limit: u64,
    pub encoded_generated_limit: u64,
    pub allowed_methods: Vec<Method>,
}

/// The user name in `auth`: what stands before the first colon.
pub open spec fn username_of(auth: Seq<char>) -> Seq<char> {
    auth.take(index_of(auth, ':'))
}

/// The password in `auth`: what stands between the first colon and the
/// second, unless nothing follows the first.
pub open spec fn password_of(auth: Seq<char>) -> Option<Seq<char>> {
    let i = index_of(auth, ':');
    if i + 1 >= auth.len() {
        None
    } else {
        let rest = auth.skip(i + 1);
        Some(rest.take(index_of(rest, ':')))
    }
}

/// Reads credentials from `name` or `name:password`.
pub fn parse_credentials(auth: &str) -> (c: Credentials)
    ensures
        c@ == (username_of(auth@), password_of(auth@)),
{
    let all = chars_of(auth);
    proof {
        lemma_index_of(all@, ':');
    }
    let i = find_char(&all, ':');
    let username = string_of(&slice(&all, 0, i));
    assert(username@ =~= username_of(auth@));
    if all.len() - i <= 1 {
        Credentials { username, password: None }
    } else {
        let rest = slice(&all, i + 1, all.len());
        assert(rest@ =~= all@.skip(i + 1));
        proof {
            lemma_index_of(rest@, ':');
        }
        let j = find_char(&rest, ':');
        let password = string_of(&slice(&rest, 0, j));
        assert(password@ =~= rest@.take(j as int));
        Credentials { username, password: Some(password) }
    }
}

/// The credentials that an entry of the options asks for.
pub open spec fn asked_by(auth: Option<String>) -> Option<(Seq<char>, Option<Seq<char>>)> {
    match auth {
        Some(a) => Some((username_of(a@), password_of(a@))),
        None => None,
    }
}

/// Some policy of `policies` is for `path`.
pub open spec fn names_path(
    policies: Seq<(Seq<char>, Option<(Seq<char>, Option<Seq<char>>)>)>,
    path: Seq<char>,
) -> bool {
    exists|i: int| 0 <= i < policies.len() && (#[trigger] policies[i]).0 == path
}

/// The policies of the paths of `data`, in order. The empty path is left out,
/// and of several entries for one path the first counts.
pub open spec fn path_policies(data: Seq<(String, Option<String>)>) -> Seq<
    (Seq<char>, Option<(Seq<char>, Option<Seq<char>>)>),
>
    decreases data.len(),
{
    if data.len() == 0 {
        Seq::empty()
    } else {
        let before = path_policies(data.drop_last());
        if data.last().0@.len() == 0 || names_path(before, data.last().0@) {
            before
        } else {
            before.push((data.last().0@, asked_by(data.last().1)))
        }
    }
}

/// Some entry of `data` is for the empty path.
pub open spec fn has_global(data: Seq<(String, Option<String>)>) -> bool {
    exists|i: int| 0 <= i < data.len() && (#[trigger] data[i]).0@.len() == 0
}

/// The policy of the empty path in `data`: that of the first entry for it.
pub open spec fn global_policy(data: Seq<(String, Option<String>)>) -> Option<
    (Seq<char>, Option<Seq<char>>),
>
    decreases data.len(),
{
    if data.len() == 0 {
        None
    } else if has_global(data.drop_last()) {
        global_policy(data.drop_last())
    } else if data.last().0@.len() == 0 {
        asked_by(data.last().1)
    } else {
        None
    }
}

/// No two policies are for the same path.
pub open spec fn distinct_paths(policies: Seq<PathPolicy>) -> bool {
    forall|i: int, j: int| 0 <= i < j < policies.len() ==> policies[i].path@ != policies[j].path@
}

/// Some row of `rows` is for the network `network`.
pub open spec fn has_network(rows: Seq<(Cidr, String)>, network: Cidr) -> bool {
    exists|i: int| 0 <= i < rows.len() && (#[trigger] rows[i]).0 == network
}

/// The rows of `rows`, in order; of several rows for one network the first
/// counts.
pub open spec fn unique_rows(rows: Seq<(Cidr, String)>) -> Seq<(Cidr, String)>
    decreases rows.len(),
{
    if rows.len() == 0 {
        rows
    } else if has_network(unique_rows(rows.drop_last()), rows.last().0) {
        unique_rows(rows.drop_last())
    } else {
        unique_rows(rows.drop_last()).push(rows.last())
    }
}

/// No two rows are for the same network.
pub open spec fn distinct_networks(rows: Seq<(Cidr, String)>) -> bool {
    forall|i: int, j: int| 0 <= i < j < rows.len() ==> rows[i].0 != rows[j].0
}

/// Some override of `rows` is for the extension `ext`.
pub open spec fn has_extension(rows: Seq<(String, String)>, ext: Seq<char>) -> bool {
    exists|i: int| 0 <= i < rows.len() && (#[trigger] rows[i]).0@ == ext
}

/// The overrides of `rows`, in order; of several for one extension the first
/// counts.
pub open spec fn unique_overrides(rows: Seq<(String, String)>) -> Seq<(String, String)>
    decreases rows.len(),
{
    if rows.len() == 0 {
        rows
    } else if has_extension(unique_overrides(rows.drop_last()), rows.last().0@) {
        unique_overrides(rows.drop_last())
    } else {
        unique_overrides(rows.drop_last()).push(rows.last())
    }
}

/// No two overrides are for the same extension.
pub open spec fn distinct_extensions(rows: Seq<(String, String)>) -> bool {
    forall|i: int, j: int| 0 <= i < j < rows.len() ==> rows[i].0@ != rows[j].0@
}

/// Drops the rows whose network an earlier row has.
pub fn unique_networks(rows: &Vec<(Cidr, String)>) -> (r: Vec<(Cidr, String)>)
    ensures
        r@ == unique_rows(rows@),
        distinct_networks(r@),
{
    let mut out: Vec<(Cidr, String)> = Vec::new();
    let mut i: usize = 0;
    assert(rows@.take(0) =~= Seq::empty());
    while i < rows.len()
        invariant
            i <= rows.len(),
            out@ == unique_rows(rows@.take(i as int)),
            distinct_networks(out@),
        decreases rows.len() - i,
    {
        let network = rows[i].0;
        let mut k: usize = 0;
        while k < out.len() && out[k].0 != network
            invariant
                k <= out.len(),
                forall|j: int| 0 <= j < k ==> (#[trigger] out@[j]).0 != network,
            decreases out.len() - k,
        {
            k = k + 1;
        }
        proof {
            let t = rows@.take(i + 1);
            assert(t.drop_last() =~= rows@.take(i as int));
            assert(t.last() == rows@[i as int]);
            if k < out.len() {
                assert(out@[k as int].0 == network);
            }
        }
        if k == out.len() {
            out.push((network, rows[i].1.clone()));
            assert(out@.last() == rows@[i as int]);
        }
        i = i + 1;
    }
    assert(rows@.take(i as int) =~= rows@);
    out
}

/// Drops the overrides whose extension an earlier one has.
pub fn unique_extensions(rows: &Vec<(String, String)>) -> (r: Vec<(String, String)>)
    ensures
        r@ == unique_overrides(rows@),
        distinct_extensions(r@),
{
    let mut out: Vec<(String, String)> = Vec::new();
    let mut i: usize = 0;
    assert(rows@.take(0) =~= Seq::empty());
    while i < rows.len()
        invariant
            i <= rows.len(),
            out@ == unique_overrides(rows@.take(i as int)),
            distinct_extensions(out@),
        decreases rows.len() - i,
    {
        let mut k: usize = 0;
        while k < out.len() && out[k].0 != rows[i].0
            invariant
                k <= out.len(),
                i < rows.len(),
                forall|j: int| 0 <= j < k ==> (#[trigger] out@[j]).0@ != rows@[i as int].0@,
            decreases out.len() - k,
        {
            k = k + 1;
        }
        proof {
            let t = rows@.take(i + 1);
            assert(t.drop_last() =~= rows@.take(i as int));
            assert(t.last() == rows@[i as int]);
            if k < out.len() {
                assert(out@[k as int].0@ == rows@[i as int].0@);
            }
        }
        if k == out.len() {
            out.push((rows[i].0.clone(), rows[i].1.clone()));
            assert(out@.last() == rows@[i as int]);
        }
        i = i + 1;
    }
    assert(rows@.take(i as int) =~= rows@);
    out
}

/// Policies as texts.
pub open spec fn policy_views(policies: Seq<PathPolicy>) -> Seq<
    (Seq<char>, Option<(Seq<char>, Option<Seq<char>>)>),
> {
    Seq::new(policies.len(), |i: int| (policies[i].path@, asked(policies[i].credentials)))
}

/// The methods that the server answers: those of WebDAV where that is on,
/// then the ones that read, then the ones that write where writing is on.
pub open spec fn allowed_names(webdav: bool, allow_writes: bool) -> Seq<Seq<char>> {
    let dav = if webdav {
        seq!["COPY"@, "MKCOL"@, "MOVE"@, "PROPFIND"@, "PROPPATCH"@]
    } else {
        Seq::empty()
    };
    let writes = if allow_writes {
        seq!["PUT"@, "DELETE"@]
    } else {
        Seq::empty()
    };
    dav + seq!["OPTIONS"@, "GET"@, "HEAD"@, "TRACE"@] + writes
}

fn extension(name: &str) -> (m: Method)
    ensures
        m.name() == name@,
{
    Method::Extension(string_of(&chars_of(name)))
}

/// The methods that a server with these two switches answers.
pub fn allowed_methods(webdav: bool, allow_writes: bool) -> (r: Vec<Method>)
    ensures
        method_names(r@) == allowed_names(webdav, allow_writes),
{
    let mut r: Vec<Method> = Vec::new();
    if webdav {
        r.push(extension("COPY"));
        r.push(extension("MKCOL"));
        r.push(extension("MOVE"));
        r.push(extension("PROPFIND"));
        r.push(extension("PROPPATCH"));
    }
    r.push(Method::Options);
    r.push(Method::Get);
    r.push(Method::Head);
    r.push(Method::Trace);
    if allow_writes {
        r.push(Method::Put);
        r.push(Method::Delete);
    }
    assert(method_names(r@) =~= allowed_names(webdav, allow_writes));
    r
}

/// `dir` with `name` below it: with a slash between them unless `dir` ends in
/// a slash or a backslash.
pub open spec fn below(dir: Seq<char>, name: Seq<char>) -> Seq<char> {
    if dir.len() > 0 && (dir.last() == '/' || dir.last() == '\\') {
        dir + name
    } else {
        dir + seq!['/'] + name
    }
}

/// The path of `name` in the directory `dir`.
pub fn join_below(dir: &str, name: &str) -> (r: String)
    ensures
        r@ == below(dir@, name@),
{
    let mut out = chars_of(dir);
    let n = out.len();
    if !(n > 0 && (out[n - 1] == '/' || out[n - 1] == '\\')) {
        out.push('/');
    }
    append_str(&mut out, name);
    string_of(&out)
}

impl HttpHandler {
    /// The caches keep their books, see `Cache::wf`; and where the handler
    /// looks things up by a key, each key occurs once: a path has one policy,
    /// a network one header, an extension one media type, and an entity tag one
    /// fingerprint.
    pub open spec fn wf(&self) -> bool {
        &&& self.cache_gen.wf()
        &&& self.cache_fs.wf()
        &&& distinct_paths(self.path_auth_data@)
        &&& distinct_networks(self.proxies@)
        &&& distinct_networks(self.proxy_redirs@)
        &&& distinct_extensions(self.mime_type_overrides@)
        &&& crate::ops::encoded::distinct_tags(
            crate::ops::encoded::print_views(self.cache_fs_files@),
        )
    }

    /// `self` is set up as `other` is: they differ at most in what they have
    /// cached.
    pub open spec fn same_settings(&self, other: &HttpHandler) -> bool {
        &&& self.hosted_directory == other.hosted_directory
        &&& self.follow_symlinks == other.follow_symlinks
        &&& self.sandbox_symlinks == other.sandbox_symlinks
        &&& self.generate_listings == other.generate_listings
        &&& self.check_indices == other.check_indices
        &&& self.strip_extensions == other.strip_extensions
        &&& self.log == other.log
        &&& self.webdav == other.webdav
        &&& self.global_auth_data == other.global_auth_data
        &&& self.path_auth_data == other.path_auth_data
        &&& self.writes_temp_dir == other.writes_temp_dir
        &&& self.encoded_temp_dir == other.encoded_temp_dir
        &&& self.proxies == other.proxies
        &&& self.proxy_redirs == other.proxy_redirs
        &&& self.mime_type_overrides == other.mime_type_overrides
        &&& self.additional_headers == other.additional_headers
        &&& self.encoding_blacklist == other.encoding_blacklist
        &&& self.encoded_filesystem_limit == other.encoded_filesystem_limit
        &&& self.encoded_generated_limit == other.encoded_generated_limit
        &&& self.allowed_methods == other.allowed_methods
    }

    /// The subdirectory `name` of the temporary directory, where `flag` asks
    /// for it: its name for people, and its path.
    pub fn temp_subdir(temp: &(String, String), flag: bool, name: &str) -> (r: Option<
        (String, String),
    >)
        ensures
            match r {
                Some(d) => flag && d.0@ == below(temp.0@, name@) && d.1@ == below(temp.1@, name@),
                None => !flag,
            },
    {
        if flag {
            Some((join_below(temp.0.as_str(), name), join_below(temp.1.as_str(), name)))
        } else {
            None
        }
    }

    /// `self` is the handler that a server with the options `opts` starts
    /// with: set up as the options say, with nothing cached yet.
    pub open spec fn made_from(&self, opts: Options) -> bool {
        &&& self.wf()
        &&& self.cache_gen@.len() == 0
        &&& self.cache_fs@.len() == 0
        &&& self.cache_fs_files@.len() == 0
        &&& self.hosted_directory == opts.hosted_directory
        &&& self.follow_symlinks == opts.follow_symlinks
        &&& self.sandbox_symlinks == opts.sandbox_symlinks
        &&& self.generate_listings == opts.generate_listings
        &&& self.check_indices == opts.check_indices
        &&& self.strip_extensions == opts.strip_extensions
        &&& self.log == ((opts.loglevel is All, opts.log_colour))
        &&& self.webdav == opts.webdav
        &&& asked(self.global_auth_data) == global_policy(opts.path_auth_data@)
        &&& policy_views(self.path_auth_data@) == path_policies(opts.path_auth_data@)
        &&& match self.writes_temp_dir {
            Some(d) => opts.allow_writes && d.0@ == below(opts.temp_directory.0@, "writes"@)
                && d.1@ == below(opts.temp_directory.1@, "writes"@),
            None => !opts.allow_writes,
        }
        &&& match self.encoded_temp_dir {
            Some(d) => opts.encode_fs && d.0@ == below(opts.temp_directory.0@, "encoded"@)
                && d.1@ == below(opts.temp_directory.1@, "encoded"@),
            None => !opts.encode_fs,
        }
        &&& self.proxies@ == unique_rows(opts.proxies@)
        &&& self.proxy_redirs@ == unique_rows(opts.proxy_redirs@)
        &&& self.mime_type_overrides@ == unique_overrides(opts.mime_type_overrides@)
        &&& self.additional_headers == opts.additional_headers
        &&& self.encoding_blacklist == opts.encoding_blacklist
        &&& self.encoded_filesystem_limit == match opts.encoded_filesystem_limit {
            Some(l) => l,
            None => u64::MAX,
        }
        &&& self.encoded_generated_limit == match opts.encoded_generated_limit {
            Some(l) => l,
            None => u64::MAX,
        }
        &&& method_names(self.allowed_methods@) == allowed_names(opts.webdav, opts.allow_writes)
    }

    /// The handler that a server with the options `opts` starts with: nothing
    /// is cached yet.
    pub fn new(opts: Options) -> (h: HttpHandler)
        ensures
            h.made_from(opts),
    {
        let mut path_auth_data: Vec<PathPolicy> = Vec::new();
        let mut global_auth_data: Option<Credentials> = None;
        let mut seen_global = false;
        let mut i: usize = 0;
        assert(opts.path_auth_data@.take(0) =~= Seq::empty());
        assert(policy_views(path_auth_data@) =~= Seq::empty());
        while i < opts.path_auth_data.len()
            invariant
                i <= opts.path_auth_data.len(),
                seen_global == has_global(opts.path_auth_data@.take(i as int)),
                asked(global_auth_data) == global_policy(opts.path_auth_data@.take(i as int)),
                policy_views(path_auth_data@) == path_policies(
                    opts.path_auth_data@.take(i as int),
                ),
                distinct_paths(path_auth_data@),
            decreases opts.path_auth_data.len() - i,
        {
            let ghost before = policy_views(path_auth_data@);
            let ghost taken = opts.path_auth_data@.take(i as int);
            let ghost next = opts.path_auth_data@.take(i + 1);
            proof {
                assert(next.drop_last() =~= taken);
                assert(next.last() == opts.path_auth_data@[i as int]);
                if has_global(next) && !has_global(taken) {
                    let w = choose|w: int| 0 <= w < next.len() && (#[trigger] next[w]).0@.len() == 0;
                    if w < i {
                        assert(taken[w] == next[w]);
                    }
                }
                if has_global(taken) {
                    let w = choose|w: int|
                        0 <= w < taken.len() && (#[trigger] taken[w]).0@.len() == 0;
                    assert(next[w] == taken[w]);
                }
            }
            let path = opts.path_auth_data[i].0.as_str();
            if path.unicode_len() == 0 {
                if !seen_global {
                    global_auth_data = match &opts.path_auth_data[i].1 {
                        Some(auth) => Some(parse_credentials(auth.as_str())),
                        None => None,
                    };
                    seen_global = true;
                }
                assert(next[i as int].0@.len() == 0);
            } else {
                let want = chars_of(path);
                let mut k: usize = 0;
                while k < path_auth_data.len() && !crate::text::same(
                    &chars_of(path_auth_data[k].path.as_str()),
                    &want,
                )
                    invariant
                        k <= path_auth_data.len(),
                        want@ == path@,
                        forall|j: int| 0 <= j < k ==> (#[trigger] path_auth_data@[j]).path@ != path@,
                    decreases path_auth_data.len() - k,
                {
                    k = k + 1;
                }
                proof {
                    if k < path_auth_data.len() {
                        assert(before[k as int].0 == path@);
                    } else {
                        assert forall|j: int| 0 <= j < before.len() implies (#[trigger] before[j]).0
                            != path@ by {
                            assert(path_auth_data@[j].path@ != path@);
                        }
                    }
                }
                if k == path_auth_data.len() {
                    let creds: Option<Credentials> = match &opts.path_auth_data[i].1 {
                        Some(auth) => Some(parse_credentials(auth.as_str())),
                        None => None,
                    };
                    let policy = PathPolicy {
                        path: string_of(&chars_of(path)),
                        credentials: creds,
                    };
                    path_auth_data.push(policy);
                    assert(policy_views(path_auth_data@) =~= before.push(
                        (path@, asked_by(opts.path_auth_data@[i as int].1)),
                    ));
                }
            }
            i = i + 1;
        }
        assert(opts.path_auth_data@.take(i as int) =~= opts.path_auth_data@);
        let proxies = unique_networks(&opts.proxies);
        let proxy_redirs = unique_networks(&opts.proxy_redirs);
        let mime_type_overrides = unique_extensions(&opts.mime_type_overrides);
        let writes_temp_dir = HttpHandler::temp_subdir(
            &opts.temp_directory,
            opts.allow_writes,
            "writes",
        );
        let encoded_temp_dir = HttpHandler::temp_subdir(
            &opts.temp_directory,
            opts.encode_fs,
            "encoded",
        );
        let log_all = match opts.loglevel {
            LogLevel::All => true,
            _ => false,
        };
        HttpHandler {
            hosted_directory: opts.hosted_directory,
            follow_symlinks: opts.follow_symlinks,
            sandbox_symlinks: opts.sandbox_symlinks,
            generate_listings: opts.generate_listings,
            check_indices: opts.check_indices,
            strip_extensions: opts.strip_extensions,
            log: (log_all, opts.log_colour),
            webdav: opts.webdav,
            global_auth_data,
            path_auth_data,
            writes_temp_dir,
            encoded_temp_dir,
            proxies,
            proxy_redirs,
            mime_type_overrides,
            additional_headers: opts.additional_headers,
            encoding_blacklist: opts.encoding_blacklist,
            cache_gen: Cache::new(),
            cache_fs_files: Vec::new(),
            cache_fs: Cache::new(),
            encoded_filesystem_limit: match opts.encoded_filesystem_limit {
                Some(l) => l,
                None => u64::MAX,
            },
            encoded_generated_limit: match opts.encoded_generated_limit {
                Some(l) => l,
                None => u64::MAX,
            },
            allowed_methods: allowed_methods(opts.webdav, opts.allow_writes),
        }
    }
}

} // verus!
