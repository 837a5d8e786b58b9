use https::ops::cache::{CacheKey, Cached};
use https::ops::encode::{file_hash, to_hex, Accepted};
use https::ops::encoded::EncodeStep;
use https::ops::file::FileFacts;
use https::ops::response::{Body, Response};
use https::ops::{HttpHandler, LogLevel, Options};

fn handler(encode_fs: bool, limit: Option<u64>) -> HttpHandler {
    HttpHandler::new(Options {
        hosted_directory: ("./www".to_string(), "/srv/www".to_string()),
        follow_symlinks: true,
        sandbox_symlinks: true,
        generate_listings: true,
        check_indices: true,
        strip_extensions: false,
        loglevel: LogLevel::All,
        log_colour: false,
        webdav: false,
        allow_writes: false,
        encode_fs,
        path_auth_data: vec![],
        temp_directory: ("$TEMP/http".to_string(), "/tmp/http".to_string()),
        encoded_filesystem_limit: limit,
        encoded_generated_limit: None,
        encoded_prune: None,
        proxies: vec![],
        proxy_redirs: vec![],
        mime_type_overrides: vec![],
        additional_headers: vec![],
        encoding_blacklist: vec!["mp4".to_string()],
    })
}

fn index() -> FileFacts {
    FileFacts {
        path: "/srv/www/index.html".to_string(),
        len: 100 * 1024,
        etag: "801-7-1700000000".to_string(),
        modified: "Tue, 14 Nov 2023 22:13:20 GMT".to_string(),
        mtime: 1_700_000_000,
        mime: "text/html".to_string(),
    }
}

fn gzip() -> Vec<Accepted> {
    vec![Accepted { name: "gzip".to_string(), quality: 1000 }]
}

fn lines(response: &Response) -> Vec<(String, String)> {
    response.headers.iter().map(|h| (h.name.clone(), h.value.clone())).collect()
}

fn line(name: &str, value: &str) -> (String, String) {
    (name.to_string(), value.to_string())
}

fn encoded_lines() -> Vec<(String, String)> {
    vec![
        line("Server", "http/0.1.0"),
        line("Last-Modified", "Tue, 14 Nov 2023 22:13:20 GMT"),
        line("Accept-Ranges", "bytes"),
        line("ETag", "\"801-7-1700000000\""),
        line("Content-Encoding", "gzip"),
        line("Content-Type", "text/html"),
    ]
}

fn identity_lines() -> Vec<(String, String)> {
    vec![
        line("Server", "http/0.1.0"),
        line("Last-Modified", "Tue, 14 Nov 2023 22:13:20 GMT"),
        line("Accept-Ranges", "bytes"),
        line("ETag", "\"801-7-1700000000\""),
        line("Content-Length", "102400"),
        line("Content-Type", "text/html"),
    ]
}

fn hash() -> Vec<u8> {
    file_hash(&b"<html>".repeat(17067)[..])
}

fn target() -> String {
    format!("/tmp/http/encoded/{}.html.gz", to_hex(&hash()))
}

/// Walks a request for `index()` through the handler as a server would, with
/// an encoder that makes a copy of `encoded` bytes.
fn get(h: &mut HttpHandler, accept: &Vec<Accepted>, encoded: Option<u64>, now: u64) -> (Response, Vec<&'static str>) {
    let f = index();
    let mut did = vec![];
    let mut step = h.handle_get_file_encoded(&f, Some("html"), accept, now);
    loop {
        step = match step {
            EncodeStep::Done(r) => return (r, did),
            EncodeStep::Hash(encoding) => {
                did.push("hashed");
                h.file_hashed("/tmp/http/encoded", &f, Some("html"), encoding, hash(), now)
            }
            EncodeStep::Encode { key, target } => {
                did.push("encoded");
                let (r, delete) = h.file_encoded(&f, key, target, encoded, now);
                if delete {
                    did.push("deleted");
                }
                return (r, did);
            }
        }
    }
}

#[test]
fn a_file_is_hashed_encoded_and_cached() {
    let mut h = handler(true, None);
    let (r, did) = get(&mut h, &gzip(), Some(20 * 1024), 5);
    assert_eq!(did, ["hashed", "encoded"]);
    assert_eq!(r.status, 200);
    assert_eq!(lines(&r), encoded_lines());
    assert!(matches!(&r.body, Body::File(p) if *p == target()));
    assert_eq!(h.cache_fs.len(), 1);
    assert_eq!(h.cache_fs.size(), 20 * 1024);
    assert_eq!(h.cache_fs.get(0).atime, 5);
    assert!(h.cache_fs.get(0).key.same(&CacheKey::new(hash(), "gzip".to_string())));
    assert!(matches!(&h.cache_fs.get(0).content, Cached::File { path, size: 20480 } if *path == target()));
    assert_eq!(h.cache_fs_files, vec![("801-7-1700000000".to_string(), hash())]);
    assert_eq!(h.fingerprint_of("801-7-1700000000"), Some(hash()));
    assert_eq!(h.fingerprint_of("801-7-1700000001"), None);
}

#[test]
fn the_second_request_is_answered_from_the_cache() {
    let mut h = handler(true, None);
    let (first, _) = get(&mut h, &gzip(), Some(20 * 1024), 5);
    let (second, did) = get(&mut h, &gzip(), Some(20 * 1024), 8);
    assert!(did.is_empty());
    assert_eq!(second.status, 200);
    assert_eq!(lines(&second), lines(&first));
    assert!(matches!((&first.body, &second.body), (Body::File(a), Body::File(b)) if a == b));
    assert_eq!(h.cache_fs.len(), 1);
    assert_eq!(h.cache_fs.size(), 20 * 1024);
    assert_eq!(h.cache_fs.get(0).atime, 8);
}

#[test]
fn another_encoding_needs_no_second_hash() {
    let mut h = handler(true, None);
    get(&mut h, &gzip(), Some(20 * 1024), 5);
    let br = vec![Accepted { name: "br".to_string(), quality: 1000 }];
    let (r, did) = get(&mut h, &br, Some(15 * 1024), 6);
    assert_eq!(did, ["encoded"]);
    assert_eq!(r.headers[4].value, "br");
    assert!(matches!(&r.body, Body::File(p) if *p == format!("/tmp/http/encoded/{}.html.br", to_hex(&hash()))));
    assert_eq!(h.cache_fs.len(), 2);
    assert_eq!(h.cache_fs.size(), 35 * 1024);
    assert_eq!(h.cache_fs_files.len(), 1);
}

#[test]
fn a_copy_that_does_not_pay_is_given_up() {
    let mut h = handler(true, None);
    // 100 KiB to 95 KiB is a gain of less than a tenth.
    let (r, did) = get(&mut h, &gzip(), Some(95 * 1024), 5);
    assert_eq!(did, ["hashed", "encoded", "deleted"]);
    assert_eq!(r.status, 200);
    assert_eq!(lines(&r), identity_lines());
    assert!(matches!(&r.body, Body::File(p) if p == "/srv/www/index.html"));
    assert_eq!(h.cache_fs.len(), 1);
    assert_eq!(h.cache_fs.size(), 0);
    assert_eq!(h.cache_fs.get(0).atime, u64::MAX);
    assert!(matches!(h.cache_fs.get(0).content, Cached::Rejected));
}

#[test]
fn what_was_given_up_is_not_tried_again() {
    let mut h = handler(true, None);
    get(&mut h, &gzip(), Some(95 * 1024), 5);
    let (r, did) = get(&mut h, &gzip(), Some(95 * 1024), 6);
    assert!(did.is_empty());
    assert_eq!(r.status, 200);
    assert_eq!(
        lines(&r),
        [
            line("Server", "http/0.1.0"),
            line("Last-Modified", "Tue, 14 Nov 2023 22:13:20 GMT"),
            line("Accept-Ranges", "bytes"),
            line("ETag", "\"801-7-1700000000\""),
            line("Content-Type", "text/html"),
        ]
    );
    assert!(matches!(&r.body, Body::File(p) if p == "/srv/www/index.html"));
    assert_eq!(h.cache_fs.get(0).atime, u64::MAX);
}

#[test]
fn the_gain_must_be_a_tenth() {
    let kept = |original: u64, encoded: u64| {
        let mut h = handler(true, None);
        let mut f = index();
        f.len = original;
        let key = CacheKey::new(hash(), "gzip".to_string());
        let (_, delete) = h.file_encoded(&f, key, target(), Some(encoded), 1);
        !delete
    };
    assert!(kept(1100, 1000));
    assert!(!kept(1099, 1000));
    assert!(kept(11, 10));
    assert!(!kept(10, 10));
    assert!(kept(2048, 1));
    assert!(kept(0, 0));
    assert!(!kept(0, 1));
    assert!(kept(u64::MAX, u64::MAX / 2));
}

#[test]
fn a_copy_over_the_limit_is_given_up() {
    let mut h = handler(true, Some(10 * 1024));
    let (r, did) = get(&mut h, &gzip(), Some(20 * 1024), 5);
    assert_eq!(did, ["hashed", "encoded", "deleted"]);
    assert_eq!(lines(&r), identity_lines());
    assert!(matches!(h.cache_fs.get(0).content, Cached::Rejected));
    assert_eq!(h.cache_fs.size(), 0);
    let mut h = handler(true, Some(20 * 1024));
    let (_, did) = get(&mut h, &gzip(), Some(20 * 1024), 5);
    assert_eq!(did, ["hashed", "encoded"]);
}

#[test]
fn a_failed_encoding_leaves_no_trace() {
    let mut h = handler(true, None);
    let (r, did) = get(&mut h, &gzip(), None, 5);
    assert_eq!(did, ["hashed", "encoded"]);
    assert_eq!(lines(&r), identity_lines());
    assert!(matches!(&r.body, Body::File(p) if p == "/srv/www/index.html"));
    assert_eq!(h.cache_fs.len(), 0);
    let (_, did) = get(&mut h, &gzip(), Some(1024), 6);
    assert_eq!(did, ["encoded"]);
}

#[test]
fn no_encoding_is_asked_for() {
    let mut h = handler(true, None);
    for accept in [vec![], vec![Accepted { name: "identity".to_string(), quality: 1000 }], vec![Accepted { name: "gzip".to_string(), quality: 0 }]] {
        let (r, did) = get(&mut h, &accept, Some(1024), 5);
        assert!(did.is_empty());
        assert_eq!(lines(&r), identity_lines());
        assert!(matches!(&r.body, Body::File(p) if p == "/srv/www/index.html"));
    }
    assert_eq!(h.cache_fs.len(), 0);
    assert!(h.cache_fs_files.is_empty());
}

#[test]
fn no_directory_for_encoded_copies() {
    let mut h = handler(false, None);
    let (r, did) = get(&mut h, &gzip(), Some(1024), 5);
    assert!(did.is_empty());
    assert_eq!(lines(&r), identity_lines());
    assert_eq!(h.cache_fs.len(), 0);
}

#[test]
fn names_of_encoded_copies() {
    let mut h = handler(true, None);
    let f = index();
    let hex = to_hex(&hash());
    let name = |h: &mut HttpHandler, ext: Option<&str>, encoding: &str| {
        match h.file_hashed("/tmp/http/encoded/", &f, ext, encoding.to_string(), hash(), 1) {
            EncodeStep::Encode { target, key } => {
                assert!(key.same(&CacheKey::new(hash(), encoding.to_string())));
                target
            }
            _ => panic!("no copy to make"),
        }
    };
    assert_eq!(name(&mut h, Some("html"), "gzip"), format!("/tmp/http/encoded/{}.html.gz", hex));
    assert_eq!(name(&mut h, None, "gzip"), format!("/tmp/http/encoded/{}.gz", hex));
    assert_eq!(name(&mut h, Some("tar"), "deflate"), format!("/tmp/http/encoded/{}.tar.dflt", hex));
    assert_eq!(name(&mut h, None, "br"), format!("/tmp/http/encoded/{}.br", hex));
    assert_eq!(name(&mut h, Some("txt"), "zstd"), format!("/tmp/http/encoded/{}.txt.zstd", hex));
    assert_eq!(name(&mut h, None, "zstd"), format!("/tmp/http/encoded/{}.zstd", hex));
}

#[test]
fn fingerprints_are_replaced_by_tag() {
    let mut h = handler(true, None);
    h.remember_fingerprint("a", vec![1; 32]);
    h.remember_fingerprint("b", vec![2; 32]);
    h.remember_fingerprint("a", vec![3; 32]);
    assert_eq!(h.cache_fs_files, vec![("a".to_string(), vec![3; 32]), ("b".to_string(), vec![2; 32])]);
    assert_eq!(h.fingerprint_of("a"), Some(vec![3; 32]));
    assert_eq!(h.fingerprint_of("b"), Some(vec![2; 32]));
    assert_eq!(h.fingerprint_of("c"), None);
}
