use https::ops::cache::Cached;
use https::ops::encode::{file_hash, to_hex, Accepted};
use https::ops::file::IfNoneMatch;
use https::ops::response::{Body, Method, Response};
use https::ops::{HttpHandler, LogLevel, Options};
use std::io::Read;

fn handler(limit: Option<u64>) -> HttpHandler {
    HttpHandler::new(Options {
        hosted_directory: ("./www".to_string(), "/srv/www".to_string()),
        follow_symlinks: true,
        sandbox_symlinks: true,
        generate_listings: true,
        check_indices: true,
        strip_extensions: false,
        loglevel: LogLevel::All,
        log_colour: false,
        webdav: false,
        allow_writes: false,
        encode_fs: false,
        path_auth_data: vec![],
        temp_directory: ("$TEMP/http".to_string(), "/tmp/http".to_string()),
        encoded_filesystem_limit: None,
        encoded_generated_limit: limit,
        encoded_prune: None,
        proxies: vec![],
        proxy_redirs: vec![],
        mime_type_overrides: vec![],
        additional_headers: vec![],
        encoding_blacklist: vec![],
    })
}

fn page() -> String {
    format!("<html><body>{}</body></html>", "<p>zażółć gęślą jaźń</p>".repeat(100))
}

fn gzip() -> Vec<Accepted> {
    vec![Accepted { name: "gzip".to_string(), quality: 1000 }]
}

fn lines(response: &Response) -> Vec<(String, String)> {
    response.headers.iter().map(|h| (h.name.clone(), h.value.clone())).collect()
}

fn line(name: &str, value: &str) -> (String, String) {
    (name.to_string(), value.to_string())
}

fn bytes(response: &Response) -> Vec<u8> {
    match &response.body {
        Body::Bytes(b) => b.clone(),
        _ => panic!("no bytes in the body"),
    }
}

#[test]
fn a_page_goes_out_as_it_is_without_accept_encoding() {
    let mut h = handler(None);
    let page = page();
    let tag = format!("\"{}\"", to_hex(&file_hash(page.as_bytes())));
    let r = h.handle_generated_response_encoding(&Method::Get, 200, page.clone(), &None, &vec![], 5);
    assert_eq!(r.status, 200);
    assert_eq!(
        lines(&r),
        [line("Server", "http/0.1.0"), line("ETag", &tag), line("Content-Type", "text/html; charset=utf-8")]
    );
    assert!(matches!(&r.body, Body::Text(t) if *t == page));
    assert_eq!(h.cache_gen.len(), 0);
}

#[test]
fn a_page_is_encoded_and_cached() {
    let mut h = handler(None);
    let page = page();
    let tag = format!("\"{}\"", to_hex(&file_hash(page.as_bytes())));
    let first = h.handle_generated_response_encoding(&Method::Get, 404, page.clone(), &None, &gzip(), 5);
    assert_eq!(first.status, 404);
    assert_eq!(
        lines(&first),
        [
            line("Server", "http/0.1.0"),
            line("Content-Encoding", "gzip"),
            line("ETag", &tag),
            line("Content-Type", "text/html; charset=utf-8"),
        ]
    );
    let mut decoded = String::new();
    flate2::read::GzDecoder::new(&bytes(&first)[..]).read_to_string(&mut decoded).unwrap();
    assert_eq!(decoded, page);
    assert_eq!(h.cache_gen.len(), 1);
    assert_eq!(h.cache_gen.size(), bytes(&first).len() as u64);
    assert_eq!(h.cache_gen.get(0).atime, 5);
    assert_eq!(h.cache_gen.get(0).key.encoding, "gzip");
    assert_eq!(h.cache_gen.get(0).key.fingerprint, file_hash(page.as_bytes()));
    assert!(matches!(&h.cache_gen.get(0).content, Cached::Bytes(b) if *b == bytes(&first)));
}

#[test]
fn the_second_answer_comes_from_the_cache_byte_for_byte() {
    let mut h = handler(None);
    let first = h.handle_generated_response_encoding(&Method::Get, 200, page(), &None, &gzip(), 5);
    let size = h.cache_gen.size();
    let second = h.handle_generated_response_encoding(&Method::Get, 200, page(), &None, &gzip(), 9);
    assert_eq!(second.status, 200);
    assert_eq!(lines(&second), lines(&first));
    assert_eq!(bytes(&second), bytes(&first));
    assert_eq!(h.cache_gen.len(), 1);
    assert_eq!(h.cache_gen.size(), size);
    assert_eq!(h.cache_gen.get(0).atime, 9);
}

#[test]
fn only_the_page_asked_for_is_taken_from_the_cache() {
    let mut h = handler(None);
    let a = h.handle_generated_response_encoding(&Method::Get, 200, page(), &None, &gzip(), 1);
    let b = h.handle_generated_response_encoding(&Method::Get, 200, "<p>other</p>".repeat(50), &None, &gzip(), 2);
    let br = vec![Accepted { name: "br".to_string(), quality: 1000 }];
    let c = h.handle_generated_response_encoding(&Method::Get, 200, page(), &None, &br, 3);
    assert_ne!(bytes(&a), bytes(&b));
    assert_ne!(bytes(&a), bytes(&c));
    assert_eq!(c.headers[1].value, "br");
    assert_eq!(h.cache_gen.len(), 3);
    assert_eq!(h.cache_gen.size(), (bytes(&a).len() + bytes(&b).len() + bytes(&c).len()) as u64);
}

#[test]
fn a_page_over_the_limit_is_encoded_but_not_cached() {
    let mut h = handler(Some(10));
    let r = h.handle_generated_response_encoding(&Method::Get, 200, page(), &None, &gzip(), 5);
    assert_eq!(lines(&r)[1], line("Content-Encoding", "gzip"));
    assert!(bytes(&r).len() > 10);
    assert_eq!(h.cache_gen.len(), 0);
    assert_eq!(h.cache_gen.size(), 0);
}

#[test]
fn a_page_that_the_client_has_is_not_sent_again() {
    let mut h = handler(None);
    let page = page();
    let tag = to_hex(&file_hash(page.as_bytes()));
    let inm = Some(IfNoneMatch::Items(vec!["x".to_string(), tag.clone()]));
    for method in [Method::Get, Method::Head] {
        let r = h.handle_generated_response_encoding(&method, 200, page.clone(), &inm, &gzip(), 5);
        assert_eq!(r.status, 304);
        assert_eq!(
            lines(&r),
            [
                line("Server", "http/0.1.0"),
                line("ETag", &format!("\"{}\"", tag)),
                line("Content-Type", "text/html; charset=utf-8"),
            ]
        );
        assert!(matches!(r.body, Body::Empty));
    }
    assert_eq!(h.cache_gen.len(), 0);
}

#[test]
fn only_good_answers_to_reads_are_revalidated() {
    let mut h = handler(None);
    let page = page();
    let tag = to_hex(&file_hash(page.as_bytes()));
    let inm = Some(IfNoneMatch::Items(vec![tag]));
    let r = h.handle_generated_response_encoding(&Method::Get, 404, page.clone(), &inm, &vec![], 5);
    assert_eq!(r.status, 404);
    let r = h.handle_generated_response_encoding(&Method::Put, 200, page.clone(), &inm, &vec![], 5);
    assert_eq!(r.status, 200);
    let other = Some(IfNoneMatch::Items(vec!["other".to_string()]));
    let r = h.handle_generated_response_encoding(&Method::Get, 200, page.clone(), &other, &vec![], 5);
    assert_eq!(r.status, 200);
    let r = h.handle_generated_response_encoding(&Method::Get, 200, page, &Some(IfNoneMatch::Any), &vec![], 5);
    assert_eq!(r.status, 200);
}
