use https::ops::cache::{CacheKey, Cached};
use https::ops::prune::PruneChain;
use https::ops::{LogLevel, Options};

const SECOND: u64 = 1_000_000_000;

fn chain(fs: Option<u64>, generated: Option<u64>, ttl: Option<u64>) -> PruneChain {
    PruneChain::new(Options {
        hosted_directory: ("./www".to_string(), "/srv/www".to_string()),
        follow_symlinks: true,
        sandbox_symlinks: true,
        generate_listings: true,
        check_indices: true,
        strip_extensions: false,
        loglevel: LogLevel::All,
        log_colour: false,
        webdav: false,
        allow_writes: false,
        encode_fs: true,
        path_auth_data: vec![],
        temp_directory: ("$TEMP/http".to_string(), "/tmp/http".to_string()),
        encoded_filesystem_limit: fs,
        encoded_generated_limit: generated,
        encoded_prune: ttl,
        proxies: vec![],
        proxy_redirs: vec![],
        mime_type_overrides: vec![],
        additional_headers: vec![],
        encoding_blacklist: vec![],
    })
}

fn key(tag: u8) -> CacheKey {
    CacheKey::new(vec![tag; 32], "gzip".to_string())
}

fn copy(chain: &mut PruneChain, tag: u8, size: u64, atime: u64) {
    let path = format!("/tmp/http/encoded/{}.gz", tag);
    assert!(chain.handler.cache_fs.insert(key(tag), Cached::File { path, size }, atime));
    chain.handler.remember_fingerprint(&format!("etag-{}", tag), vec![tag; 32]);
}

fn page(chain: &mut PruneChain, tag: u8, size: usize, atime: u64) {
    assert!(chain.handler.cache_gen.insert(key(tag), Cached::Bytes(vec![0; size]), atime));
}

/// Evicts as a server does, deleting files as `delete` says.
fn evict_files(chain: &mut PruneChain, delete: impl Fn(&str) -> bool) -> (u64, Vec<String>) {
    let before = chain.handler.cache_fs.size();
    let mut deleted = vec![];
    while let Some(next) = chain.next_eviction() {
        let gone = delete(&next.path);
        if gone {
            deleted.push(next.path.clone());
        }
        if !chain.after_deletion(&next, gone) {
            break;
        }
    }
    (before - chain.handler.cache_fs.size(), deleted)
}

#[test]
fn the_interval_is_a_sixth_of_the_time_to_live_but_ten_seconds_at_least() {
    assert_eq!(chain(None, None, None).prune_interval, 10);
    assert_eq!(chain(None, None, Some(0)).prune_interval, 10);
    assert_eq!(chain(None, None, Some(60)).prune_interval, 10);
    assert_eq!(chain(None, None, Some(65)).prune_interval, 10);
    assert_eq!(chain(None, None, Some(66)).prune_interval, 11);
    assert_eq!(chain(None, None, Some(3600)).prune_interval, 600);
    assert_eq!(chain(None, None, Some(u64::MAX)).prune_interval, u64::MAX / 6);
}

#[test]
fn new_takes_the_limits_from_the_options() {
    let c = chain(Some(1), Some(2), Some(3));
    assert_eq!(c.encoded_filesystem_limit, Some(1));
    assert_eq!(c.encoded_generated_limit, Some(2));
    assert_eq!(c.encoded_prune, Some(3));
    assert_eq!(c.last_prune, 0);
    assert_eq!(c.handler.encoded_filesystem_limit, 1);
    assert_eq!(c.handler.encoded_generated_limit, 2);
}

#[test]
fn files_are_evicted_oldest_first_until_the_cache_fits() {
    let mut c = chain(Some(100), None, None);
    copy(&mut c, 1, 60, 30);
    copy(&mut c, 2, 60, 10);
    copy(&mut c, 3, 60, 20);
    let (freed, deleted) = evict_files(&mut c, |_| true);
    assert_eq!(freed, 120);
    assert_eq!(deleted, ["/tmp/http/encoded/2.gz", "/tmp/http/encoded/3.gz"]);
    assert_eq!(c.handler.cache_fs.len(), 1);
    assert_eq!(c.handler.cache_fs.size(), 60);
    assert!(c.handler.cache_fs.get(0).key.same(&key(1)));
    assert_eq!(c.handler.cache_fs_files, vec![("etag-1".to_string(), vec![1; 32])]);
    assert!(c.next_eviction().is_none());
}

#[test]
fn of_two_files_the_one_used_longer_ago_goes() {
    for (first, second) in [(1u64, 2u64), (2, 1)] {
        let mut c = chain(Some(100), None, None);
        copy(&mut c, 1, 60, first);
        copy(&mut c, 2, 60, second);
        let (freed, deleted) = evict_files(&mut c, |_| true);
        assert_eq!(freed, 60);
        let gone = if first < second { 1 } else { 2 };
        assert_eq!(deleted, [format!("/tmp/http/encoded/{}.gz", gone)]);
        assert!(c.handler.cache_fs.find(&key(gone)).is_none());
        assert!(c.handler.cache_fs.size() <= 100);
    }
}

#[test]
fn a_file_that_cannot_be_deleted_stays_in_the_books() {
    let mut c = chain(Some(100), None, None);
    copy(&mut c, 1, 60, 10);
    copy(&mut c, 2, 60, 20);
    let (freed, deleted) = evict_files(&mut c, |_| false);
    assert_eq!(freed, 0);
    assert!(deleted.is_empty());
    assert_eq!(c.handler.cache_fs.len(), 2);
    assert_eq!(c.handler.cache_fs.size(), 120);
    assert_eq!(c.handler.cache_fs_files.len(), 2);
}

#[test]
fn nothing_is_evicted_within_the_limit_or_without_one() {
    let mut c = chain(Some(120), None, None);
    copy(&mut c, 1, 60, 10);
    copy(&mut c, 2, 60, 20);
    assert!(c.next_eviction().is_none());
    let mut c = chain(None, None, None);
    copy(&mut c, 1, u64::MAX / 2, 10);
    assert!(c.next_eviction().is_none());
    let c = chain(Some(0), None, None);
    assert!(c.next_eviction().is_none());
}

#[test]
fn a_fingerprint_stays_while_a_copy_of_its_file_is_present() {
    let mut c = chain(Some(10), None, None);
    assert!(c.handler.cache_fs.insert(
        CacheKey::new(vec![7; 32], "gzip".to_string()),
        Cached::File { path: "a.gz".to_string(), size: 8 },
        1
    ));
    assert!(c.handler.cache_fs.insert(
        CacheKey::new(vec![7; 32], "br".to_string()),
        Cached::File { path: "a.br".to_string(), size: 8 },
        2
    ));
    c.handler.remember_fingerprint("etag-7", vec![7; 32]);
    c.handler.remember_fingerprint("etag-8", vec![8; 32]);
    let (freed, deleted) = evict_files(&mut c, |_| true);
    assert_eq!((freed, deleted), (8, vec!["a.gz".to_string()]));
    assert_eq!(
        c.handler.cache_fs_files,
        vec![("etag-7".to_string(), vec![7; 32]), ("etag-8".to_string(), vec![8; 32])]
    );
    assert_eq!(c.evicted(0), 8);
    assert_eq!(c.handler.cache_fs_files, vec![("etag-8".to_string(), vec![8; 32])]);
}

#[test]
fn a_copy_that_was_given_up_keeps_no_fingerprint() {
    let mut c = chain(None, None, None);
    assert!(c.handler.cache_fs.insert(
        CacheKey::new(vec![7; 32], "gzip".to_string()),
        Cached::File { path: "a.gz".to_string(), size: 8 },
        1
    ));
    assert!(c.handler.cache_fs.insert(CacheKey::new(vec![7; 32], "br".to_string()), Cached::Rejected, u64::MAX));
    c.handler.remember_fingerprint("etag-7", vec![7; 32]);
    assert_eq!(c.evicted(0), 8);
    assert!(c.handler.cache_fs_files.is_empty());
    assert_eq!(c.handler.cache_fs.len(), 1);
}

#[test]
fn pages_are_evicted_oldest_first_until_the_cache_fits() {
    let mut c = chain(None, Some(100), None);
    page(&mut c, 1, 60, 30);
    page(&mut c, 2, 60, 10);
    page(&mut c, 3, 60, 20);
    let report = c.prune(50);
    assert_eq!(report.freed_generated, 120);
    assert!(!report.sweep);
    assert_eq!(c.handler.cache_gen.len(), 1);
    assert_eq!(c.handler.cache_gen.size(), 60);
    assert!(c.handler.cache_gen.get(0).key.same(&key(1)));
    assert_eq!(c.last_prune, 0);
    assert_eq!(c.prune(60).freed_generated, 0);
}

#[test]
fn pages_stay_without_a_limit() {
    let mut c = chain(None, None, None);
    page(&mut c, 1, 600, 30);
    let report = c.prune(50 * SECOND);
    assert_eq!(report.freed_generated, 0);
    assert!(!report.sweep);
    assert_eq!(c.handler.cache_gen.len(), 1);
}

#[test]
fn a_sweep_is_due_once_an_interval() {
    let mut c = chain(None, None, Some(120));
    assert_eq!(c.prune_interval, 20);
    assert!(!c.prune(19 * SECOND).sweep);
    assert_eq!(c.last_prune, 19 * SECOND);
    assert!(!c.prune(38 * SECOND).sweep);
    assert_eq!(c.last_prune, 38 * SECOND);
    assert!(c.prune(58 * SECOND).sweep);
    assert!(!c.prune(58 * SECOND).sweep);
    assert!(!c.prune(40 * SECOND).sweep);
    assert_eq!(c.last_prune, 40 * SECOND);
    assert!(c.prune(60 * SECOND).sweep);
    assert!(!c.prune(0).sweep);
    assert!(c.prune(20 * SECOND).sweep);
}

#[test]
fn a_sweep_drops_pages_that_were_not_used_for_too_long() {
    let mut c = chain(None, None, Some(120));
    page(&mut c, 1, 10, 100 * SECOND);
    page(&mut c, 2, 20, 250 * SECOND);
    page(&mut c, 3, 40, 400 * SECOND);
    let report = c.prune(300 * SECOND);
    assert!(report.sweep);
    assert_eq!(report.freed_generated, 10);
    assert_eq!(c.handler.cache_gen.len(), 2);
    assert_eq!(c.handler.cache_gen.size(), 60);
    assert!(c.handler.cache_gen.find(&key(1)).is_none());
}

#[test]
fn a_sweep_of_files_is_driven_by_deletions() {
    let mut c = chain(None, None, Some(120));
    copy(&mut c, 1, 10, 100 * SECOND);
    copy(&mut c, 2, 20, 250 * SECOND);
    copy(&mut c, 3, 40, 50 * SECOND);
    assert!(c.handler.cache_fs.insert(key(4), Cached::Rejected, u64::MAX));
    copy(&mut c, 5, 80, 0);
    assert!(c.prune(300 * SECOND).sweep);
    let before = c.handler.cache_fs.size();
    let mut from = 0;
    let mut asked = vec![];
    while let Some(next) = c.next_expired(from, 300 * SECOND) {
        asked.push(next.path.clone());
        from = c.after_expiry(&next, !next.path.ends_with("/3.gz"));
    }
    let freed = before - c.handler.cache_fs.size();
    assert_eq!(asked, ["/tmp/http/encoded/1.gz", "/tmp/http/encoded/3.gz", "/tmp/http/encoded/5.gz"]);
    assert_eq!(freed, 90);
    assert_eq!(c.handler.cache_fs.len(), 3);
    assert_eq!(c.handler.cache_fs.size(), 60);
    assert!(c.handler.cache_fs.find(&key(2)).is_some());
    assert!(c.handler.cache_fs.find(&key(3)).is_some());
    assert!(c.handler.cache_fs.find(&key(4)).is_some());
    assert_eq!(
        c.handler.cache_fs_files,
        vec![("etag-2".to_string(), vec![2; 32]), ("etag-3".to_string(), vec![3; 32])]
    );
}

#[test]
fn nothing_expires_without_a_time_to_live() {
    let mut c = chain(None, None, None);
    copy(&mut c, 1, 10, 0);
    assert!(c.next_expired(0, u64::MAX).is_none());
    assert!(!c.prune(u64::MAX).sweep);
    assert_eq!(c.last_prune, 0);
}

#[test]
fn prune_now_reads_the_clock() {
    let mut c = chain(None, Some(100), Some(60));
    page(&mut c, 1, 60, 0);
    page(&mut c, 2, 60, u64::MAX);
    let report = c.prune_now();
    assert!(c.handler.cache_gen.size() <= 100);
    assert!(report.freed_generated >= 60);
    assert!(c.last_prune > 0);
    assert!(c.handler.cache_gen.find(&key(2)).is_some());
}

#[test]
fn a_failed_deletion_stops_the_eviction_and_changes_nothing() {
    let mut c = chain(Some(100), None, None);
    copy(&mut c, 1, 60, 10);
    copy(&mut c, 2, 60, 20);
    let next = c.next_eviction().unwrap();
    assert_eq!((next.index, next.path.as_str()), (0, "/tmp/http/encoded/1.gz"));
    assert!(!c.after_deletion(&next, false));
    assert_eq!(c.handler.cache_fs.len(), 2);
    assert_eq!(c.handler.cache_fs.size(), 120);
    assert_eq!(c.handler.cache_fs_files.len(), 2);
    assert!(c.after_deletion(&next, true));
    assert_eq!(c.handler.cache_fs.len(), 1);
    assert_eq!(c.handler.cache_fs.size(), 60);
    assert_eq!(c.handler.cache_fs_files, vec![("etag-2".to_string(), vec![2; 32])]);
    assert!(c.next_eviction().is_none());
}

#[test]
fn a_sweep_goes_on_behind_a_copy_that_stays() {
    let mut c = chain(None, None, Some(10));
    copy(&mut c, 1, 10, 0);
    copy(&mut c, 2, 20, 0);
    let first = c.next_expired(0, 100 * SECOND).unwrap();
    assert_eq!(first.index, 0);
    assert_eq!(c.after_expiry(&first, false), 1);
    assert_eq!(c.handler.cache_fs.len(), 2);
    let second = c.next_expired(1, 100 * SECOND).unwrap();
    assert_eq!(second.index, 1);
    assert_eq!(c.after_expiry(&second, true), 1);
    assert_eq!(c.handler.cache_fs.len(), 1);
    assert_eq!(c.handler.cache_fs.size(), 10);
    assert!(c.next_expired(1, 100 * SECOND).is_none());
}

#[test]
fn an_entry_goes_once_it_is_older_than_the_time_to_live() {
    let mut c = chain(None, None, Some(60));
    page(&mut c, 1, 10, 40 * SECOND - 1);
    page(&mut c, 2, 20, 40 * SECOND);
    page(&mut c, 3, 40, 55 * SECOND);
    assert!(c.handler.cache_gen.insert(key(4), Cached::Rejected, u64::MAX));
    let report = c.prune(100 * SECOND);
    assert!(report.sweep);
    assert_eq!(report.freed_generated, 10);
    assert_eq!(c.handler.cache_gen.len(), 3);
    assert!(c.handler.cache_gen.find(&key(1)).is_none());
    assert!(c.handler.cache_gen.find(&key(4)).is_some());
    let report = c.prune(110 * SECOND);
    assert!(report.sweep);
    assert_eq!(report.freed_generated, 20);
    assert_eq!(c.handler.cache_gen.len(), 2);
    assert!(c.handler.cache_gen.find(&key(3)).is_some());
    assert!(c.handler.cache_gen.find(&key(4)).is_some());
}
