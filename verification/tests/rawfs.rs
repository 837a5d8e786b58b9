use https::ops::listing::ListingEntry;
use https::ops::rawfs::{get_raw_fs_metadata, is_root, RawFileData};
use https::ops::{HttpHandler, LogLevel, Options};

fn handler(allow_writes: bool, follow_symlinks: bool) -> HttpHandler {
    HttpHandler::new(Options {
        hosted_directory: ("./www".to_string(), "/srv/www".to_string()),
        follow_symlinks,
        sandbox_symlinks: true,
        generate_listings: true,
        check_indices: true,
        strip_extensions: false,
        loglevel: LogLevel::All,
        log_colour: false,
        webdav: false,
        allow_writes,
        encode_fs: false,
        path_auth_data: vec![],
        temp_directory: ("$TEMP/http".to_string(), "/tmp/http".to_string()),
        encoded_filesystem_limit: None,
        encoded_generated_limit: None,
        encoded_prune: None,
        proxies: vec![],
        proxy_redirs: vec![],
        mime_type_overrides: vec![],
        additional_headers: vec![],
        encoding_blacklist: vec![],
    })
}

fn entry(name: &str, is_file: bool, symlink: bool) -> ListingEntry {
    ListingEntry {
        name: name.to_string(),
        is_file,
        symlink,
        inside_root: false,
        modified: "2023-11-14T22:13:20Z".to_string(),
        size: 77,
        extension: name.rsplit_once('.').map(|(_, e)| e.to_string()).unwrap_or_default(),
        binary: true,
    }
}

fn fields(r: &RawFileData) -> (&str, &str, &str, u64, bool) {
    (&r.mime_type, &r.name, &r.last_modified, r.size, r.is_file)
}

#[test]
fn the_root_is_a_path_of_one_slash() {
    assert!(is_root("/", "http://example.com/"));
    assert!(!is_root("/a", "http://example.com/a"));
    assert!(!is_root("/a/", "http://example.com/a/"));
    assert!(!is_root("/", "http://example.com/?q"));
    assert!(is_root("/a", "http://example.com/a?dir=/"));
    assert!(!is_root("", ""));
    assert!(!is_root("//", "http://example.com//"));
}

#[test]
fn metadata_of_a_file() {
    let r = get_raw_fs_metadata("a.png", "png", "2023-11-14T22:13:20Z", 5, true);
    assert_eq!(fields(&r), ("image/png", "a.png", "2023-11-14T22:13:20Z", 5, true));
    let r = get_raw_fs_metadata("LICENSE", "", "t", 0, false);
    assert_eq!(fields(&r), ("text/plain", "LICENSE", "t", 0, true));
    let r = get_raw_fs_metadata("blob", "", "t", 9, true);
    assert_eq!(fields(&r), ("application/octet-stream", "blob", "t", 9, true));
}

#[test]
fn description_of_a_file() {
    let file = get_raw_fs_metadata("a.txt", "txt", "t", 5, false);
    let data = handler(true, true).handle_get_raw_fs_file(file);
    assert!(data.writes_supported);
    assert!(!data.is_root);
    assert!(data.is_file);
    assert_eq!(data.files.len(), 1);
    assert_eq!(fields(&data.files[0]), ("text/plain", "a.txt", "t", 5, true));
    let file = get_raw_fs_metadata("a.txt", "txt", "t", 5, false);
    assert!(!handler(false, true).handle_get_raw_fs_file(file).writes_supported);
}

#[test]
fn description_of_a_directory() {
    let entries = vec![entry("b.txt", true, false), entry("sub", false, false), entry("link", true, true)];
    let data = handler(false, false).handle_get_raw_fs_dir(true, entries);
    assert!(!data.writes_supported);
    assert!(data.is_root);
    assert!(!data.is_file);
    assert_eq!(data.files.len(), 2);
    assert_eq!(fields(&data.files[0]), ("text/plain", "b.txt", "2023-11-14T22:13:20Z", 77, true));
    assert_eq!(fields(&data.files[1]), ("text/directory", "sub", "2023-11-14T22:13:20Z", 0, false));
    let data = handler(true, true).handle_get_raw_fs_dir(false, vec![]);
    assert!(data.writes_supported);
    assert!(!data.is_root);
    assert!(data.files.is_empty());
}
