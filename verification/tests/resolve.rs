use https::ops::resolve::{path_segments, LinkAction, Resolution, Resolved, MAX_SYMLINKS};
use https::ops::{HttpHandler, LogLevel, Options};

fn handler() -> HttpHandler {
    HttpHandler::new(Options {
        hosted_directory: ("./www".to_string(), "/srv/www".to_string()),
        follow_symlinks: false,
        sandbox_symlinks: true,
        generate_listings: true,
        check_indices: true,
        strip_extensions: false,
        loglevel: LogLevel::All,
        log_colour: false,
        webdav: false,
        allow_writes: false,
        encode_fs: false,
        path_auth_data: vec![],
        temp_directory: ("$TEMP/http".to_string(), "/tmp/http".to_string()),
        encoded_filesystem_limit: None,
        encoded_generated_limit: None,
        encoded_prune: None,
        proxies: vec![],
        proxy_redirs: vec![],
        mime_type_overrides: vec![],
        additional_headers: vec![],
        encoding_blacklist: vec![],
    })
}

fn fresh(follow_symlinks: bool) -> Resolution {
    Resolution { follow_symlinks, symlink: false, url_err: false, absolute: true, depth_left: 40 }
}

#[test]
fn segments_are_the_parts_between_slashes() {
    assert_eq!(path_segments("/a/b/c.txt"), ["a", "b", "c.txt"]);
    assert_eq!(path_segments("/a//b/"), ["a", "b"]);
    assert_eq!(path_segments("a"), ["a"]);
    assert_eq!(path_segments("a/b"), ["a", "b"]);
    assert_eq!(path_segments("/%D1%80/x%2Fy"), ["%D1%80", "x%2Fy"]);
    assert!(path_segments("/").is_empty());
    assert!(path_segments("").is_empty());
    assert!(path_segments("////").is_empty());
    assert_eq!(path_segments("/zażółć/gęślą"), ["zażółć", "gęślą"]);
}

#[test]
fn a_walk_starts_with_forty_links_to_follow() {
    assert_eq!(MAX_SYMLINKS, 40);
    assert_eq!(Resolution::new(true), fresh(true));
    assert_eq!(Resolution::new(false), fresh(false));
    let (segments, state) = handler().parse_requested_path("/a/b");
    assert_eq!(segments, ["a", "b"]);
    assert_eq!(state, fresh(true));
    let (segments, state) = handler().parse_requested_path_custom_symlink("/a//b/", false);
    assert_eq!(segments, ["a", "b"]);
    assert_eq!(state, fresh(false));
}

#[test]
fn segments_are_decoded() {
    let mut state = Resolution::new(true);
    assert_eq!(state.segment("a%20b"), Some("a b".to_string()));
    assert_eq!(state.segment("%D1%80%D1%83%D1%81"), Some("рус".to_string()));
    assert_eq!(state.segment("plain"), Some("plain".to_string()));
    assert_eq!(state, fresh(true));
}

#[test]
fn a_segment_that_does_not_decode_is_on_record() {
    let mut state = Resolution::new(true);
    assert_eq!(state.segment("%ff"), None);
    assert_eq!(state, Resolution { url_err: true, ..fresh(true) });
    assert_eq!(state.segment("fine"), Some("fine".to_string()));
    assert!(state.url_err);
    assert_eq!(state.finish(), Resolved { canonicalize: false, symlink: false, url_err: true });
}

#[test]
fn absolute_links_replace_the_path() {
    let mut state = Resolution::new(true);
    assert_eq!(state.link(true), LinkAction::Replace);
    assert_eq!(state, Resolution { symlink: true, depth_left: 39, ..fresh(true) });
    assert_eq!(state.finish(), Resolved { canonicalize: false, symlink: true, url_err: false });
}

#[test]
fn relative_links_make_the_path_canonical_in_the_end() {
    let mut state = Resolution::new(true);
    assert_eq!(state.link(false), LinkAction::Rebase);
    assert_eq!(state, Resolution { symlink: true, absolute: false, depth_left: 39, ..fresh(true) });
    assert_eq!(state.link(true), LinkAction::Replace);
    assert!(!state.absolute);
    assert_eq!(state.depth_left, 38);
    assert_eq!(state.finish(), Resolved { canonicalize: true, symlink: true, url_err: false });
}

#[test]
fn links_are_noted_but_not_followed_where_that_is_off() {
    let mut state = Resolution::new(false);
    assert_eq!(state.link(false), LinkAction::Stay);
    assert_eq!(state, Resolution { symlink: true, ..fresh(false) });
    assert_eq!(state.link(true), LinkAction::Stay);
    assert_eq!(state.finish(), Resolved { canonicalize: false, symlink: true, url_err: false });
}

#[test]
fn no_more_than_forty_links_are_followed() {
    let mut state = Resolution::new(true);
    for left in (0..40).rev() {
        assert_eq!(state.link(true), LinkAction::Replace);
        assert_eq!(state.depth_left, left);
    }
    assert_eq!(state.link(true), LinkAction::Stay);
    assert_eq!(state.link(false), LinkAction::Stay);
    assert_eq!(state, Resolution { symlink: true, depth_left: 0, ..fresh(true) });
}

#[test]
fn a_walk_without_links() {
    assert_eq!(fresh(true).finish(), Resolved { canonicalize: false, symlink: false, url_err: false });
}
