use https::util::files::{
    client_microsoft, client_mobile, detect_file_as_dir, file_binary, file_etag, file_icon_suffix,
    file_time_modified, icon_suffix_for, is_actually_file, listing_time, LAST_SECOND, is_descendant_of, is_nonexistent_descendant_of, FileKind,
};

fn path(components: &[&str]) -> Vec<String> {
    components.iter().map(|c| c.to_string()).collect()
}

#[test]
fn file_binary_of_text() {
    assert!(!file_binary(&b"[package]\nname = \"http\"\n".to_vec()));
    assert!(!file_binary(&"zażółć gęślą jaźń\n".as_bytes().to_vec()));
    assert!(!file_binary(&b"no newline at all".to_vec()));
    assert!(!file_binary(&b"".to_vec()));
    assert!(!file_binary(&b"\n\0".to_vec()));
}

#[test]
fn file_binary_of_binary_data() {
    assert!(file_binary(&b"\x7fELF\x02\x01\x01\0\0\0\n".to_vec()));
    assert!(file_binary(&b"ab\0cd\nef".to_vec()));
    assert!(file_binary(&vec![0xff, 0xfe, b'a', b'\n']));
    assert!(file_binary(&vec![0xc3]));
}

#[test]
fn file_binary_looks_at_the_first_line_only() {
    assert!(!file_binary(&b"text\n\xff\xfe\0".to_vec()));
}

#[test]
fn file_binary_looks_at_2048_bytes_at_most() {
    let mut head = vec![b'a'; 2048];
    head.push(0);
    head.push(b'\n');
    assert!(!file_binary(&head));
    head[2047] = 0;
    assert!(file_binary(&head));
    let mut cut = vec![b'a'; 2047];
    cut.extend_from_slice("ż\n".as_bytes());
    assert!(file_binary(&cut));
}

#[test]
fn detect_file_as_dir_finds_a_file_among_the_ancestors() {
    assert!(!detect_file_as_dir(&vec![]));
    assert!(!detect_file_as_dir(&vec![false, false, false]));
    assert!(detect_file_as_dir(&vec![true]));
    assert!(detect_file_as_dir(&vec![false, true, false]));
    assert!(detect_file_as_dir(&vec![false, false, true]));
}

#[test]
fn is_actually_file_by_kind() {
    assert!(is_actually_file(FileKind::File, None));
    assert!(is_actually_file(FileKind::Device, None));
    assert!(!is_actually_file(FileKind::Directory, None));
    assert!(!is_actually_file(FileKind::Directory, Some(FileKind::File)));
    assert!(is_actually_file(FileKind::Symlink, Some(FileKind::File)));
    assert!(is_actually_file(FileKind::Symlink, Some(FileKind::Device)));
    assert!(!is_actually_file(FileKind::Symlink, Some(FileKind::Directory)));
    assert!(!is_actually_file(FileKind::Symlink, Some(FileKind::Symlink)));
    assert!(!is_actually_file(FileKind::Symlink, None));
}

#[test]
fn is_descendant_of_goes_by_components() {
    let root = Some(path(&["srv", "www"]));
    assert!(is_descendant_of(&Some(path(&["srv", "www"])), &root));
    assert!(is_descendant_of(&Some(path(&["srv", "www", "a", "b.txt"])), &root));
    assert!(!is_descendant_of(&Some(path(&["srv"])), &root));
    assert!(!is_descendant_of(&Some(path(&["srv", "www2", "a"])), &root));
    assert!(!is_descendant_of(&Some(path(&["etc", "passwd"])), &root));
    assert!(!is_descendant_of(&Some(path(&["srv", "wwwx"])), &root));
}

#[test]
fn is_descendant_of_needs_both_paths() {
    assert!(!is_descendant_of(&None, &Some(path(&["srv"]))));
    assert!(!is_descendant_of(&Some(path(&["srv"])), &None));
    assert!(!is_descendant_of(&None, &None));
    assert!(is_descendant_of(&Some(path(&[])), &Some(path(&[]))));
}

#[test]
fn is_nonexistent_descendant_of_goes_by_components() {
    let root = Some(path(&["srv", "www"]));
    assert!(is_nonexistent_descendant_of(&path(&["srv", "www", "new", "file.txt"]), &root));
    assert!(is_nonexistent_descendant_of(&path(&["srv", "www"]), &root));
    assert!(!is_nonexistent_descendant_of(&path(&["tmp", "new.txt"]), &root));
    assert!(!is_nonexistent_descendant_of(&path(&["srv", "www"]), &None));
}

#[test]
fn client_mobile_scans_the_user_agent() {
    assert!(client_mobile(Some("Mozilla/5.0 (Android 13; Mobile; rv:109.0) Gecko/109.0 Firefox/115.0")));
    assert!(client_mobile(Some("something mobi something")));
    assert!(!client_mobile(Some("Mozilla/5.0 (X11; Linux x86_64; rv:109.0) Gecko/20100101 Firefox/115.0")));
    assert!(!client_mobile(Some("MOBI")));
    assert!(!client_mobile(Some("")));
    assert!(!client_mobile(None));
}

#[test]
fn client_microsoft_scans_the_user_agent() {
    assert!(client_microsoft(Some("Microsoft-WebDAV-MiniRedir/10.0.19045")));
    assert!(client_microsoft(Some("some microsoft thing")));
    assert!(!client_microsoft(Some("curl/8.0")));
    assert!(!client_microsoft(None));
}

#[test]
fn file_etag_is_volume_file_and_time() {
    assert_eq!(file_etag(0, 0, 0), "0-0-0");
    assert_eq!(file_etag(0xfe01, 1234567, 1700000000), "fe01-1234567-1700000000");
    assert_eq!(file_etag(255, 10, 9), "ff-10-9");
    assert_eq!(
        file_etag(u64::MAX, u64::MAX, u64::MAX),
        "ffffffffffffffff-18446744073709551615-18446744073709551615"
    );
}

#[test]
fn file_etag_is_stable() {
    assert_eq!(file_etag(2049, 77, 1700000000), file_etag(2049, 77, 1700000000));
    assert_ne!(file_etag(2049, 77, 1700000000), file_etag(2049, 77, 1700000001));
    assert_ne!(file_etag(2049, 77, 1700000000), file_etag(2049, 78, 1700000000));
}

#[test]
fn icon_suffix_goes_by_the_top_level_of_the_type() {
    assert_eq!(icon_suffix_for(&Some("image/gif".to_string()), false), "_image");
    assert_eq!(icon_suffix_for(&Some("video/mp4".to_string()), false), "_image");
    assert_eq!(icon_suffix_for(&Some("text/html".to_string()), true), "_text");
    assert_eq!(icon_suffix_for(&Some("application/pdf".to_string()), false), "_binary");
    assert_eq!(icon_suffix_for(&Some("audio/mpeg".to_string()), false), "");
    assert_eq!(icon_suffix_for(&Some("image".to_string()), false), "_image");
    assert_eq!(icon_suffix_for(&Some("imagery/x".to_string()), false), "");
    assert_eq!(icon_suffix_for(&None, false), "_text");
    assert_eq!(icon_suffix_for(&None, true), "");
}

#[test]
fn file_icon_suffix_by_media_type() {
    assert_eq!(file_icon_suffix("png", true, true), "_image");
    assert_eq!(file_icon_suffix("mp4", true, true), "_image");
    assert_eq!(file_icon_suffix("txt", true, false), "_text");
    assert_eq!(file_icon_suffix("pdf", true, true), "_binary");
    assert_eq!(file_icon_suffix("GIF", true, true), "_image");
    assert_eq!(file_icon_suffix("html", true, true), "_text");
    assert_eq!(file_icon_suffix("mp3", true, true), "");
}

#[test]
fn file_icon_suffix_without_a_known_type() {
    assert_eq!(file_icon_suffix("no-such-extension", true, false), "_text");
    assert_eq!(file_icon_suffix("no-such-extension", true, true), "");
    assert_eq!(file_icon_suffix("", true, false), "_text");
}

#[test]
fn file_icon_suffix_of_a_directory() {
    assert_eq!(file_icon_suffix("png", false, false), "");
    assert_eq!(file_icon_suffix("", false, true), "");
}

#[test]
fn times_as_headers_write_them() {
    assert_eq!(file_time_modified(1_700_000_000), Some("Tue, 14 Nov 2023 22:13:20 GMT".to_string()));
    assert_eq!(file_time_modified(0), Some("Thu, 01 Jan 1970 00:00:00 GMT".to_string()));
    assert_eq!(file_time_modified(951_782_400), Some("Tue, 29 Feb 2000 00:00:00 GMT".to_string()));
    assert_eq!(file_time_modified(LAST_SECOND), Some("Fri, 31 Dec 9999 23:59:59 GMT".to_string()));
}

#[test]
fn times_as_listings_write_them() {
    assert_eq!(listing_time(1_700_000_000), Some("2023-11-14 22:13:20".to_string()));
    assert_eq!(listing_time(0), Some("1970-01-01 00:00:00".to_string()));
    assert_eq!(listing_time(LAST_SECOND), Some("9999-12-31 23:59:59".to_string()));
}

#[test]
fn times_out_of_range_are_not_written() {
    assert_eq!(file_time_modified(-1), None);
    assert_eq!(file_time_modified(LAST_SECOND + 1), None);
    assert_eq!(file_time_modified(i64::MAX), None);
    assert_eq!(file_time_modified(i64::MIN), None);
    assert_eq!(listing_time(-1), None);
    assert_eq!(listing_time(LAST_SECOND + 1), None);
}

#[test]
fn an_upload_with_a_time_is_later_served_with_it() {
    let ms = https::ops::write::put_mtime(Some(1_700_000_000_000), None).unwrap();
    assert_eq!(file_time_modified((ms / 1000) as i64), Some("Tue, 14 Nov 2023 22:13:20 GMT".to_string()));
}
