use https::ops::listing::{
    build_listing, relpath_of, render_mobile_parent, render_mobile_row, render_parent_row,
    render_row, render_rows, sort_entries, visible_entries, ListingEntry,
};

fn entry(name: &str, is_file: bool) -> ListingEntry {
    ListingEntry {
        name: name.to_string(),
        is_file,
        symlink: false,
        inside_root: true,
        modified: "2023-11-14 22:13:20".to_string(),
        size: 1536,
        extension: name.rsplit_once('.').map(|(_, e)| e.to_string()).unwrap_or_default(),
        binary: false,
    }
}

fn link(name: &str, inside_root: bool) -> ListingEntry {
    ListingEntry { symlink: true, inside_root, ..entry(name, true) }
}

fn names(entries: &[ListingEntry]) -> Vec<&str> {
    entries.iter().map(|e| e.name.as_str()).collect()
}

fn chars(s: &str) -> Vec<char> {
    s.chars().collect()
}

fn text(v: Vec<char>) -> String {
    v.into_iter().collect()
}

#[test]
fn links_are_shown_only_where_they_are_followed() {
    let entries = || vec![entry("a", true), link("in", true), link("out", false), entry("d", false)];
    assert_eq!(names(&visible_entries(entries(), false, false)), ["a", "d"]);
    assert_eq!(names(&visible_entries(entries(), false, true)), ["a", "d"]);
    assert_eq!(names(&visible_entries(entries(), true, false)), ["a", "in", "out", "d"]);
    assert_eq!(names(&visible_entries(entries(), true, true)), ["a", "in", "d"]);
    assert!(visible_entries(vec![], true, true).is_empty());
    assert!(link("in", true).is_visible(true, true));
    assert!(!link("out", false).is_visible(true, true));
}

#[test]
fn directories_come_first_then_names_in_lower_case() {
    let sorted = sort_entries(vec![
        entry("zebra.txt", true),
        entry("Apple.txt", true),
        entry("src", false),
        entry("banana.txt", true),
        entry("Docs", false),
        entry("assets", false),
    ]);
    assert_eq!(names(&sorted), ["assets", "Docs", "src", "Apple.txt", "banana.txt", "zebra.txt"]);
}

#[test]
fn sorting_keeps_the_order_of_equals() {
    let sorted = sort_entries(vec![entry("README", true), entry("readme", true), entry("Readme", true)]);
    assert_eq!(names(&sorted), ["README", "readme", "Readme"]);
    let sorted = sort_entries(vec![entry("b", true), entry("a", true), entry("B", true), entry("A", true)]);
    assert_eq!(names(&sorted), ["a", "A", "b", "B"]);
}

#[test]
fn sorting_goes_by_characters() {
    let sorted = sort_entries(vec![entry("ab", true), entry("a", true), entry("", true), entry("Ż", true), entry("z", true), entry("a-b", true)]);
    assert_eq!(names(&sorted), ["", "a", "a-b", "ab", "z", "Ż"]);
    assert!(sort_entries(vec![]).is_empty());
}

#[test]
fn relpath_ends_in_one_slash() {
    assert_eq!(text(relpath_of("/")), "/");
    assert_eq!(text(relpath_of("/a/b")), "/a/b/");
    assert_eq!(text(relpath_of("/a/b/")), "/a/b/");
    assert_eq!(text(relpath_of("a//b")), "a/b/");
    assert_eq!(text(relpath_of("///")), "//");
    assert_eq!(text(relpath_of("")), "/");
}

#[test]
fn row_of_a_file() {
    let row = render_row(&entry("notes.txt", true), &chars("/docs/"), false, false);
    assert_eq!(
        text(row),
        "<tr><td><a href=\"/docs/notes.txt\" id=\"notes_txt\" class=\"file_text_icon\"></a></td> \
         <td><a href=\"/docs/notes.txt\">notes.txt</a></td> \
         <td><a href=\"/docs/notes.txt\" class=\"datetime\">2023-11-14 22:13:20</a></td> \
         <td><a href=\"/docs/notes.txt\"><abbr title=\"1536 B\">1.5 KiB</abbr></a></td> </tr>\n"
    );
}

#[test]
fn row_of_a_directory() {
    let row = render_row(&entry("src", false), &chars("/"), false, false);
    assert_eq!(
        text(row),
        "<tr><td><a href=\"/src\" id=\"src\" class=\"dir_icon\"></a></td> \
         <td><a href=\"/src\">src/</a></td> \
         <td><a href=\"/src\" class=\"datetime\">2023-11-14 22:13:20</a></td> \
         <td><a href=\"/src\">&nbsp;</a></td> </tr>\n"
    );
}

#[test]
fn row_with_controls() {
    let row = text(render_row(&entry("a.png", true), &chars("/"), true, false));
    assert!(row.contains("class=\"file_image_icon\""));
    assert!(row.ends_with(
        "</abbr></a></td> <td><a href=\"#delete_file\" class=\"delete_file_icon\">Delete</a></td></tr>\n"
    ));
    let row = text(render_row(&entry("a.png", true), &chars("/"), true, true));
    assert!(row.ends_with(
        "</abbr></a></td> <td><a href=\"#delete_file\" class=\"delete_file_icon\">Delete</a> \
         <a href=\"#rename\" class=\"rename_icon\">Rename</a></td></tr>\n"
    ));
    let row = text(render_row(&entry("a.png", true), &chars("/"), false, true));
    assert!(row.ends_with("</abbr></a></td> </tr>\n"));
}

#[test]
fn row_escapes_names() {
    let row = render_row(&entry("a&b <c>?.tar.gz ", true), &chars("/x y/[z]/"), false, false);
    assert_eq!(
        text(row),
        "<tr><td><a href=\"/x y/%5Bz%5D/a&b <c>%3F.tar.gz%20\" id=\"a&b <c>?_tar_gz \" class=\"file_text_icon\"></a></td> \
         <td><a href=\"/x y/%5Bz%5D/a&b <c>%3F.tar.gz%20\">a&amp;b &lt;c>?.tar.gz </a></td> \
         <td><a href=\"/x y/%5Bz%5D/a&b <c>%3F.tar.gz%20\" class=\"datetime\">2023-11-14 22:13:20</a></td> \
         <td><a href=\"/x y/%5Bz%5D/a&b <c>%3F.tar.gz%20\"><abbr title=\"1536 B\">1.5 KiB</abbr></a></td> </tr>\n"
    );
}

#[test]
fn row_links_start_with_one_slash() {
    let row = text(render_row(&entry("f", true), &chars("a/b/"), false, false));
    assert!(row.starts_with("<tr><td><a href=\"/a/b/f\" id=\"f\""));
    let row = text(render_row(&entry("f", true), &chars("/"), false, false));
    assert!(row.starts_with("<tr><td><a href=\"/f\" id=\"f\""));
}

#[test]
fn mobile_row_of_a_file() {
    let row = render_mobile_row(&entry("notes.txt", true), &chars("/docs/"), false, false);
    assert_eq!(
        text(row),
        "<a href=\"/docs/notes.txt\" class=\"list entry top\"><span class=\"file_text_icon\" id=\"notes_txt\">notes.txt</span></a> \
         <a href=\"/docs/notes.txt\" class=\"list entry bottom\"><span class=\"marker\">@</span>\
         <span class=\"datetime\">2023-11-14 22:13:20 UTC</span><span class=\"size\">1.5 KiB</span></a>\n"
    );
}

#[test]
fn mobile_row_of_a_directory_with_controls() {
    let row = render_mobile_row(&entry("src", false), &chars("/"), true, true);
    assert_eq!(
        text(row),
        "<a href=\"/src\" class=\"list entry top\"><span class=\"dir_icon\" id=\"src\">src/</span>\
         <span class=\"manage\"><span class=\"delete_file_icon\">Delete</span> \
         <span class=\"rename_icon\">Rename</span></span></a> \
         <a href=\"/src\" class=\"list entry bottom\"><span class=\"marker\">@</span>\
         <span class=\"datetime\">2023-11-14 22:13:20 UTC</span></a>\n"
    );
    let row = text(render_mobile_row(&entry("src", false), &chars("/"), true, false));
    assert!(row.contains("src/</span><span class=\"manage\"><span class=\"delete_file_icon\">Delete</span></span></a> "));
}

#[test]
fn parent_row_leads_one_level_up() {
    assert_eq!(
        text(render_parent_row(&chars("/a/b/"), "2023-11-14 22:13:20")),
        "<tr><td><a href=\"//a/\" id=\"parent_dir\" class=\"back_arrow_icon\"></a></td> \
         <td><a href=\"//a/\">Parent directory</a></td> \
         <td><a href=\"//a/\" class=\"datetime\">2023-11-14 22:13:20</a></td> \
         <td><a href=\"//a/\">&nbsp;</a></td> \
         <td><a href=\"//a/\">&nbsp;</a></td></tr>"
    );
    assert!(text(render_parent_row(&chars("a/b/"), "t")).starts_with("<tr><td><a href=\"/a/\" id=\"parent_dir\""));
    assert!(text(render_parent_row(&chars("a/"), "t")).starts_with("<tr><td><a href=\"/\" id=\"parent_dir\""));
    assert!(text(render_parent_row(&chars("a?/b/"), "t")).starts_with("<tr><td><a href=\"/a%3F/\" id=\"parent_dir\""));
    assert!(text(render_parent_row(&chars("/a/"), "t")).starts_with("<tr><td><a href=\"//\" id=\"parent_dir\""));
    assert!(text(render_parent_row(&chars(""), "t")).starts_with("<tr><td><a href=\"/\" id=\"parent_dir\""));
}

#[test]
fn mobile_parent_leads_one_level_up() {
    assert_eq!(
        text(render_mobile_parent(&chars("a/b/"), "2023-11-14 22:13:20")),
        "<a href=\"/a/\" class=\"list entry top\"><span class=\"back_arrow_icon\">Parent directory</span></a> \
         <a href=\"/a/\" class=\"list entry bottom\"><span class=\"marker\">@</span>\
         <span class=\"datetime\">2023-11-14 22:13:20 UTC</span></a>"
    );
}

#[test]
fn rows_follow_one_another() {
    let entries = vec![entry("a", false), entry("b.txt", true)];
    let relpath = chars("/");
    let rows = text(render_rows(&entries, &relpath, false, false, false));
    let one = text(render_row(&entries[0], &relpath, false, false));
    let two = text(render_row(&entries[1], &relpath, false, false));
    assert_eq!(rows, format!("{}{}", one, two));
    let rows = text(render_rows(&entries, &relpath, true, true, true));
    let one = text(render_mobile_row(&entries[0], &relpath, true, true));
    let two = text(render_mobile_row(&entries[1], &relpath, true, true));
    assert_eq!(rows, format!("{}{}", one, two));
    assert_eq!(text(render_rows(&vec![], &relpath, false, false, false)), "");
}

#[test]
fn a_listing_shows_sorts_and_renders() {
    let entries = vec![entry("b.txt", true), link("escape", false), entry("a", false)];
    let listing = build_listing("/docs", false, "2023-11-14 22:13:20", entries, true, true, false, false, false);
    assert_eq!(listing.relpath, "/docs/");
    assert_eq!(listing.parent, text(render_parent_row(&chars("/docs/"), "2023-11-14 22:13:20")));
    let expected = vec![entry("a", false), entry("b.txt", true)];
    assert_eq!(listing.rows, text(render_rows(&expected, &chars("/docs/"), false, false, false)));
}

#[test]
fn the_root_has_no_parent() {
    let listing = build_listing("/", true, "2023-11-14 22:13:20", vec![entry("a", false)], true, true, true, true, true);
    assert_eq!(listing.relpath, "/");
    assert_eq!(listing.parent, "");
    assert_eq!(listing.rows, text(render_mobile_row(&entry("a", false), &chars("/"), true, true)));
    let listing = build_listing("/x", false, "t", vec![], true, true, true, true, true);
    assert_eq!(listing.parent, text(render_mobile_parent(&chars("/x/"), "t")));
    assert_eq!(listing.rows, "");
}
