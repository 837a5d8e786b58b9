//! Directory listings: which entries are shown, in what order, and the markup
//! of each row.

use crate::text::{
    append, append_str, chars_of, comes_before, dec_digits, decimal, halve_slashes, last_index_of,
    lowercase_of, rfind_char, slashes_halved, slice, string_of, text_before, to_lowercase,
};
use crate::util::display::{human_readable, push_without_html, without_html, HumanReadableSize};
use crate::util::files::{file_icon_suffix, icon_suffix, known_mime};
use crate::util::url::{
    encode_tail_if_trimmed, escape_specials, specials_escaped, tail_encoded,
};
use vstd::prelude::*;

verus! {

/// What a listing shows of one entry of a directory.
pub struct ListingEntry {
    pub name: String,
    /// Whether the entry is read like a file.
    pub is_file: bool,
    pub symlink: bool,
    /// For a link: whether what it leads to lies under the hosted directory.
    pub inside_root: bool,
    /// The time of the last change, as the listing shows it.
    pub modified: String,
    /// The length in bytes, for a file.
    pub size: u64,
    /// The name's extension, without its dot.
    pub extension: String,
    /// Whether the contents look like binary data.
    pub binary: bool,
}

/// Links are shown only where they are followed, and then, where links are
/// held to the hosted directory, only those that stay inside it.
pub open spec fn visible(e: ListingEntry, follow_symlinks: bool, sandbox_symlinks: bool) -> bool {
    !e.symlink || (follow_symlinks && (!sandbox_symlinks || e.inside_root))
}

/// The entries of `s` that are shown, in their order.
pub open spec fn shown(s: Seq<ListingEntry>, follow_symlinks: bool, sandbox_symlinks: bool) -> Seq<
    ListingEntry,
>
    decreases s.len(),
{
    if s.len() == 0 {
        s
    } else if visible(s.last(), follow_symlinks, sandbox_symlinks) {
        shown(s.drop_last(), follow_symlinks, sandbox_symlinks).push(s.last())
    } else {
        shown(s.drop_last(), follow_symlinks, sandbox_symlinks)
    }
}

/// Every entry that is shown is visible.
pub proof fn lemma_shown_visible(s: Seq<ListingEntry>, follow_symlinks: bool, sandbox_symlinks: bool)
    ensures
        forall|i: int|
            0 <= i < shown(s, follow_symlinks, sandbox_symlinks).len() ==> visible(
                #[trigger] shown(s, follow_symlinks, sandbox_symlinks)[i],
                follow_symlinks,
                sandbox_symlinks,
            ),
    decreases s.len(),
{
    if s.len() != 0 {
        lemma_shown_visible(s.drop_last(), follow_symlinks, sandbox_symlinks);
        let t = shown(s.drop_last(), follow_symlinks, sandbox_symlinks);
        let r = shown(s, follow_symlinks, sandbox_symlinks);
        assert forall|i: int| 0 <= i < r.len() implies visible(
            #[trigger] r[i],
            follow_symlinks,
            sandbox_symlinks,
        ) by {
            if i < t.len() {
                assert(r[i] == t[i]);
            }
        }
    }
}

/// Directories come before files, and within each kind the names are in
/// order once they are in lower case.
pub open spec fn entry_before(a: ListingEntry, b: ListingEntry) -> bool {
    if a.is_file != b.is_file {
        !a.is_file
    } else {
        text_before(lowercase_of(a.name@), lowercase_of(b.name@))
    }
}

/// How many entries at the start of `s` do not come after `e`: where `e` goes
/// in a sorted `s`, behind its equals.
pub open spec fn rank(s: Seq<ListingEntry>, e: ListingEntry) -> int
    decreases s.len(),
{
    if s.len() == 0 {
        0
    } else if entry_before(e, s[0]) {
        0
    } else {
        1 + rank(s.skip(1), e)
    }
}

proof fn lemma_rank(s: Seq<ListingEntry>, e: ListingEntry)
    ensures
        0 <= rank(s, e) <= s.len(),
        forall|j: int| 0 <= j < rank(s, e) ==> !entry_before(e, #[trigger] s[j]),
        rank(s, e) < s.len() ==> entry_before(e, s[rank(s, e)]),
    decreases s.len(),
{
    if s.len() != 0 && !entry_before(e, s[0]) {
        let t = s.skip(1);
        lemma_rank(t, e);
        assert forall|j: int| 0 <= j < rank(s, e) implies !entry_before(e, #[trigger] s[j]) by {
            if j > 0 {
                assert(t[j - 1] == s[j]);
            }
        }
        if rank(t, e) < t.len() {
            assert(t[rank(t, e)] == s[rank(t, e) + 1]);
        }
    }
}

proof fn lemma_rank_unique(s: Seq<ListingEntry>, e: ListingEntry, i: int)
    requires
        0 <= i <= s.len(),
        forall|j: int| 0 <= j < i ==> !entry_before(e, #[trigger] s[j]),
        i < s.len() ==> entry_before(e, s[i]),
    ensures
        rank(s, e) == i,
{
    lemma_rank(s, e);
}

/// `s` in the order of a listing. Entries that do not differ in what they are
/// ordered by keep their order.
pub open spec fn sorted(s: Seq<ListingEntry>) -> Seq<ListingEntry>
    decreases s.len(),
{
    if s.len() == 0 {
        s
    } else {
        let t = sorted(s.drop_last());
        t.insert(rank(t, s.last()), s.last())
    }
}

/// Sorting neither adds nor drops an entry.
pub proof fn lemma_sorted_same_entries(s: Seq<ListingEntry>)
    ensures
        sorted(s).len() == s.len(),
        sorted(s).to_multiset() == s.to_multiset(),
    decreases s.len(),
{
    broadcast use vstd::seq_lib::group_to_multiset_ensures;

    if s.len() != 0 {
        let t = sorted(s.drop_last());
        lemma_sorted_same_entries(s.drop_last());
        lemma_rank(t, s.last());
        assert(s =~= s.drop_last().push(s.last()));
    }
}

/// In a sorted listing no entry comes before one that stands ahead of it.
pub proof fn lemma_sorted_ordered(s: Seq<ListingEntry>)
    ensures
        forall|i: int, j: int|
            0 <= i < j < sorted(s).len() ==> !entry_before(
                #[trigger] sorted(s)[j],
                #[trigger] sorted(s)[i],
            ),
    decreases s.len(),
{
    if s.len() != 0 {
        let t = sorted(s.drop_last());
        let e = s.last();
        let p = rank(t, e);
        let r = sorted(s);
        lemma_sorted_ordered(s.drop_last());
        lemma_rank(t, e);
        assert forall|i: int, j: int| 0 <= i < j < r.len() implies !entry_before(
            #[trigger] r[j],
            #[trigger] r[i],
        ) by {
            if j == p {
                assert(r[i] == t[i]);
            } else if i == p {
                assert(r[j] == t[j - 1]);
                if entry_before(r[j], e) {
                    if j - 1 > p {
                        assert(!entry_before(t[j - 1], t[p]));
                    }
                    if e.is_file == t[p].is_file && r[j].is_file == e.is_file {
                        crate::text::lemma_text_before_transitive(
                            lowercase_of(r[j].name@),
                            lowercase_of(e.name@),
                            lowercase_of(t[p].name@),
                        );
                        crate::text::lemma_text_before_asymmetric(
                            lowercase_of(e.name@),
                            lowercase_of(t[p].name@),
                        );
                    }
                }
            } else {
                let i0 = if i < p { i } else { i - 1 };
                let j0 = if j < p { j } else { j - 1 };
                assert(r[i] == t[i0] && r[j] == t[j0]);
            }
        }
    }
}

impl ListingEntry {
    /// Whether a listing shows the entry.
    pub fn is_visible(&self, follow_symlinks: bool, sandbox_symlinks: bool) -> (r: bool)
        ensures
            r == visible(*self, follow_symlinks, sandbox_symlinks),
    {
        !self.symlink || (follow_symlinks && (!sandbox_symlinks || self.inside_root))
    }
}

/// Drops the entries that a listing does not show.
pub fn visible_entries(
    entries: Vec<ListingEntry>,
    follow_symlinks: bool,
    sandbox_symlinks: bool,
) -> (r: Vec<ListingEntry>)
    ensures
        r@ == shown(entries@, follow_symlinks, sandbox_symlinks),
{
    let mut rest = entries;
    let mut out: Vec<ListingEntry> = Vec::new();
    let ghost all = rest@;
    assert(all.take(0) =~= Seq::<ListingEntry>::empty());
    assert(all.skip(0) =~= all);
    while rest.len() > 0
        invariant
            rest@.len() <= all.len(),
            rest@ == all.skip(all.len() - rest@.len()),
            out@ == shown(all.take(all.len() - rest@.len()), follow_symlinks, sandbox_symlinks),
        decreases rest.len(),
    {
        let ghost k = all.len() - rest@.len();
        let e = rest.remove(0);
        proof {
            assert(e == all[k]);
            assert(rest@ =~= all.skip(k + 1));
            assert(all.take(k + 1).drop_last() =~= all.take(k));
            assert(all.take(k + 1).last() == e);
        }
        if e.is_visible(follow_symlinks, sandbox_symlinks) {
            out.push(e);
        }
    }
    assert(all.take(all.len() as int) =~= all);
    out
}

fn key_before(a_file: bool, a_key: &Vec<char>, b_file: bool, b_key: &Vec<char>) -> (r: bool)
    ensures
        r == if a_file != b_file {
            !a_file
        } else {
            text_before(a_key@, b_key@)
        },
{
    if a_file != b_file {
        !a_file
    } else {
        comes_before(a_key, b_key)
    }
}

/// Puts the entries of a listing in order.
pub fn sort_entries(entries: Vec<ListingEntry>) -> (r: Vec<ListingEntry>)
    ensures
        r@ == sorted(entries@),
{
    let mut rest = entries;
    let mut out: Vec<ListingEntry> = Vec::new();
    let mut keys: Vec<Vec<char>> = Vec::new();
    let ghost all = rest@;
    assert(all.take(0) =~= Seq::<ListingEntry>::empty());
    assert(all.skip(0) =~= all);
    while rest.len() > 0
        invariant
            rest@.len() <= all.len(),
            rest@ == all.skip(all.len() - rest@.len()),
            out@ == sorted(all.take(all.len() - rest@.len())),
            keys@.len() == out@.len(),
            forall|j: int| 0 <= j < out@.len() ==> (#[trigger] keys@[j])@ == lowercase_of(out@[j].name@),
        decreases rest.len(),
    {
        let ghost k = all.len() - rest@.len();
        let e = rest.remove(0);
        proof {
            assert(e == all[k]);
            assert(rest@ =~= all.skip(k + 1));
            assert(all.take(k + 1).drop_last() =~= all.take(k));
            assert(all.take(k + 1).last() == e);
        }
        let key = chars_of(to_lowercase(e.name.as_str()).as_str());
        let mut p: usize = 0;
        while p < out.len() && !key_before(e.is_file, &key, out[p].is_file, &keys[p])
            invariant
                p <= out@.len(),
                keys@.len() == out@.len(),
                key@ == lowercase_of(e.name@),
                forall|j: int|
                    0 <= j < out@.len() ==> (#[trigger] keys@[j])@ == lowercase_of(out@[j].name@),
                forall|j: int| 0 <= j < p ==> !entry_before(e, #[trigger] out@[j]),
            decreases out@.len() - p,
        {
            p = p + 1;
        }
        proof {
            lemma_rank_unique(out@, e, p as int);
        }
        out.insert(p, e);
        keys.insert(p, key);
    }
    assert(all.take(all.len() as int) =~= all);
    out
}

/// The path of the listed directory as links are built on it: the request's
/// path with a slash behind it, and no slash doubled.
pub open spec fn relative_path(url_path: Seq<char>) -> Seq<char> {
    slashes_halved(url_path + seq!['/'])
}

/// The path that the links of the listing for `url_path` are built on.
pub fn relpath_of(url_path: &str) -> (r: Vec<char>)
    ensures
        r@ == relative_path(url_path@),
{
    let mut chars = chars_of(url_path);
    chars.push('/');
    assert(chars@ =~= url_path@ + seq!['/']);
    halve_slashes(&chars)
}

/// What a link to the listed directory starts with.
pub open spec fn link_base(relpath: Seq<char>) -> Seq<char> {
    specials_escaped(slashes_halved(seq!['/'] + relpath))
}

/// What a link to the entry `name` ends with.
pub open spec fn link_name(name: Seq<char>) -> Seq<char> {
    tail_encoded(specials_escaped(name))
}

/// `name` with each dot replaced by an underscore: the entry's `id`.
pub open spec fn element_id(name: Seq<char>) -> Seq<char> {
    Seq::new(
        name.len(),
        |i: int|
            if name[i] == '.' {
                '_'
            } else {
                name[i]
            },
    )
}

/// The start of the class of an entry's icon.
pub open spec fn kind_word(is_file: bool) -> Seq<char> {
    if is_file {
        "file"@
    } else {
        "dir"@
    }
}

/// What follows a directory's name.
pub open spec fn kind_slash(is_file: bool) -> Seq<char> {
    if is_file {
        ""@
    } else {
        "/"@
    }
}

/// What is added to the name of the icon of `e`.
pub open spec fn entry_icon(e: ListingEntry) -> Seq<char> {
    if e.is_file {
        icon_suffix(known_mime(e.extension@), e.binary)
    } else {
        ""@
    }
}

/// The cell that holds an entry's size.
pub open spec fn size_cell(e: ListingEntry) -> Seq<char> {
    if e.is_file {
        "<abbr title=\""@ + dec_digits(e.size as nat) + " B\">"@ + human_readable(e.size as nat)
            + "</abbr>"@
    } else {
        "&nbsp;"@
    }
}

/// The cell that holds the controls to delete and rename an entry.
pub open spec fn manage_cell(controls: bool, webdav: bool) -> Seq<char> {
    if !controls {
        ""@
    } else if webdav {
        "<td><a href=\"#delete_file\" class=\"delete_file_icon\">Delete</a>"@
            + " <a href=\"#rename\" class=\"rename_icon\">Rename</a>"@ + "</td>"@
    } else {
        "<td><a href=\"#delete_file\" class=\"delete_file_icon\">Delete</a>"@ + "</td>"@
    }
}

/// One row of the table that lists a directory.
pub open spec fn row_text(e: ListingEntry, relpath: Seq<char>, controls: bool, webdav: bool) -> Seq<
    char,
> {
    let href = link_base(relpath) + link_name(e.name@);
    "<tr><td><a href=\""@ + href + "\" id=\""@ + element_id(e.name@) + "\" class=\""@ + kind_word(
        e.is_file,
    ) + entry_icon(e) + "_icon\"></a></td> <td><a href=\""@ + href + "\">"@ + without_html(e.name@)
        + kind_slash(e.is_file) + "</a></td> <td><a href=\""@ + href + "\" class=\"datetime\">"@
        + e.modified@ + "</a></td> <td><a href=\""@ + href + "\">"@ + size_cell(e)
        + "</a></td> "@ + manage_cell(controls, webdav) + "</tr>\n"@
}

/// The size of an entry as the listing for small screens shows it.
pub open spec fn size_span(e: ListingEntry) -> Seq<char> {
    if e.is_file {
        "<span class=\"size\">"@ + human_readable(e.size as nat) + "</span>"@
    } else {
        ""@
    }
}

/// The controls to delete and rename an entry, for small screens.
pub open spec fn manage_span(controls: bool, webdav: bool) -> Seq<char> {
    if !controls {
        ""@
    } else if webdav {
        "<span class=\"manage\"><span class=\"delete_file_icon\">Delete</span>"@
            + " <span class=\"rename_icon\">Rename</span>"@ + "</span>"@
    } else {
        "<span class=\"manage\"><span class=\"delete_file_icon\">Delete</span>"@ + "</span>"@
    }
}

/// One entry of the listing for small screens.
pub open spec fn mobile_row_text(
    e: ListingEntry,
    relpath: Seq<char>,
    controls: bool,
    webdav: bool,
) -> Seq<char> {
    let href = link_base(relpath) + link_name(e.name@);
    "<a href=\""@ + href + "\" class=\"list entry top\"><span class=\""@ + kind_word(e.is_file)
        + entry_icon(e) + "_icon\" id=\""@ + element_id(e.name@) + "\">"@ + without_html(e.name@)
        + kind_slash(e.is_file) + "</span>"@ + manage_span(controls, webdav) + "</a> <a href=\""@
        + href + "\" class=\"list entry bottom\"><span class=\"marker\">@</span><span class=\"datetime\">"@
        + e.modified@ + " UTC</span>"@ + size_span(e) + "</a>\n"@
}

fn href_of(e: &ListingEntry, relpath: &Vec<char>) -> (r: Vec<char>)
    ensures
        r@ == link_base(relpath@) + link_name(e.name@),
{
    let mut rooted: Vec<char> = Vec::new();
    rooted.push('/');
    append(&mut rooted, relpath);
    assert(rooted@ =~= seq!['/'] + relpath@);
    let halved = string_of(&halve_slashes(&rooted));
    let mut out = chars_of(escape_specials(halved.as_str()).as_str());
    let name = encode_tail_if_trimmed(escape_specials(e.name.as_str()));
    append_str(&mut out, name.as_str());
    out
}

fn id_of(name: &str) -> (r: Vec<char>)
    ensures
        r@ == element_id(name@),
{
    let src = chars_of(name);
    let mut out: Vec<char> = Vec::new();
    let mut i: usize = 0;
    while i < src.len()
        invariant
            i <= src.len(),
            src@ == name@,
            out@.len() == i,
            forall|j: int| 0 <= j < i ==> out@[j] == element_id(src@)[j],
        decreases src.len() - i,
    {
        let c = src[i];
        if c == '.' {
            out.push('_');
        } else {
            out.push(c);
        }
        i = i + 1;
    }
    assert(out@ =~= element_id(name@));
    out
}

fn kind_of(is_file: bool) -> (r: &'static str)
    ensures
        r@ == kind_word(is_file),
{
    if is_file {
        "file"
    } else {
        "dir"
    }
}

fn slash_of(is_file: bool) -> (r: &'static str)
    ensures
        r@ == kind_slash(is_file),
{
    if is_file {
        ""
    } else {
        "/"
    }
}

fn size_cell_of(e: &ListingEntry) -> (r: Vec<char>)
    ensures
        r@ == size_cell(*e),
{
    if e.is_file {
        let mut out = chars_of("<abbr title=\"");
        append(&mut out, &decimal(e.size));
        append_str(&mut out, " B\">");
        append_str(&mut out, HumanReadableSize(e.size).to_string().as_str());
        append_str(&mut out, "</abbr>");
        out
    } else {
        chars_of("&nbsp;")
    }
}

fn manage_cell_of(controls: bool, webdav: bool) -> (r: Vec<char>)
    ensures
        r@ == manage_cell(controls, webdav),
{
    if !controls {
        chars_of("")
    } else {
        let mut out = chars_of("<td><a href=\"#delete_file\" class=\"delete_file_icon\">Delete</a>");
        if webdav {
            append_str(&mut out, " <a href=\"#rename\" class=\"rename_icon\">Rename</a>");
        }
        append_str(&mut out, "</td>");
        out
    }
}

fn size_span_of(e: &ListingEntry) -> (r: Vec<char>)
    ensures
        r@ == size_span(*e),
{
    if e.is_file {
        let mut out = chars_of("<span class=\"size\">");
        append_str(&mut out, HumanReadableSize(e.size).to_string().as_str());
        append_str(&mut out, "</span>");
        out
    } else {
        chars_of("")
    }
}

fn manage_span_of(controls: bool, webdav: bool) -> (r: Vec<char>)
    ensures
        r@ == manage_span(controls, webdav),
{
    if !controls {
        chars_of("")
    } else {
        let mut out = chars_of(
            "<span class=\"manage\"><span class=\"delete_file_icon\">Delete</span>",
        );
        if webdav {
            append_str(&mut out, " <span class=\"rename_icon\">Rename</span>");
        }
        append_str(&mut out, "</span>");
        out
    }
}

/// Writes the row of `e` in the listing of the directory at `relpath`.
pub fn render_row(e: &ListingEntry, relpath: &Vec<char>, controls: bool, webdav: bool) -> (r: Vec<
    char,
>)
    ensures
        r@ == row_text(*e, relpath@, controls, webdav),
{
    let href = href_of(e, relpath);
    let name = chars_of(e.name.as_str());
    let mut out = chars_of("<tr><td><a href=\"");
    append(&mut out, &href);
    append_str(&mut out, "\" id=\"");
    append(&mut out, &id_of(e.name.as_str()));
    append_str(&mut out, "\" class=\"");
    append_str(&mut out, kind_of(e.is_file));
    append_str(&mut out, file_icon_suffix(e.extension.as_str(), e.is_file, e.binary));
    append_str(&mut out, "_icon\"></a></td> <td><a href=\"");
    append(&mut out, &href);
    append_str(&mut out, "\">");
    push_without_html(&mut out, &name);
    append_str(&mut out, slash_of(e.is_file));
    append_str(&mut out, "</a></td> <td><a href=\"");
    append(&mut out, &href);
    append_str(&mut out, "\" class=\"datetime\">");
    append_str(&mut out, e.modified.as_str());
    append_str(&mut out, "</a></td> <td><a href=\"");
    append(&mut out, &href);
    append_str(&mut out, "\">");
    append(&mut out, &size_cell_of(e));
    append_str(&mut out, "</a></td> ");
    append(&mut out, &manage_cell_of(controls, webdav));
    append_str(&mut out, "</tr>\n");
    out
}

/// Writes the entry `e` of the listing for small screens.
pub fn render_mobile_row(e: &ListingEntry, relpath: &Vec<char>, controls: bool, webdav: bool) -> (r:
    Vec<char>)
    ensures
        r@ == mobile_row_text(*e, relpath@, controls, webdav),
{
    let href = href_of(e, relpath);
    let name = chars_of(e.name.as_str());
    let mut out = chars_of("<a href=\"");
    append(&mut out, &href);
    append_str(&mut out, "\" class=\"list entry top\"><span class=\"");
    append_str(&mut out, kind_of(e.is_file));
    append_str(&mut out, file_icon_suffix(e.extension.as_str(), e.is_file, e.binary));
    append_str(&mut out, "_icon\" id=\"");
    append(&mut out, &id_of(e.name.as_str()));
    append_str(&mut out, "\">");
    push_without_html(&mut out, &name);
    append_str(&mut out, slash_of(e.is_file));
    append_str(&mut out, "</span>");
    append(&mut out, &manage_span_of(controls, webdav));
    append_str(&mut out, "</a> <a href=\"");
    append(&mut out, &href);
    append_str(
        &mut out,
        "\" class=\"list entry bottom\"><span class=\"marker\">@</span><span class=\"datetime\">",
    );
    append_str(&mut out, e.modified.as_str());
    append_str(&mut out, " UTC</span>");
    append(&mut out, &size_span_of(e));
    append_str(&mut out, "</a>\n");
    out
}

/// Where the link to the parent of the directory at `relpath` leads: what
/// stands before the last slash inside `relpath`, between slashes, or the
/// root where there is none.
pub open spec fn parent_href(relpath: Seq<char>) -> Seq<char> {
    let inner = if relpath.len() > 0 {
        relpath.drop_last()
    } else {
        relpath
    };
    let i = last_index_of(inner, '/');
    if i >= 0 {
        "/"@ + specials_escaped(inner.take(i)) + "/"@
    } else {
        "/"@ + specials_escaped(Seq::empty())
    }
}

fn parent_href_of(relpath: &Vec<char>) -> (r: Vec<char>)
    ensures
        r@ == parent_href(relpath@),
{
    let end = if relpath.len() > 0 {
        relpath.len() - 1
    } else {
        0
    };
    let inner = slice(relpath, 0, end);
    assert(inner@ =~= if relpath@.len() > 0 {
        relpath@.drop_last()
    } else {
        relpath@
    });
    proof {
        crate::text::lemma_last_index_of(inner@, '/');
    }
    let mut out = chars_of("/");
    match rfind_char(&inner, '/') {
        Some(i) => {
            let up = string_of(&slice(&inner, 0, i));
            assert(up@ =~= inner@.take(i as int));
            append_str(&mut out, escape_specials(up.as_str()).as_str());
            append_str(&mut out, "/");
        },
        None => {
            let up = String::new();
            append_str(&mut out, escape_specials(up.as_str()).as_str());
        },
    }
    out
}

/// The row that leads to the parent directory.
pub open spec fn parent_row_text(relpath: Seq<char>, modified: Seq<char>) -> Seq<char> {
    let href = parent_href(relpath);
    "<tr><td><a href=\""@ + href + "\" id=\"parent_dir\" class=\"back_arrow_icon\"></a></td> <td><a href=\""@
        + href + "\">Parent directory</a></td> <td><a href=\""@ + href + "\" class=\"datetime\">"@
        + modified + "</a></td> <td><a href=\""@ + href + "\">&nbsp;</a></td> <td><a href=\""@ + href
        + "\">&nbsp;</a></td></tr>"@
}

/// The entry that leads to the parent directory, for small screens.
pub open spec fn mobile_parent_text(relpath: Seq<char>, modified: Seq<char>) -> Seq<char> {
    let href = parent_href(relpath);
    "<a href=\""@ + href
        + "\" class=\"list entry top\"><span class=\"back_arrow_icon\">Parent directory</span></a> <a href=\""@
        + href
        + "\" class=\"list entry bottom\"><span class=\"marker\">@</span><span class=\"datetime\">"@
        + modified + " UTC</span></a>"@
}

/// Writes the row that leads to the parent of the directory at `relpath`.
pub fn render_parent_row(relpath: &Vec<char>, modified: &str) -> (r: Vec<char>)
    ensures
        r@ == parent_row_text(relpath@, modified@),
{
    let href = parent_href_of(relpath);
    let mut out = chars_of("<tr><td><a href=\"");
    append(&mut out, &href);
    append_str(
        &mut out,
        "\" id=\"parent_dir\" class=\"back_arrow_icon\"></a></td> <td><a href=\"",
    );
    append(&mut out, &href);
    append_str(&mut out, "\">Parent directory</a></td> <td><a href=\"");
    append(&mut out, &href);
    append_str(&mut out, "\" class=\"datetime\">");
    append_str(&mut out, modified);
    append_str(&mut out, "</a></td> <td><a href=\"");
    append(&mut out, &href);
    append_str(&mut out, "\">&nbsp;</a></td> <td><a href=\"");
    append(&mut out, &href);
    append_str(&mut out, "\">&nbsp;</a></td></tr>");
    out
}

/// Writes the entry that leads to the parent of the directory at `relpath`,
/// for small screens.
pub fn render_mobile_parent(relpath: &Vec<char>, modified: &str) -> (r: Vec<char>)
    ensures
        r@ == mobile_parent_text(relpath@, modified@),
{
    let href = parent_href_of(relpath);
    let mut out = chars_of("<a href=\"");
    append(&mut out, &href);
    append_str(
        &mut out,
        "\" class=\"list entry top\"><span class=\"back_arrow_icon\">Parent directory</span></a> <a href=\"",
    );
    append(&mut out, &href);
    append_str(
        &mut out,
        "\" class=\"list entry bottom\"><span class=\"marker\">@</span><span class=\"datetime\">",
    );
    append_str(&mut out, modified);
    append_str(&mut out, " UTC</span></a>");
    out
}

/// The rows of `entries`, one after the other.
pub open spec fn rows_text(
    entries: Seq<ListingEntry>,
    relpath: Seq<char>,
    controls: bool,
    webdav: bool,
    mobile: bool,
) -> Seq<char>
    decreases entries.len(),
{
    if entries.len() == 0 {
        Seq::empty()
    } else {
        rows_text(entries.drop_last(), relpath, controls, webdav, mobile) + if mobile {
            mobile_row_text(entries.last(), relpath, controls, webdav)
        } else {
            row_text(entries.last(), relpath, controls, webdav)
        }
    }
}

/// Writes the rows of `entries`, for small screens where `mobile`.
pub fn render_rows(
    entries: &Vec<ListingEntry>,
    relpath: &Vec<char>,
    controls: bool,
    webdav: bool,
    mobile: bool,
) -> (r: Vec<char>)
    ensures
        r@ == rows_text(entries@, relpath@, controls, webdav, mobile),
{
    let mut out: Vec<char> = Vec::new();
    let mut i: usize = 0;
    assert(entries@.take(0) =~= Seq::<ListingEntry>::empty());
    while i < entries.len()
        invariant
            i <= entries.len(),
            out@ == rows_text(entries@.take(i as int), relpath@, controls, webdav, mobile),
        decreases entries.len() - i,
    {
        let row = if mobile {
            render_mobile_row(&entries[i], relpath, controls, webdav)
        } else {
            render_row(&entries[i], relpath, controls, webdav)
        };
        append(&mut out, &row);
        i = i + 1;
        proof {
            let t = entries@.take(i as int);
            assert(t.drop_last() =~= entries@.take(i - 1));
            assert(t.last() == entries@[i - 1]);
        }
    }
    assert(entries@.take(i as int) =~= entries@);
    out
}

/// The parts of a listing that depend on the directory: a page is these, set
/// into the frame that goes with the kind of screen.
pub struct Listing {
    /// The directory's path, with a slash at its end.
    pub relpath: String,
    /// The link to the parent directory; empty for the root.
    pub parent: String,
    /// The entries' rows.
    pub rows: String,
}

/// What the listing of a directory holds: the entries that are shown, in
/// order, each as its row, and above them the way to the parent unless the
/// directory is the root.
pub open spec fn listing_of(
    url_path: Seq<char>,
    is_root: bool,
    parent_modified: Seq<char>,
    entries: Seq<ListingEntry>,
    follow_symlinks: bool,
    sandbox_symlinks: bool,
    controls: bool,
    webdav: bool,
    mobile: bool,
) -> (Seq<char>, Seq<char>, Seq<char>) {
    let relpath = relative_path(url_path);
    (
        relpath,
        if is_root {
            Seq::empty()
        } else if mobile {
            mobile_parent_text(relpath, parent_modified)
        } else {
            parent_row_text(relpath, parent_modified)
        },
        rows_text(
            sorted(shown(entries, follow_symlinks, sandbox_symlinks)),
            relpath,
            controls,
            webdav,
            mobile,
        ),
    )
}

/// Builds the listing of the directory that the request for `url_path` names.
pub fn build_listing(
    url_path: &str,
    is_root: bool,
    parent_modified: &str,
    entries: Vec<ListingEntry>,
    follow_symlinks: bool,
    sandbox_symlinks: bool,
    controls: bool,
    webdav: bool,
    mobile: bool,
) -> (r: Listing)
    ensures
        (r.relpath@, r.parent@, r.rows@) == listing_of(
            url_path@,
            is_root,
            parent_modified@,
            entries@,
            follow_symlinks,
            sandbox_symlinks,
            controls,
            webdav,
            mobile,
        ),
{
    let relpath = relpath_of(url_path);
    let parent = if is_root {
        String::new()
    } else if mobile {
        string_of(&render_mobile_parent(&relpath, parent_modified))
    } else {
        string_of(&render_parent_row(&relpath, parent_modified))
    };
    let list = sort_entries(visible_entries(entries, follow_symlinks, sandbox_symlinks));
    let rows = render_rows(&list, &relpath, controls, webdav, mobile);
    Listing { relpath: string_of(&relpath), parent, rows: string_of(&rows) }
}

} // verus!
