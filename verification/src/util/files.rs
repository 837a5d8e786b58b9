//! What the server concludes from a file's first bytes, its kind, its place
//! in the tree and its name.

use crate::text::{
    append, chars_of, contains, dec_digits, decimal, find_char, hex_digits, index_of, lower_hex,
    occurs, same, slice, string_of,
};
use vstd::prelude::*;
use vstd::string::StringSliceAdditionalSpecFns;
use vstd::utf8::valid_utf8;

verus! {

/// The error of `core::str::from_utf8`, which is only passed on.
#[verifier::external_type_specification]
#[verifier::external_body]
pub struct ExUtf8Error(core::str::Utf8Error);

/// `core::str::from_utf8` succeeds exactly on byte strings that are UTF-8, and
/// then gives the text that the bytes encode.
pub assume_specification[ core::str::from_utf8 ](v: &[u8]) -> (r: Result<
    &str,
    core::str::Utf8Error,
>)
    ensures
        r is Ok <==> valid_utf8(v@),
        r is Ok ==> r->Ok_0.spec_bytes() == v@,
;

/// How many bytes of a file are looked at to tell text from binary data.
pub const BINARY_PROBE: usize = 2048;

/// The offset of the first line feed in `s`, or the length of `s`.
pub open spec fn line_end(s: Seq<u8>) -> int
    decreases s.len(),
{
    if s.len() == 0 {
        0
    } else if s[0] == 10 {
        0
    } else {
        1 + line_end(s.skip(1))
    }
}

proof fn lemma_line_end(s: Seq<u8>, i: int)
    requires
        0 <= i <= s.len(),
        forall|j: int| 0 <= j < i ==> s[j] != 10,
        i < s.len() ==> s[i] == 10,
    ensures
        line_end(s) == i,
    decreases s.len(),
{
    if s.len() != 0 && s[0] != 10 {
        let t = s.skip(1);
        assert forall|j: int| 0 <= j < i - 1 implies t[j] != 10 by {
            assert(t[j] == s[j + 1]);
        }
        lemma_line_end(t, i - 1);
    }
}

/// The part of a file that decides: of its first 2048 bytes, those before the
/// first line feed.
pub open spec fn first_line(head: Seq<u8>) -> Seq<u8> {
    let probe = if head.len() > BINARY_PROBE {
        head.take(BINARY_PROBE as int)
    } else {
        head
    };
    probe.take(line_end(probe))
}

/// A file is binary if its first line holds a NUL byte or is not UTF-8.
pub open spec fn is_binary(head: Seq<u8>) -> bool {
    let line = first_line(head);
    (exists|i: int| 0 <= i < line.len() && line[i] == 0) || !valid_utf8(line)
}

/// Whether a file that starts with `head` is to be taken as binary data.
/// `head` holds the file's first bytes: all of them, or at least 2048.
pub fn file_binary(head: &Vec<u8>) -> (binary: bool)
    ensures
        binary == is_binary(head@),
{
    let n: usize = if head.len() > BINARY_PROBE {
        BINARY_PROBE
    } else {
        head.len()
    };
    let ghost probe = head@.take(n as int);
    assert(head.len() <= BINARY_PROBE ==> probe =~= head@);
    let mut line: Vec<u8> = Vec::new();
    let mut nul = false;
    let mut i: usize = 0;
    while i < n && head[i] != 10
        invariant
            i <= n <= head.len(),
            probe == head@.take(n as int),
            line@ == probe.take(i as int),
            forall|j: int| 0 <= j < i ==> probe[j] != 10,
            nul ==> exists|j: int| 0 <= j < i && probe[j] == 0,
            !nul ==> forall|j: int| 0 <= j < i ==> probe[j] != 0,
        decreases n - i,
    {
        if head[i] == 0 {
            nul = true;
            assert(probe[i as int] == 0);
        }
        line.push(head[i]);
        i = i + 1;
        assert(line@ =~= probe.take(i as int));
    }
    proof {
        lemma_line_end(probe, i as int);
        assert(line@ == first_line(head@));
        if nul {
            let j = choose|j: int| 0 <= j < i && probe[j] == 0;
            assert(line@[j] == 0);
        }
    }
    nul || core::str::from_utf8(line.as_slice()).is_err()
}

/// Whether a file stands where a directory is needed: whether any of the
/// path's ancestors, given by whether each is a regular file, is one.
pub fn detect_file_as_dir(ancestor_is_file: &Vec<bool>) -> (r: bool)
    ensures
        r <==> exists|i: int| 0 <= i < ancestor_is_file@.len() && ancestor_is_file@[i],
{
    let mut i: usize = 0;
    while i < ancestor_is_file.len()
        invariant
            i <= ancestor_is_file.len(),
            forall|j: int| 0 <= j < i ==> !ancestor_is_file@[j],
        decreases ancestor_is_file.len() - i,
    {
        if ancestor_is_file[i] {
            return true;
        }
        i = i + 1;
    }
    false
}

/// The kinds of thing that a path can name.
#[derive(Debug, Clone, Copy, PartialEq, Eq, Structural)]
pub enum FileKind {
    File,
    Directory,
    Symlink,
    /// A device, a pipe or a socket.
    Device,
}

/// Whether a path names something that is read like a file: a regular file, a
/// device, or a link that leads to one of these. `target` is the kind of what
/// a link leads to, where that could be found out.
pub fn is_actually_file(kind: FileKind, target: Option<FileKind>) -> (r: bool)
    ensures
        r == match kind {
            FileKind::File | FileKind::Device => true,
            FileKind::Directory => false,
            FileKind::Symlink => target == Some(FileKind::File) || target == Some(
                FileKind::Device,
            ),
        },
{
    match kind {
        FileKind::File => true,
        FileKind::Device => true,
        FileKind::Directory => false,
        FileKind::Symlink => match target {
            Some(FileKind::File) => true,
            Some(FileKind::Device) => true,
            _ => false,
        },
    }
}

/// The components of `root` are the first components of `path`.
pub open spec fn starts_with_path(path: Seq<String>, root: Seq<String>) -> bool {
    &&& root.len() <= path.len()
    &&& forall|i: int| 0 <= i < root.len() ==> (#[trigger] path[i])@ == root[i]@
}

fn path_starts_with(path: &Vec<String>, root: &Vec<String>) -> (r: bool)
    ensures
        r == starts_with_path(path@, root@),
{
    if root.len() > path.len() {
        return false;
    }
    let mut i: usize = 0;
    while i < root.len()
        invariant
            i <= root.len() <= path.len(),
            forall|j: int| 0 <= j < i ==> (#[trigger] path@[j])@ == root@[j]@,
        decreases root.len() - i,
    {
        if path[i] != root[i] {
            return false;
        }
        i = i + 1;
    }
    true
}

/// Whether `who` lies in the tree under `of_whom`, or is `of_whom` itself.
/// Each path is given by the components of its canonical form, and is `None`
/// where it has none.
pub fn is_descendant_of(who: &Option<Vec<String>>, of_whom: &Option<Vec<String>>) -> (r: bool)
    ensures
        r == match (*who, *of_whom) {
            (Some(w), Some(o)) => starts_with_path(w@, o@),
            _ => false,
        },
{
    match (who, of_whom) {
        (Some(w), Some(o)) => path_starts_with(w, o),
        _ => false,
    }
}

/// As `is_descendant_of`, for a path that need not exist: `who` is the
/// canonical form of its longest ancestor that exists, followed by the
/// components that are not there yet.
pub fn is_nonexistent_descendant_of(who: &Vec<String>, of_whom: &Option<Vec<String>>) -> (r: bool)
    ensures
        r == match *of_whom {
            Some(o) => starts_with_path(who@, o@),
            None => false,
        },
{
    match of_whom {
        Some(o) => path_starts_with(who, o),
        None => false,
    }
}

/// Whether the client says of itself that it is a mobile device.
pub fn client_mobile(user_agent: Option<&str>) -> (r: bool)
    ensures
        r == match user_agent {
            Some(ua) => occurs(ua@, "Mobi"@) || occurs(ua@, "mobi"@),
            None => false,
        },
{
    match user_agent {
        Some(ua) => {
            let hay = chars_of(ua);
            contains(&hay, &chars_of("Mobi")) || contains(&hay, &chars_of("mobi"))
        },
        None => false,
    }
}

/// Whether the client says of itself that it is Microsoft software.
pub fn client_microsoft(user_agent: Option<&str>) -> (r: bool)
    ensures
        r == match user_agent {
            Some(ua) => occurs(ua@, "Microsoft"@) || occurs(ua@, "microsoft"@),
            None => false,
        },
{
    match user_agent {
        Some(ua) => {
            let hay = chars_of(ua);
            contains(&hay, &chars_of("Microsoft")) || contains(&hay, &chars_of("microsoft"))
        },
        None => false,
    }
}

/// The entity tag of a file: the volume it is on in hexadecimal, its number
/// on that volume and the time it was last written in decimal, with hyphens
/// between them.
pub open spec fn etag_text(volume: u64, file_id: u64, mtime: u64) -> Seq<char> {
    hex_digits(volume as nat) + seq!['-'] + dec_digits(file_id as nat) + seq!['-'] + dec_digits(
        mtime as nat,
    )
}

/// The entity tag of the file that is number `file_id` on `volume` and was
/// last written at `mtime`. It depends on nothing else.
pub fn file_etag(volume: u64, file_id: u64, mtime: u64) -> (tag: String)
    ensures
        tag@ == etag_text(volume, file_id, mtime),
{
    let mut out = lower_hex(volume);
    out.push('-');
    append(&mut out, &decimal(file_id));
    out.push('-');
    append(&mut out, &decimal(mtime));
    assert(out@ =~= etag_text(volume, file_id, mtime));
    string_of(&out)
}

/// The media type that `mime_guess` knows for the extension `ext`.
pub uninterp spec fn known_mime(ext: Seq<char>) -> Option<Seq<char>>;

/// Looks `ext` up in the table of `mime_guess`, through its
/// `get_mime_type_str`: the type's text for an extension that the table
/// holds, whatever its case, and `None` otherwise.
#[verifier::external_body]
pub(crate) fn get_mime_type_str(ext: &str) -> (r: Option<String>)
    ensures
        match r {
            Some(m) => known_mime(ext@) == Some(m@),
            None => known_mime(ext@) is None,
        },
{
    mime_guess::get_mime_type_str(ext).map(|m| m.to_string())
}

/// The part of a media type before its slash.
pub open spec fn top_level(mime: Seq<char>) -> Seq<char> {
    mime.take(index_of(mime, '/'))
}

/// What is added to an icon's name for a file of media type `mime`, or of no
/// known type and then binary or not.
pub open spec fn icon_suffix(mime: Option<Seq<char>>, binary: bool) -> Seq<char> {
    match mime {
        Some(m) => if top_level(m) == "image"@ || top_level(m) == "video"@ {
            "_image"@
        } else if top_level(m) == "text"@ {
            "_text"@
        } else if top_level(m) == "application"@ {
            "_binary"@
        } else {
            ""@
        },
        None => if binary {
            ""@
        } else {
            "_text"@
        },
    }
}

/// As `file_icon_suffix`, for a file whose media type has been looked up.
pub fn icon_suffix_for(mime: &Option<String>, binary: bool) -> (r: &'static str)
    ensures
        r@ == icon_suffix(
            match *mime {
                Some(m) => Some(m@),
                None => None,
            },
            binary,
        ),
{
    match mime {
        Some(m) => {
            let chars = chars_of(m.as_str());
            proof {
                crate::text::lemma_index_of(chars@, '/');
            }
            let top = slice(&chars, 0, find_char(&chars, '/'));
            if same(&top, &chars_of("image")) || same(&top, &chars_of("video")) {
                "_image"
            } else if same(&top, &chars_of("text")) {
                "_text"
            } else if same(&top, &chars_of("application")) {
                "_binary"
            } else {
                ""
            }
        },
        None => if binary {
            ""
        } else {
            "_text"
        },
    }
}

/// What is added to an icon's name to show what an entry of a listing is:
/// nothing for a directory; for a file, a word for the media type that goes
/// with its extension `ext`, or, where none does, for text unless `binary`.
pub fn file_icon_suffix(ext: &str, is_file: bool, binary: bool) -> (r: &'static str)
    ensures
        r@ == if is_file {
            icon_suffix(known_mime(ext@), binary)
        } else {
            ""@
        },
{
    if is_file {
        let mime = get_mime_type_str(ext);
        icon_suffix_for(&mime, binary)
    } else {
        ""
    }
}

/// The last second of the year 9999, in seconds since the epoch: times up to
/// it are written with a year of four digits.
pub const LAST_SECOND: i64 = 253402300799;

/// The time `secs` seconds after the epoch as HTTP headers write it, such as
/// `Tue, 14 Nov 2023 22:13:20 GMT`.
pub uninterp spec fn http_date_text(secs: i64) -> Seq<char>;

/// The time `secs` seconds after the epoch as listings write it, such as
/// `2023-11-14 22:13:20`.
pub uninterp spec fn listing_time_text(secs: i64) -> Seq<char>;

/// `time::at_utc` and `Tm::rfc822`: the time in UTC in the form of RFC 822.
/// The conversion fails only for times whose year does not fit in 32 bits,
/// which the bounds leave out.
#[verifier::external_body]
fn rfc822(secs: i64) -> (r: String)
    requires
        0 <= secs <= LAST_SECOND,
    ensures
        r@ == http_date_text(secs),
{
    time::at_utc(time::Timespec::new(secs, 0)).rfc822().to_string()
}

/// `time::at_utc` and `Tm::strftime` with the format `%F %T`: the date and
/// the time of day in UTC.
#[verifier::external_body]
fn date_and_time(secs: i64) -> (r: String)
    requires
        0 <= secs <= LAST_SECOND,
    ensures
        r@ == listing_time_text(secs),
{
    time::at_utc(time::Timespec::new(secs, 0)).strftime("%F %T").map(|t| t.to_string()).unwrap_or_default()
}

/// The value of a `Last-Modified` header for a file that was last changed
/// `secs` seconds after the epoch; `None` for a time before the epoch or
/// after the year 9999.
pub fn file_time_modified(secs: i64) -> (r: Option<String>)
    ensures
        match r {
            Some(t) => 0 <= secs <= LAST_SECOND && t@ == http_date_text(secs),
            None => !(0 <= secs <= LAST_SECOND),
        },
{
    if 0 <= secs && secs <= LAST_SECOND {
        Some(rfc822(secs))
    } else {
        None
    }
}

/// The time of the last change as a listing shows it, for a file that was
/// last changed `secs` seconds after the epoch; `None` for a time before the
/// epoch or after the year 9999.
pub fn listing_time(secs: i64) -> (r: Option<String>)
    ensures
        match r {
            Some(t) => 0 <= secs <= LAST_SECOND && t@ == listing_time_text(secs),
            None => !(0 <= secs <= LAST_SECOND),
        },
{
    if 0 <= secs && secs <= LAST_SECOND {
        Some(date_and_time(secs))
    } else {
        None
    }
}

} // verus!
