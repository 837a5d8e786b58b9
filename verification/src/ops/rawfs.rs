//! The description of files and directories that programs ask for instead of
//! a page.

use crate::ops::listing::{shown, visible_entries, ListingEntry};
use crate::ops::HttpHandler;
use crate::text::{chars_of, string_of};
use crate::util::files::{get_mime_type_str, known_mime};
use vstd::prelude::*;

verus! {

/// What is told of one file or directory.
pub struct RawFileData {
    pub mime_type: String,
    pub name: String,
    pub last_modified: String,
    pub size: u64,
    pub is_file: bool,
}

/// A `RawFileData` as the texts that it holds.
pub struct RawFileDataView {
    pub mime_type: Seq<char>,
    pub name: Seq<char>,
    pub last_modified: Seq<char>,
    pub size: u64,
    pub is_file: bool,
}

impl View for RawFileData {
    type V = RawFileDataView;

    open spec fn view(&self) -> RawFileDataView {
        RawFileDataView {
            mime_type: self.mime_type@,
            name: self.name@,
            last_modified: self.last_modified@,
            size: self.size,
            is_file: self.is_file,
        }
    }
}

/// What is told of a file, or of the entries of a directory.
pub struct FilesetData {
    pub writes_supported: bool,
    pub is_root: bool,
    pub is_file: bool,
    pub files: Vec<RawFileData>,
}

/// The records of `files` as texts.
pub open spec fn record_views(files: Seq<RawFileData>) -> Seq<RawFileDataView> {
    Seq::new(files.len(), |i: int| files[i]@)
}

/// The media type that is told of a file: the built-in one for its
/// extension, else that of binary data or of text.
pub open spec fn raw_mime(ext: Seq<char>, binary: bool) -> Seq<char> {
    match known_mime(ext) {
        Some(m) => m,
        None => if binary {
            "application/octet-stream"@
        } else {
            "text/plain"@
        },
    }
}

/// What is told of the entry `e` of a directory.
pub open spec fn record_of(e: ListingEntry) -> RawFileDataView {
    if e.is_file {
        RawFileDataView {
            mime_type: raw_mime(e.extension@, e.binary),
            name: e.name@,
            last_modified: e.modified@,
            size: e.size,
            is_file: true,
        }
    } else {
        RawFileDataView {
            mime_type: "text/directory"@,
            name: e.name@,
            last_modified: e.modified@,
            size: 0,
            is_file: false,
        }
    }
}

/// What is told of a file.
pub fn get_raw_fs_metadata(name: &str, ext: &str, modified: &str, size: u64, binary: bool) -> (r:
    RawFileData)
    ensures
        r@ == (RawFileDataView {
            mime_type: raw_mime(ext@, binary),
            name: name@,
            last_modified: modified@,
            size,
            is_file: true,
        }),
{
    let mime_type = match get_mime_type_str(ext) {
        Some(m) => m,
        None => if binary {
            string_of(&chars_of("application/octet-stream"))
        } else {
            string_of(&chars_of("text/plain"))
        },
    };
    RawFileData {
        mime_type,
        name: string_of(&chars_of(name)),
        last_modified: string_of(&chars_of(modified)),
        size,
        is_file: true,
    }
}

fn record(e: &ListingEntry) -> (r: RawFileData)
    ensures
        r@ == record_of(*e),
{
    if e.is_file {
        get_raw_fs_metadata(
            e.name.as_str(),
            e.extension.as_str(),
            e.modified.as_str(),
            e.size,
            e.binary,
        )
    } else {
        RawFileData {
            mime_type: string_of(&chars_of("text/directory")),
            name: e.name.clone(),
            last_modified: e.modified.clone(),
            size: 0,
            is_file: false,
        }
    }
}

/// The number of slashes in `s`.
pub open spec fn slash_count(s: Seq<char>) -> nat
    decreases s.len(),
{
    if s.len() == 0 {
        0
    } else {
        slash_count(s.drop_last()) + if s.last() == '/' {
            1nat
        } else {
            0nat
        }
    }
}

/// Whether a request names the hosted directory itself: its path has one
/// slash and no more, and its address ends in a slash.
pub open spec fn names_root(url_path: Seq<char>, url: Seq<char>) -> bool {
    slash_count(url_path) == 1 && url.len() > 0 && url.last() == '/'
}

/// Whether a request for `url`, whose path is `url_path`, names the hosted
/// directory itself.
pub fn is_root(url_path: &str, url: &str) -> (r: bool)
    ensures
        r == names_root(url_path@, url@),
{
    let path = chars_of(url_path);
    let mut count: usize = 0;
    let mut i: usize = 0;
    assert(path@.take(0) =~= Seq::<char>::empty());
    while i < path.len()
        invariant
            i <= path.len(),
            count <= i,
            count == slash_count(path@.take(i as int)),
        decreases path.len() - i,
    {
        proof {
            assert(path@.take(i + 1).drop_last() =~= path@.take(i as int));
        }
        if path[i] == '/' {
            count = count + 1;
        }
        i = i + 1;
    }
    assert(path@.take(i as int) =~= path@);
    let address = chars_of(url);
    count == 1 && address.len() > 0 && address[address.len() - 1] == '/'
}

/// A directory's name for people and its path, as texts.
pub open spec fn dir_view(dir: Option<(String, String)>) -> Option<(Seq<char>, Seq<char>)> {
    match dir {
        Some(d) => Some((d.0@, d.1@)),
        None => None,
    }
}

/// Directories as texts.
pub open spec fn dir_views(dirs: Seq<(String, String)>) -> Seq<(Seq<char>, Seq<char>)> {
    Seq::new(dirs.len(), |i: int| (dirs[i].0@, dirs[i].1@))
}

/// The directories that go when the server stops: the ones for uploads and
/// for encoded copies where they are in use, the one for the server's
/// certificate where it made one, and last the directory that holds them.
pub open spec fn dirs_to_clean(
    writes: Option<(Seq<char>, Seq<char>)>,
    encoded: Option<(Seq<char>, Seq<char>)>,
    temp: (Seq<char>, Seq<char>),
    generate_tls: bool,
) -> Seq<(Seq<char>, Seq<char>)> {
    (match writes {
        Some(d) => seq![d],
        None => Seq::empty(),
    }) + (match encoded {
        Some(d) => seq![d],
        None => Seq::empty(),
    }) + (if generate_tls {
        seq![(crate::ops::below(temp.0, "tls"@), crate::ops::below(temp.1, "tls"@))]
    } else {
        Seq::empty()
    }) + seq![temp]
}

impl HttpHandler {
    /// Describes the file `file`.
    pub fn handle_get_raw_fs_file(&self, file: RawFileData) -> (r: FilesetData)
        ensures
            r.writes_supported == (self.writes_temp_dir is Some),
            !r.is_root,
            r.is_file,
            record_views(r.files@) == seq![file@],
    {
        let mut files: Vec<RawFileData> = Vec::new();
        files.push(file);
        assert(record_views(files@) =~= seq![file@]);
        FilesetData {
            writes_supported: self.writes_temp_dir.is_some(),
            is_root: false,
            is_file: true,
            files,
        }
    }

    /// Describes the directory with the entries `entries`: those that a
    /// listing would show, in the order given.
    pub fn handle_get_raw_fs_dir(&self, is_root: bool, entries: Vec<ListingEntry>) -> (r:
        FilesetData)
        ensures
            r.writes_supported == (self.writes_temp_dir is Some),
            r.is_root == is_root,
            !r.is_file,
            record_views(r.files@) == Seq::new(
                shown(entries@, self.follow_symlinks, self.sandbox_symlinks).len(),
                |i: int| record_of(shown(entries@, self.follow_symlinks, self.sandbox_symlinks)[i]),
            ),
    {
        let list = visible_entries(entries, self.follow_symlinks, self.sandbox_symlinks);
        let mut files: Vec<RawFileData> = Vec::new();
        let mut i: usize = 0;
        while i < list.len()
            invariant
                i <= list.len(),
                files@.len() == i,
                forall|j: int| 0 <= j < i ==> (#[trigger] files@[j])@ == record_of(list@[j]),
            decreases list.len() - i,
        {
            files.push(record(&list[i]));
            i = i + 1;
        }
        assert(record_views(files@) =~= Seq::new(list@.len(), |i: int| record_of(list@[i])));
        FilesetData {
            writes_supported: self.writes_temp_dir.is_some(),
            is_root,
            is_file: false,
            files,
        }
    }

    /// The temporary directories to remove when the server stops, in the order
    /// in which they are removed.
    pub fn clean_temp_dirs(&self, temp_directory: &(String, String), generate_tls: bool) -> (r: Vec<
        (String, String),
    >)
        ensures
            dir_views(r@) == dirs_to_clean(
                dir_view(self.writes_temp_dir),
                dir_view(self.encoded_temp_dir),
                (temp_directory.0@, temp_directory.1@),
                generate_tls,
            ),
    {
        let mut out: Vec<(String, String)> = Vec::new();
        assert(dir_views(out@) =~= Seq::empty());
        match &self.writes_temp_dir {
            Some(d) => {
                out.push((d.0.clone(), d.1.clone()));
                assert(dir_views(out@) =~= seq![(d.0@, d.1@)]);
            },
            None => {},
        }
        let ghost first = dir_views(out@);
        match &self.encoded_temp_dir {
            Some(d) => {
                out.push((d.0.clone(), d.1.clone()));
                assert(dir_views(out@) =~= first + seq![(d.0@, d.1@)]);
            },
            None => {
                assert(dir_views(out@) =~= first + Seq::empty());
            },
        }
        let ghost second = dir_views(out@);
        match HttpHandler::temp_subdir(temp_directory, generate_tls, "tls") {
            Some(d) => {
                out.push(d);
                assert(dir_views(out@) =~= second + seq![(d.0@, d.1@)]);
            },
            None => {
                assert(dir_views(out@) =~= second + Seq::empty());
            },
        }
        let ghost third = dir_views(out@);
        out.push((temp_directory.0.clone(), temp_directory.1.clone()));
        assert(dir_views(out@) =~= third + seq![(temp_directory.0@, temp_directory.1@)]);
        out
    }
}

} // verus!
