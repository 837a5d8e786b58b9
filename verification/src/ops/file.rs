//! Serving a file: whether the client's copy is still good, which bytes a
//! range asks for, and whether an encoded copy is worth making.

use crate::ops::response::{
    no_lines, server_text, user_agent, Body, BodyView, ErrorPage, ErrorPageView, Response,
    ResponseView,
};
use crate::text::{
    append, append_str, chars_of, dec_digits, decimal, lower, lowered, same, string_of,
};
use vstd::prelude::*;

verus! {

/// Files up to this size are served as they are.
pub const MIN_ENCODING_SIZE: u64 = 1024;

/// Files above this size are served as they are.
pub const MAX_ENCODING_SIZE: u64 = 104857600;

/// What the server knows of the file that a request names.
pub struct FileFacts {
    pub path: String,
    pub len: u64,
    pub etag: String,
    /// The time of the last change as a header gives it.
    pub modified: String,
    /// The time of the last change in whole seconds since the epoch.
    pub mtime: i64,
    /// The media type.
    pub mime: String,
}

/// The entity tags of an `If-None-Match` header.
pub enum IfNoneMatch {
    Any,
    Items(Vec<String>),
}

/// The conditions under which a client wants the body.
pub struct Conditions {
    pub if_none_match: Option<IfNoneMatch>,
    /// `If-Modified-Since`, in whole seconds since the epoch.
    pub if_modified_since: Option<i64>,
}

/// One of `tags` is `etag`.
pub open spec fn lists_tag(tags: Seq<String>, etag: Seq<char>) -> bool {
    exists|i: int| 0 <= i < tags.len() && (#[trigger] tags[i])@ == etag
}

/// The client's copy is still good: the request lists tags and the file's is
/// among them; or it lists none, names a time, and the file has not changed
/// since.
pub open spec fn revalidates(c: Conditions, mtime: i64, etag: Seq<char>) -> bool {
    match c.if_none_match {
        Some(IfNoneMatch::Items(tags)) => lists_tag(tags@, etag),
        _ => match c.if_modified_since {
            Some(since) => mtime <= since,
            None => false,
        },
    }
}

/// Whether `etag` is one of `tags`.
pub fn etag_match(tags: &Vec<String>, etag: &str) -> (r: bool)
    ensures
        r == lists_tag(tags@, etag@),
{
    let want = chars_of(etag);
    let mut i: usize = 0;
    while i < tags.len()
        invariant
            i <= tags.len(),
            want@ == etag@,
            forall|j: int| 0 <= j < i ==> (#[trigger] tags@[j])@ != etag@,
        decreases tags.len() - i,
    {
        if same(&chars_of(tags[i].as_str()), &want) {
            return true;
        }
        i = i + 1;
    }
    false
}

/// Whether to answer that the file has not changed.
pub fn should_304_path(c: &Conditions, mtime: i64, etag: &str) -> (r: bool)
    ensures
        r == revalidates(*c, mtime, etag@),
{
    match &c.if_none_match {
        Some(IfNoneMatch::Items(tags)) => etag_match(tags, etag),
        _ => match c.if_modified_since {
            Some(since) => mtime <= since,
            None => false,
        },
    }
}

/// A tag between double quotes, as a strong entity tag is written.
pub open spec fn quoted(tag: Seq<char>) -> Seq<char> {
    seq!['"'] + tag + seq!['"']
}

/// Writes `tag` as a strong entity tag.
pub fn quote(tag: &str) -> (r: String)
    ensures
        r@ == quoted(tag@),
{
    let mut out: Vec<char> = Vec::new();
    out.push('"');
    append_str(&mut out, tag);
    out.push('"');
    assert(out@ =~= quoted(tag@));
    string_of(&out)
}

/// One range of bytes, as a `Range` header names it.
#[derive(Debug, Clone, Copy, PartialEq, Eq, Structural)]
pub enum ByteRangeSpec {
    /// The bytes from the first offset to the second, both included.
    FromTo(u64, u64),
    /// The bytes from the offset on.
    AllFrom(u64),
    /// The last so many bytes.
    Last(u64),
}

/// What a `Range` header asks for.
pub enum Range {
    Bytes(Vec<ByteRangeSpec>),
    /// A range in a unit other than bytes: the unit and the range.
    Unregistered(String, String),
}

impl ByteRangeSpec {
    /// The range as a header writes it.
    pub open spec fn text(&self) -> Seq<char> {
        match self {
            ByteRangeSpec::FromTo(from, to) => dec_digits(*from as nat) + seq!['-'] + dec_digits(
                *to as nat,
            ),
            ByteRangeSpec::AllFrom(from) => dec_digits(*from as nat) + seq!['-'],
            ByteRangeSpec::Last(n) => seq!['-'] + dec_digits(*n as nat),
        }
    }

    /// Writes the range as a header does.
    pub fn to_chars(&self) -> (r: Vec<char>)
        ensures
            r@ == self.text(),
    {
        match self {
            ByteRangeSpec::FromTo(from, to) => {
                let mut out = decimal(*from);
                out.push('-');
                append(&mut out, &decimal(*to));
                out
            },
            ByteRangeSpec::AllFrom(from) => {
                let mut out = decimal(*from);
                out.push('-');
                out
            },
            ByteRangeSpec::Last(n) => {
                let mut out: Vec<char> = Vec::new();
                out.push('-');
                append(&mut out, &decimal(*n));
                assert(out@ =~= seq!['-'] + dec_digits(*n as nat));
                out
            },
        }
    }
}

/// The ranges of a header, with commas between them.
pub open spec fn ranges_text(ranges: Seq<ByteRangeSpec>) -> Seq<char>
    decreases ranges.len(),
{
    if ranges.len() == 0 {
        Seq::empty()
    } else if ranges.len() == 1 {
        ranges[0].text()
    } else {
        ranges_text(ranges.drop_last()) + seq![','] + ranges.last().text()
    }
}

impl Range {
    /// The header's value.
    pub open spec fn text(&self) -> Seq<char> {
        match self {
            Range::Bytes(ranges) => "bytes="@ + ranges_text(ranges@),
            Range::Unregistered(unit, range) => unit@ + seq!['='] + range@,
        }
    }

    /// Writes the header's value.
    pub fn to_string(&self) -> (r: String)
        ensures
            r@ == self.text(),
    {
        match self {
            Range::Bytes(ranges) => {
                let mut list: Vec<char> = Vec::new();
                let mut i: usize = 0;
                assert(ranges@.take(0) =~= Seq::<ByteRangeSpec>::empty());
                while i < ranges.len()
                    invariant
                        i <= ranges.len(),
                        list@ == ranges_text(ranges@.take(i as int)),
                    decreases ranges.len() - i,
                {
                    if i != 0 {
                        list.push(',');
                    }
                    append(&mut list, &ranges[i].to_chars());
                    i = i + 1;
                    proof {
                        let t = ranges@.take(i as int);
                        assert(t.drop_last() =~= ranges@.take(i - 1));
                        assert(t.last() == ranges@[i - 1]);
                        if i == 1 {
                            assert(list@ =~= t[0].text());
                        }
                    }
                }
                assert(ranges@.take(i as int) =~= ranges@);
                let mut out = chars_of("bytes=");
                append(&mut out, &list);
                string_of(&out)
            },
            Range::Unregistered(unit, range) => {
                let mut out = chars_of(unit.as_str());
                out.push('=');
                append_str(&mut out, range.as_str());
                string_of(&out)
            },
        }
    }
}

/// The entity tag of a part of a file: the file's tag, a plus sign, and the
/// range.
pub open spec fn range_tag(etag: Seq<char>, range: ByteRangeSpec) -> Seq<char> {
    etag + seq!['+'] + range.text()
}

/// The value of a `Content-Range` header for the bytes `first` to `last` of
/// `total`.
pub open spec fn content_range(first: u64, last: u64, total: u64) -> Seq<char> {
    "bytes "@ + dec_digits(first as nat) + seq!['-'] + dec_digits(last as nat) + seq!['/']
        + dec_digits(total as nat)
}

fn content_range_of(first: u64, last: u64, total: u64) -> (r: String)
    ensures
        r@ == content_range(first, last, total),
{
    let mut out = chars_of("bytes ");
    append(&mut out, &decimal(first));
    out.push('-');
    append(&mut out, &decimal(last));
    out.push('/');
    append(&mut out, &decimal(total));
    string_of(&out)
}

/// The header lines that every answer about a file starts with.
pub open spec fn file_lines(modified: Seq<char>) -> Seq<(Seq<char>, Seq<char>)> {
    no_lines().push(("Server"@, server_text())).push(("Last-Modified"@, modified)).push(
        ("Accept-Ranges"@, "bytes"@),
    )
}

/// The answer that the client's copy is still good.
pub open spec fn not_modified(modified: Seq<char>, etag: Seq<char>) -> ResponseView {
    ResponseView {
        status: 304,
        lines: file_lines(modified).push(("ETag"@, quoted(etag))),
        additional: Seq::empty(),
        body: BodyView::Empty,
    }
}

/// The answer that carries the whole file as it is.
pub open spec fn whole_file(f: FileFacts) -> ResponseView {
    ResponseView {
        status: 200,
        lines: file_lines(f.modified@).push(("ETag"@, quoted(f.etag@))).push(
            ("Content-Type"@, f.mime@),
        ).push(("Content-Length"@, dec_digits(f.len as nat))),
        additional: Seq::empty(),
        body: BodyView::File(f.path@),
    }
}

/// The answer that carries the bytes `from` to `to` of the file.
pub open spec fn closed_part(f: FileFacts, from: u64, to: u64) -> ResponseView {
    ResponseView {
        status: 206,
        lines: no_lines().push(("Server"@, server_text())).push(("Last-Modified"@, f.modified@)).push(
            ("Content-Range"@, content_range(from, to, f.len)),
        ).push(("ETag"@, quoted(range_tag(f.etag@, ByteRangeSpec::FromTo(from, to))))).push(
            ("Accept-Ranges"@, "bytes"@),
        ).push(("Content-Type"@, f.mime@)),
        additional: Seq::empty(),
        body: BodyView::FilePart { path: f.path@, from, len: (to + 1 - from) as u64 },
    }
}

/// The answer that carries the file's end, from the offset `from` on, for the
/// request `range`.
pub open spec fn open_part(f: FileFacts, range: ByteRangeSpec, from: u64) -> ResponseView {
    ResponseView {
        status: 206,
        lines: no_lines().push(("Server"@, server_text())).push(("Last-Modified"@, f.modified@)).push(
            ("Content-Range"@, content_range(from, (f.len - 1) as u64, f.len)),
        ).push(("ETag"@, quoted(range_tag(f.etag@, range)))).push(
            ("Content-Length"@, dec_digits((f.len - from) as nat)),
        ).push(("Accept-Ranges"@, "bytes"@)).push(("Content-Type"@, f.mime@)),
        additional: Seq::empty(),
        body: BodyView::FilePart { path: f.path@, from, len: (f.len - from) as u64 },
    }
}

/// The answer to a range that starts behind the file's end.
pub open spec fn empty_part(f: FileFacts, range: ByteRangeSpec, from: u64) -> ResponseView {
    ResponseView {
        status: 204,
        lines: no_lines().push(("Server"@, server_text())).push(("Last-Modified"@, f.modified@)).push(
            ("Content-Range"@, content_range(from, f.len, f.len)),
        ).push(("ETag"@, quoted(range_tag(f.etag@, range)))).push(("Accept-Ranges"@, "bytes"@)).push(
            ("Content-Type"@, f.mime@),
        ),
        additional: Seq::empty(),
        body: BodyView::Empty,
    }
}

/// What a request for a part of a file is answered with.
pub enum RangeAnswer {
    /// A response that is ready to go out.
    Ready(Response),
    /// A page that says why the range cannot be served.
    Refused(ErrorPage),
    /// The range names bytes that the file does not have: there is nothing to
    /// answer with.
    Unreadable,
}

/// The view of a `RangeAnswer`.
pub enum RangeAnswerView {
    Ready(ResponseView),
    Refused(ErrorPageView),
    Unreadable,
}

impl View for RangeAnswer {
    type V = RangeAnswerView;

    open spec fn view(&self) -> RangeAnswerView {
        match self {
            RangeAnswer::Ready(r) => RangeAnswerView::Ready(r@),
            RangeAnswer::Refused(p) => RangeAnswerView::Refused(p@),
            RangeAnswer::Unreadable => RangeAnswerView::Unreadable,
        }
    }
}

/// The page that refuses a range.
pub open spec fn range_refusal(f: FileFacts, range: Range, why: Seq<char>) -> RangeAnswerView {
    RangeAnswerView::Refused(
        ErrorPageView {
            status: 416,
            title: "416 Range Not Satisfiable"@,
            message: "Requested range <samp>"@ + range.text()
                + "</samp> could not be fulfilled for file "@ + f.path@ + "."@,
            detail: why,
            allow: None,
        },
    )
}

/// The answer to a request for the one range `range` of the file.
pub open spec fn part_answer(f: FileFacts, c: Conditions, range: ByteRangeSpec) -> RangeAnswerView {
    if revalidates(c, f.mtime, range_tag(f.etag@, range)) {
        RangeAnswerView::Ready(not_modified(f.modified@, range_tag(f.etag@, range)))
    } else {
        match range {
            ByteRangeSpec::FromTo(from, to) => if from <= to < f.len {
                RangeAnswerView::Ready(closed_part(f, from, to))
            } else {
                RangeAnswerView::Unreadable
            },
            ByteRangeSpec::AllFrom(from) => if f.len < from {
                RangeAnswerView::Ready(empty_part(f, range, from))
            } else if f.len == 0 {
                RangeAnswerView::Unreadable
            } else {
                RangeAnswerView::Ready(open_part(f, range, from))
            },
            ByteRangeSpec::Last(n) => if f.len < n {
                RangeAnswerView::Ready(empty_part(f, range, n))
            } else if f.len == 0 {
                RangeAnswerView::Unreadable
            } else {
                RangeAnswerView::Ready(open_part(f, range, (f.len - n) as u64))
            },
        }
    }
}

/// The answer to a request that carries a `Range` header: one range of bytes
/// is served, several are refused, and so is any other unit.
pub open spec fn range_answer(f: FileFacts, c: Conditions, range: Range) -> RangeAnswerView {
    match range {
        Range::Bytes(ranges) => if ranges@.len() == 1 {
            part_answer(f, c, ranges@[0])
        } else {
            range_refusal(f, range, "More than one range is unsupported."@)
        },
        Range::Unregistered(..) => range_refusal(f, range, "Custom ranges are unsupported."@),
    }
}

fn start_lines(f: &FileFacts, status: u16) -> (r: Response)
    ensures
        r@ == (ResponseView {
            status,
            lines: no_lines().push(("Server"@, server_text())).push(("Last-Modified"@, f.modified@)),
            additional: Seq::empty(),
            body: BodyView::Empty,
        }),
{
    let mut r = Response::new(status);
    r.header("Server", user_agent());
    r.header("Last-Modified", f.modified.as_str());
    r
}

fn tag_of(f: &FileFacts, range: &ByteRangeSpec) -> (r: String)
    ensures
        r@ == range_tag(f.etag@, *range),
{
    let mut out = chars_of(f.etag.as_str());
    out.push('+');
    append(&mut out, &range.to_chars());
    string_of(&out)
}

fn refuse_range(f: &FileFacts, range: &Range, why: &str) -> (r: RangeAnswer)
    ensures
        r@ == range_refusal(*f, *range, why@),
{
    let mut message = chars_of("Requested range <samp>");
    append_str(&mut message, range.to_string().as_str());
    append_str(&mut message, "</samp> could not be fulfilled for file ");
    append_str(&mut message, f.path.as_str());
    append_str(&mut message, ".");
    RangeAnswer::Refused(
        ErrorPage {
            status: 416,
            title: string_of(&chars_of("416 Range Not Satisfiable")),
            message: string_of(&message),
            detail: string_of(&chars_of(why)),
            allow: None,
        },
    )
}

fn answer_not_modified(f: &FileFacts, etag: &str) -> (r: Response)
    ensures
        r@ == not_modified(f.modified@, etag@),
{
    let mut r = start_lines(f, 304);
    r.header("Accept-Ranges", "bytes");
    r.header("ETag", quote(etag).as_str());
    r
}

fn answer_open_part(f: &FileFacts, range: &ByteRangeSpec, from: u64) -> (r: Response)
    requires
        from <= f.len,
        f.len > 0,
    ensures
        r@ == open_part(*f, *range, from),
{
    let mut r = start_lines(f, 206);
    r.header("Content-Range", content_range_of(from, f.len - 1, f.len).as_str());
    r.header("ETag", quote(tag_of(f, range).as_str()).as_str());
    r.header("Content-Length", string_of(&decimal(f.len - from)).as_str());
    r.header("Accept-Ranges", "bytes");
    r.header("Content-Type", f.mime.as_str());
    r.with_body(Body::FilePart { path: f.path.clone(), from, len: f.len - from });
    r
}

fn answer_empty_part(f: &FileFacts, range: &ByteRangeSpec, from: u64) -> (r: Response)
    ensures
        r@ == empty_part(*f, *range, from),
{
    let mut r = start_lines(f, 204);
    r.header("Content-Range", content_range_of(from, f.len, f.len).as_str());
    r.header("ETag", quote(tag_of(f, range).as_str()).as_str());
    r.header("Accept-Ranges", "bytes");
    r.header("Content-Type", f.mime.as_str());
    r
}

/// Answers a request for a part of the file `f`.
pub fn handle_get_file_range(f: &FileFacts, c: &Conditions, range: &Range) -> (r: RangeAnswer)
    ensures
        r@ == range_answer(*f, *c, *range),
{
    match range {
        Range::Bytes(ranges) => {
            if ranges.len() != 1 {
                return refuse_range(f, range, "More than one range is unsupported.");
            }
            let one = ranges[0];
            let etag = tag_of(f, &one);
            if should_304_path(c, f.mtime, etag.as_str()) {
                return RangeAnswer::Ready(answer_not_modified(f, etag.as_str()));
            }
            match one {
                ByteRangeSpec::FromTo(from, to) => {
                    if from <= to && to < f.len {
                        let mut r = start_lines(f, 206);
                        r.header("Content-Range", content_range_of(from, to, f.len).as_str());
                        r.header("ETag", quote(etag.as_str()).as_str());
                        r.header("Accept-Ranges", "bytes");
                        r.header("Content-Type", f.mime.as_str());
                        r.with_body(
                            Body::FilePart { path: f.path.clone(), from, len: to + 1 - from },
                        );
                        RangeAnswer::Ready(r)
                    } else {
                        RangeAnswer::Unreadable
                    }
                },
                ByteRangeSpec::AllFrom(from) => {
                    if f.len < from {
                        RangeAnswer::Ready(answer_empty_part(f, &one, from))
                    } else if f.len == 0 {
                        RangeAnswer::Unreadable
                    } else {
                        RangeAnswer::Ready(answer_open_part(f, &one, from))
                    }
                },
                ByteRangeSpec::Last(n) => {
                    if f.len < n {
                        RangeAnswer::Ready(answer_empty_part(f, &one, n))
                    } else if f.len == 0 {
                        RangeAnswer::Unreadable
                    } else {
                        RangeAnswer::Ready(answer_open_part(f, &one, f.len - n))
                    }
                },
            }
        },
        Range::Unregistered(..) => refuse_range(f, range, "Custom ranges are unsupported."),
    }
}

/// The bytes that a body of the kind `FilePart` stands for.
pub fn file_part(content: &Vec<u8>, from: u64, len: u64) -> (r: Vec<u8>)
    requires
        from + len <= content@.len(),
    ensures
        r@ == content@.subrange(from as int, from + len),
{
    let mut out: Vec<u8> = Vec::new();
    let n = content.len();
    assert(from <= n && len <= n);
    let start = from as usize;
    let count = len as usize;
    let mut i: usize = 0;
    assert(out@ =~= content@.subrange(from as int, from + 0));
    while i < count
        invariant
            i <= len,
            count == len,
            start == from,
            n == content@.len(),
            from + len <= content@.len(),
            out@ == content@.subrange(from as int, from + i),
        decreases len - i,
    {
        out.push(content[start + i]);
        i = i + 1;
        assert(out@ =~= content@.subrange(from as int, from + i));
    }
    assert(out@ =~= content@.subrange(from as int, from + len));
    out
}

/// A request without conditions for the bytes `a` to `b` of a file of more
/// than `b` bytes is answered with exactly those bytes, and says so.
pub proof fn lemma_range_round_trip(f: FileFacts, a: u64, b: u64)
    requires
        a <= b < f.len,
    ensures
        part_answer(
            f,
            Conditions { if_none_match: None, if_modified_since: None },
            ByteRangeSpec::FromTo(a, b),
        ) matches RangeAnswerView::Ready(r) && r.status == 206 && r.body == (BodyView::FilePart {
            path: f.path@,
            from: a,
            len: (b - a + 1) as u64,
        }) && r.lines[2] == ("Content-Range"@, content_range(a, b, f.len)),
{
}

/// A letter or a digit of ASCII.
pub open spec fn is_alphanumeric(c: char) -> bool {
    ('0' <= c <= '9') || ('a' <= c <= 'z') || ('A' <= c <= 'Z')
}

/// Whether files with the extension `ext` are left unencoded because their
/// formats are compressed already: whether `ext` is made of letters and digits
/// of ASCII and, in lower case, is one of `table`.
pub open spec fn blacklisted(ext: Seq<char>, table: Seq<String>) -> bool {
    (forall|i: int| 0 <= i < ext.len() ==> is_alphanumeric(#[trigger] ext[i])) && exists|j: int|
        0 <= j < table.len() && (#[trigger] table[j])@ == lowered(ext)
}

/// Whether files with the extension `ext` are left unencoded, `table` holding
/// the extensions of the formats that are compressed already.
pub fn extension_is_blacklisted(ext: &str, table: &Vec<String>) -> (r: bool)
    ensures
        r == blacklisted(ext@, table@),
{
    let src = chars_of(ext);
    let mut low: Vec<char> = Vec::new();
    let mut i: usize = 0;
    while i < src.len()
        invariant
            i <= src.len(),
            src@ == ext@,
            low@.len() == i,
            forall|j: int| 0 <= j < i ==> is_alphanumeric(#[trigger] src@[j]),
            forall|j: int| 0 <= j < i ==> low@[j] == lower(src@[j]),
        decreases src.len() - i,
    {
        let c = src[i];
        if 'A' <= c && c <= 'Z' {
            low.push(((c as u8) + 32) as char);
        } else if ('0' <= c && c <= '9') || ('a' <= c && c <= 'z') {
            low.push(c);
        } else {
            assert(!is_alphanumeric(ext@[i as int]));
            return false;
        }
        i = i + 1;
    }
    assert(low@ =~= lowered(ext@));
    let mut k: usize = 0;
    while k < table.len()
        invariant
            k <= table.len(),
            low@ == lowered(ext@),
            forall|j: int| 0 <= j < ext@.len() ==> is_alphanumeric(#[trigger] ext@[j]),
            forall|j: int| 0 <= j < k ==> (#[trigger] table@[j])@ != lowered(ext@),
        decreases table.len() - k,
    {
        if same(&chars_of(table[k].as_str()), &low) {
            assert(table@[k as int]@ == lowered(ext@));
            return true;
        }
        k = k + 1;
    }
    false
}

/// Whether an encoded copy of a file is worth making: encoding is switched
/// on, the file is neither small nor huge, and its format is not one that is
/// compressed already.
pub open spec fn encodable(enabled: bool, len: u64, ext: Option<Seq<char>>, table: Seq<String>) -> bool {
    &&& enabled
    &&& MIN_ENCODING_SIZE <= len <= MAX_ENCODING_SIZE
    &&& match ext {
        Some(e) => !blacklisted(e, table),
        None => true,
    }
}

/// How a request for a whole file goes on.
pub enum FileAnswer {
    /// A response that is ready to go out.
    Ready(Response),
    /// The file may be served encoded.
    Encode,
}

/// A `FileAnswer` as the texts and bytes that it holds.
pub enum FileAnswerView {
    Ready(ResponseView),
    Encode,
}

impl View for FileAnswer {
    type V = FileAnswerView;

    open spec fn view(&self) -> FileAnswerView {
        match self {
            FileAnswer::Ready(r) => FileAnswerView::Ready(r@),
            FileAnswer::Encode => FileAnswerView::Encode,
        }
    }
}

/// The answer to a request for the whole of the file `f`.
pub open spec fn file_answer(
    f: FileFacts,
    c: Conditions,
    enabled: bool,
    ext: Option<Seq<char>>,
    table: Seq<String>,
) -> FileAnswerView {
    if revalidates(c, f.mtime, f.etag@) {
        FileAnswerView::Ready(not_modified(f.modified@, f.etag@))
    } else if encodable(enabled, f.len, ext, table) {
        FileAnswerView::Encode
    } else {
        FileAnswerView::Ready(whole_file(f))
    }
}

/// The answer that carries the whole of the file `f` as it is.
pub fn answer_whole_file(f: &FileFacts) -> (r: Response)
    ensures
        r@ == whole_file(*f),
{
    let mut r = start_lines(f, 200);
    r.header("Accept-Ranges", "bytes");
    r.header("ETag", quote(f.etag.as_str()).as_str());
    r.header("Content-Type", f.mime.as_str());
    r.header("Content-Length", string_of(&decimal(f.len)).as_str());
    r.with_body(Body::File(f.path.clone()));
    r
}

/// Answers a request for the whole of the file `f`, whose name has the
/// extension `ext`.
pub fn handle_get_file(
    f: &FileFacts,
    c: &Conditions,
    enabled: bool,
    ext: Option<&str>,
    table: &Vec<String>,
) -> (r: FileAnswer)
    ensures
        r@ == file_answer(
            *f,
            *c,
            enabled,
            match ext {
                Some(e) => Some(e@),
                None => None,
            },
            table@,
        ),
{
    if should_304_path(c, f.mtime, f.etag.as_str()) {
        return FileAnswer::Ready(answer_not_modified(f, f.etag.as_str()));
    }
    let listed = match ext {
        Some(e) => extension_is_blacklisted(e, table),
        None => false,
    };
    if enabled && MIN_ENCODING_SIZE <= f.len && f.len <= MAX_ENCODING_SIZE && !listed {
        FileAnswer::Encode
    } else {
        FileAnswer::Ready(answer_whole_file(f))
    }
}

/// A client that sends back the tag it was given is told that its copy is
/// still good: the answer has status 304, no body, and the same tag.
pub proof fn lemma_conditional_get_round_trip(
    f: FileFacts,
    c: Conditions,
    enabled: bool,
    ext: Option<Seq<char>>,
    table: Seq<String>,
)
    requires
        c.if_none_match matches Some(IfNoneMatch::Items(tags)) && lists_tag(tags@, f.etag@),
    ensures
        file_answer(f, c, enabled, ext, table) matches FileAnswerView::Ready(r) && r.status == 304
            && r.body is Empty && r.lines[3] == ("ETag"@, quoted(f.etag@)),
{
}

} // verus!
