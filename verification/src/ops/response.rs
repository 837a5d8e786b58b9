//! Requests and responses as plain values: what the handlers read of the one
//! and say of the other.

use crate::text::{append_str, chars_of, same, string_of};
use vstd::prelude::*;

verus! {

/// The name and version that the server gives of itself.
pub open spec fn server_text() -> Seq<char> {
    "http/0.1.0"@
}

/// The value of the `Server` header.
pub fn user_agent() -> (r: &'static str)
    ensures
        r@ == server_text(),
{
    "http/0.1.0"
}

/// A request method.
#[derive(Debug)]
pub enum Method {
    Options,
    Get,
    Post,
    Put,
    Delete,
    Head,
    Trace,
    Connect,
    Patch,
    /// A method that HTTP itself does not define, by its name.
    Extension(String),
}

impl Method {
    /// The method's name as it stands in a request line.
    pub open spec fn name(&self) -> Seq<char> {
        match self {
            Method::Options => "OPTIONS"@,
            Method::Get => "GET"@,
            Method::Post => "POST"@,
            Method::Put => "PUT"@,
            Method::Delete => "DELETE"@,
            Method::Head => "HEAD"@,
            Method::Trace => "TRACE"@,
            Method::Connect => "CONNECT"@,
            Method::Patch => "PATCH"@,
            Method::Extension(name) => name@,
        }
    }

    /// Writes the method's name.
    pub fn to_string(&self) -> (s: String)
        ensures
            s@ == self.name(),
    {
        let name: &str = match self {
            Method::Options => "OPTIONS",
            Method::Get => "GET",
            Method::Post => "POST",
            Method::Put => "PUT",
            Method::Delete => "DELETE",
            Method::Head => "HEAD",
            Method::Trace => "TRACE",
            Method::Connect => "CONNECT",
            Method::Patch => "PATCH",
            Method::Extension(name) => name.as_str(),
        };
        string_of(&chars_of(name))
    }

    /// Whether the method reads a resource: `GET` or `HEAD`.
    pub fn is_read(&self) -> (r: bool)
        ensures
            r == (*self is Get || *self is Head),
    {
        match self {
            Method::Get => true,
            Method::Head => true,
            _ => false,
        }
    }
}

/// The names of `methods`, in order.
pub open spec fn method_names(methods: Seq<Method>) -> Seq<Seq<char>> {
    Seq::new(methods.len(), |i: int| methods[i].name())
}

/// What a response carries as its body.
pub enum Body {
    Empty,
    Text(String),
    Bytes(Vec<u8>),
    /// The whole of the file at this path.
    File(String),
    /// `len` bytes of the file at `path`, from the offset `from` on.
    FilePart { path: String, from: u64, len: u64 },
}

/// A body as the texts and bytes that it holds.
pub enum BodyView {
    Empty,
    Text(Seq<char>),
    Bytes(Seq<u8>),
    File(Seq<char>),
    FilePart { path: Seq<char>, from: u64, len: u64 },
}

impl View for Body {
    type V = BodyView;

    open spec fn view(&self) -> BodyView {
        match self {
            Body::Empty => BodyView::Empty,
            Body::Text(t) => BodyView::Text(t@),
            Body::Bytes(b) => BodyView::Bytes(b@),
            Body::File(p) => BodyView::File(p@),
            Body::FilePart { path, from, len } => BodyView::FilePart {
                path: path@,
                from: *from,
                len: *len,
            },
        }
    }
}

/// A header line: its name and its value.
pub struct Header {
    pub name: String,
    pub value: String,
}

impl View for Header {
    type V = (Seq<char>, Seq<char>);

    open spec fn view(&self) -> (Seq<char>, Seq<char>) {
        (self.name@, self.value@)
    }
}

/// The header lines of `headers` as texts.
pub open spec fn header_lines(headers: Seq<Header>) -> Seq<(Seq<char>, Seq<char>)> {
    Seq::new(headers.len(), |i: int| headers[i]@)
}

/// A response, before it is written to the client.
pub struct Response {
    pub status: u16,
    pub headers: Vec<Header>,
    /// Header lines that were configured, with their values as they were
    /// given; they go out behind `headers`.
    pub additional: Vec<(String, Vec<u8>)>,
    pub body: Body,
}

/// The configured header lines as texts and bytes.
pub open spec fn raw_lines(lines: Seq<(String, Vec<u8>)>) -> Seq<(Seq<char>, Seq<u8>)> {
    Seq::new(lines.len(), |i: int| (lines[i].0@, lines[i].1@))
}

/// A response as the numbers, texts and bytes that it holds.
pub struct ResponseView {
    pub status: u16,
    pub lines: Seq<(Seq<char>, Seq<char>)>,
    pub additional: Seq<(Seq<char>, Seq<u8>)>,
    pub body: BodyView,
}

impl View for Response {
    type V = ResponseView;

    open spec fn view(&self) -> ResponseView {
        ResponseView {
            status: self.status,
            lines: header_lines(self.headers@),
            additional: raw_lines(self.additional@),
            body: self.body@,
        }
    }
}

/// No header lines.
pub open spec fn no_lines() -> Seq<(Seq<char>, Seq<char>)> {
    Seq::empty()
}

impl Response {
    /// The lines of the response's own headers.
    pub open spec fn lines(&self) -> Seq<(Seq<char>, Seq<char>)> {
        header_lines(self.headers@)
    }

    /// A response with a status and nothing else.
    pub fn new(status: u16) -> (r: Response)
        ensures
            r@ == (ResponseView {
                status,
                lines: no_lines(),
                additional: Seq::empty(),
                body: BodyView::Empty,
            }),
    {
        let r = Response { status, headers: Vec::new(), additional: Vec::new(), body: Body::Empty };
        assert(r@.lines =~= no_lines());
        assert(r@.additional =~= Seq::empty());
        r
    }

    /// Adds a header line behind those that are there.
    pub fn header(&mut self, name: &str, value: &str)
        ensures
            final(self)@ == (ResponseView {
                lines: old(self)@.lines.push((name@, value@)),
                ..old(self)@
            }),
    {
        let h = Header { name: string_of(&chars_of(name)), value: string_of(&chars_of(value)) };
        self.headers.push(h);
        assert(self@.lines =~= old(self)@.lines.push((name@, value@)));
    }

    /// Sets the body.
    pub fn with_body(&mut self, body: Body)
        ensures
            final(self)@ == (ResponseView { body: body@, ..old(self)@ }),
    {
        self.body = body;
    }

    /// Whether the response has a header line named `name`.
    pub fn has_header(&self, name: &str) -> (r: bool)
        ensures
            r == exists|i: int| 0 <= i < self.lines().len() && (#[trigger] self.lines()[i]).0 == name@,
    {
        let want = chars_of(name);
        let mut i: usize = 0;
        while i < self.headers.len()
            invariant
                i <= self.headers.len(),
                want@ == name@,
                forall|j: int| 0 <= j < i ==> (#[trigger] self.lines()[j]).0 != name@,
            decreases self.headers.len() - i,
        {
            if same(&chars_of(self.headers[i].name.as_str()), &want) {
                assert(self.lines()[i as int].0 == name@);
                return true;
            }
            i = i + 1;
        }
        false
    }
}

/// The page shown for an error: the three texts that fill it, which are a
/// title, what happened, and a closing piece of markup that may be empty; and
/// the value of the `Allow` header where the answer carries one.
pub struct ErrorPage {
    pub status: u16,
    pub title: String,
    pub message: String,
    pub detail: String,
    pub allow: Option<String>,
}

/// An `ErrorPage` as the texts that it holds.
pub struct ErrorPageView {
    pub status: u16,
    pub title: Seq<char>,
    pub message: Seq<char>,
    pub detail: Seq<char>,
    pub allow: Option<Seq<char>>,
}

impl View for ErrorPage {
    type V = ErrorPageView;

    open spec fn view(&self) -> ErrorPageView {
        ErrorPageView {
            status: self.status,
            title: self.title@,
            message: self.message@,
            detail: self.detail@,
            allow: match self.allow {
                Some(a) => Some(a@),
                None => None,
            },
        }
    }
}

/// `names`, with `", "` between neighbours.
pub open spec fn names_joined(names: Seq<Seq<char>>) -> Seq<char>
    decreases names.len(),
{
    if names.len() == 0 {
        Seq::empty()
    } else if names.len() == 1 {
        names[0]
    } else {
        names_joined(names.drop_last()) + ", "@ + names.last()
    }
}

/// The names of `methods` as an `Allow` header lists them.
pub fn allow_value(methods: &Vec<Method>) -> (r: String)
    ensures
        r@ == names_joined(method_names(methods@)),
{
    let mut out: Vec<char> = Vec::new();
    let mut i: usize = 0;
    let ghost names = method_names(methods@);
    assert(names.take(0) =~= Seq::<Seq<char>>::empty());
    while i < methods.len()
        invariant
            i <= methods.len(),
            names == method_names(methods@),
            out@ == names_joined(names.take(i as int)),
        decreases methods.len() - i,
    {
        if i != 0 {
            append_str(&mut out, ", ");
        }
        append_str(&mut out, methods[i].to_string().as_str());
        i = i + 1;
        proof {
            let t = names.take(i as int);
            assert(t.drop_last() =~= names.take(i - 1));
            assert(t.last() == methods@[i - 1].name());
            if i == 1 {
                assert(out@ =~= t[0]);
            }
        }
    }
    assert(names.take(i as int) =~= names);
    string_of(&out)
}

/// The reason phrase that goes with a status code the server answers with.
pub open spec fn reason(status: u16) -> Seq<char> {
    if status == 400 {
        "Bad Request"@
    } else if status == 403 {
        "Forbidden"@
    } else if status == 404 {
        "Not Found"@
    } else if status == 405 {
        "Method Not Allowed"@
    } else if status == 416 {
        "Range Not Satisfiable"@
    } else if status == 501 {
        "Not Implemented"@
    } else {
        ""@
    }
}

/// The reason phrase for `status`; empty for a status that the server does
/// not answer an error with.
pub fn reason_phrase(status: u16) -> (r: &'static str)
    ensures
        r@ == reason(status),
{
    if status == 400 {
        "Bad Request"
    } else if status == 403 {
        "Forbidden"
    } else if status == 404 {
        "Not Found"
    } else if status == 405 {
        "Method Not Allowed"
    } else if status == 416 {
        "Range Not Satisfiable"
    } else if status == 501 {
        "Not Implemented"
    } else {
        ""
    }
}

/// Builds a text from its pieces.
pub fn joined3(a: &str, b: &str, c: &str) -> (r: String)
    ensures
        r@ == a@ + b@ + c@,
{
    let mut out = chars_of(a);
    append_str(&mut out, b);
    append_str(&mut out, c);
    string_of(&out)
}

} // verus!
