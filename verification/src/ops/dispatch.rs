//! The way of a request through the server: the guard at the door, the handler that its
//! method picks, and what every answer is given on its way out.

use crate::ops::auth::{asked, policy_for, trimmed, verdict_of, verify, AuthVerdict, Credentials};
use crate::ops::response::{
    allow_value, header_lines, method_names, names_joined, no_lines, raw_lines, server_text,
    user_agent, Body, BodyView, Header, Method, Response, ResponseView,
};
use crate::ops::HttpHandler;
use crate::text::{chars_of, lower_ascii, lowered, same, string_of};
use vstd::prelude::*;

verus! {

/// The handler that a request goes to.
#[derive(Debug, Clone, Copy, PartialEq, Eq, Structural)]
pub enum Route {
    Options,
    Get,
    /// As `Get`, with the body left out of the answer.
    Head,
    Put,
    Delete,
    Trace,
    Copy,
    Mkcol,
    Move,
    Propfind,
    Proppatch,
    /// The server does not answer the method.
    BadMethod,
}

/// Where a request with the method `method` goes. The methods of WebDAV are
/// answered only where WebDAV is on.
pub open spec fn route_of(method: Method, webdav: bool) -> Route {
    match method {
        Method::Options => Route::Options,
        Method::Get => Route::Get,
        Method::Put => Route::Put,
        Method::Delete => Route::Delete,
        Method::Head => Route::Head,
        Method::Trace => Route::Trace,
        Method::Extension(name) => if !webdav {
            Route::BadMethod
        } else if name@ == "COPY"@ {
            Route::Copy
        } else if name@ == "MKCOL"@ {
            Route::Mkcol
        } else if name@ == "MOVE"@ {
            Route::Move
        } else if name@ == "PROPFIND"@ {
            Route::Propfind
        } else if name@ == "PROPPATCH"@ {
            Route::Proppatch
        } else {
            Route::BadMethod
        },
        _ => Route::BadMethod,
    }
}

/// The answer to a request that may not pass the guard.
pub open spec fn unauthorised(why: Seq<char>) -> ResponseView {
    ResponseView {
        status: 401,
        lines: no_lines().push(("WWW-Authenticate"@, "basic"@)),
        additional: Seq::empty(),
        body: BodyView::Text(why),
    }
}

/// What becomes of a request at the server's door.
pub enum Dispatch {
    /// The request is turned away with this response, which goes out as it is.
    Reply(Response),
    /// The request goes to this handler.
    Go(Route),
}

/// A `Dispatch` as the texts and bytes that it holds.
pub enum DispatchView {
    Reply(ResponseView),
    Go(Route),
}

impl View for Dispatch {
    type V = DispatchView;

    open spec fn view(&self) -> DispatchView {
        match self {
            Dispatch::Reply(r) => DispatchView::Reply(r@),
            Dispatch::Go(route) => DispatchView::Go(*route),
        }
    }
}

/// With the verdict `verdict` of the guard, a request with the method
/// `method` is turned away or goes to its handler.
pub open spec fn dispatch_of(verdict: AuthVerdict, method: Method, webdav: bool) -> DispatchView {
    match verdict {
        AuthVerdict::Missing => DispatchView::Reply(unauthorised("Credentials required."@)),
        AuthVerdict::Invalid => DispatchView::Reply(unauthorised("Supplied credentials invalid."@)),
        _ => DispatchView::Go(route_of(method, webdav)),
    }
}

/// `lines` without those named `name`, whatever the case of their letters.
pub open spec fn without_header(lines: Seq<(Seq<char>, Seq<char>)>, name: Seq<char>) -> Seq<
    (Seq<char>, Seq<char>),
>
    decreases lines.len(),
{
    if lines.len() == 0 {
        lines
    } else if lowered(lines.last().0) == lowered(name) {
        without_header(lines.drop_last(), name)
    } else {
        without_header(lines.drop_last(), name).push(lines.last())
    }
}

/// A response on its way out: without its body where the request was a `HEAD`,
/// with the mark of WebDAV where that is on, and with the configured lines
/// behind its own.
pub open spec fn finished(
    r: ResponseView,
    head: bool,
    webdav: bool,
    additional: Seq<(Seq<char>, Seq<u8>)>,
) -> ResponseView {
    ResponseView {
        status: r.status,
        lines: if webdav {
            without_header(r.lines, "DAV"@).push(("DAV"@, "1"@))
        } else {
            r.lines
        },
        additional: r.additional + additional,
        body: if head {
            BodyView::Empty
        } else {
            r.body
        },
    }
}

/// Takes the lines named `name` out of `headers`.
pub fn remove_header(headers: &Vec<Header>, name: &str) -> (r: Vec<Header>)
    ensures
        header_lines(r@) == without_header(header_lines(headers@), name@),
{
    let want = lower_ascii(name);
    let mut out: Vec<Header> = Vec::new();
    let ghost all = header_lines(headers@);
    let mut i: usize = 0;
    assert(all.take(0) =~= no_lines());
    assert(header_lines(out@) =~= no_lines());
    while i < headers.len()
        invariant
            i <= headers.len(),
            want@ == lowered(name@),
            all == header_lines(headers@),
            header_lines(out@) == without_header(all.take(i as int), name@),
        decreases headers.len() - i,
    {
        let ghost before = header_lines(out@);
        let h = &headers[i];
        proof {
            assert(all.take(i + 1).drop_last() =~= all.take(i as int));
            assert(all.take(i + 1).last() == h@);
        }
        if !same(&lower_ascii(h.name.as_str()), &want) {
            out.push(Header { name: h.name.clone(), value: h.value.clone() });
            assert(header_lines(out@) =~= before.push(h@));
        }
        i = i + 1;
    }
    assert(all.take(all.len() as int) =~= all);
    out
}

impl HttpHandler {
    /// The verdict of the guard on a request for `url_path` that carries the
    /// credentials `given`.
    pub fn verify_auth(&self, url_path: &str, given: &Option<Credentials>) -> (r: AuthVerdict)
        ensures
            r == verdict_of(
                asked(policy_for(self.path_auth_data@, self.global_auth_data, trimmed(url_path@))),
                asked(*given),
            ),
    {
        verify(&self.global_auth_data, &self.path_auth_data, url_path, given)
    }

    /// Takes a request in: turns it away where the guard says so, and else
    /// names the handler for its method.
    pub fn handle(&self, method: &Method, url_path: &str, given: &Option<Credentials>) -> (r:
        Dispatch)
        ensures
            r@ == dispatch_of(
                verdict_of(
                    asked(
                        policy_for(
                            self.path_auth_data@,
                            self.global_auth_data,
                            trimmed(url_path@),
                        ),
                    ),
                    asked(*given),
                ),
                *method,
                self.webdav,
            ),
    {
        match self.verify_auth(url_path, given) {
            AuthVerdict::Missing => {
                let mut r = Response::new(401);
                r.header("WWW-Authenticate", "basic");
                r.with_body(Body::Text(string_of(&chars_of("Credentials required."))));
                Dispatch::Reply(r)
            },
            AuthVerdict::Invalid => {
                let mut r = Response::new(401);
                r.header("WWW-Authenticate", "basic");
                r.with_body(Body::Text(string_of(&chars_of("Supplied credentials invalid."))));
                Dispatch::Reply(r)
            },
            _ => Dispatch::Go(self.route(method)),
        }
    }

    /// The handler for a request with the method `method`.
    pub fn route(&self, method: &Method) -> (r: Route)
        ensures
            r == route_of(*method, self.webdav),
    {
        match method {
            Method::Options => Route::Options,
            Method::Get => Route::Get,
            Method::Put => Route::Put,
            Method::Delete => Route::Delete,
            Method::Head => Route::Head,
            Method::Trace => Route::Trace,
            Method::Extension(name) => {
                let n = chars_of(name.as_str());
                if !self.webdav {
                    Route::BadMethod
                } else if same(&n, &chars_of("COPY")) {
                    Route::Copy
                } else if same(&n, &chars_of("MKCOL")) {
                    Route::Mkcol
                } else if same(&n, &chars_of("MOVE")) {
                    Route::Move
                } else if same(&n, &chars_of("PROPFIND")) {
                    Route::Propfind
                } else if same(&n, &chars_of("PROPPATCH")) {
                    Route::Proppatch
                } else {
                    Route::BadMethod
                }
            },
            _ => Route::BadMethod,
        }
    }

    /// Gives a handler's answer what every answer carries.
    pub fn finish(&self, response: Response, head: bool) -> (r: Response)
        ensures
            r@ == finished(response@, head, self.webdav, raw_lines(self.additional_headers@)),
    {
        let mut r = response;
        if head {
            r.body = Body::Empty;
        }
        if self.webdav {
            let mut headers = remove_header(&r.headers, "DAV");
            let ghost kept = header_lines(headers@);
            headers.push(
                Header { name: string_of(&chars_of("DAV")), value: string_of(&chars_of("1")) },
            );
            assert(header_lines(headers@) =~= kept.push(("DAV"@, "1"@)));
            r.headers = headers;
        }
        let mut i: usize = 0;
        let ghost own = raw_lines(r.additional@);
        assert(self.additional_headers@.take(0) =~= Seq::empty());
        assert(raw_lines(r.additional@) =~= own + raw_lines(self.additional_headers@.take(0)));
        while i < self.additional_headers.len()
            invariant
                i <= self.additional_headers.len(),
                raw_lines(r.additional@) == own + raw_lines(
                    self.additional_headers@.take(i as int),
                ),
                r.status == response.status,
                header_lines(r.headers@) == finished(
                    response@,
                    head,
                    self.webdav,
                    raw_lines(self.additional_headers@),
                ).lines,
                r.body@ == finished(
                    response@,
                    head,
                    self.webdav,
                    raw_lines(self.additional_headers@),
                ).body,
            decreases self.additional_headers.len() - i,
        {
            let line = &self.additional_headers[i];
            let ghost before = raw_lines(r.additional@);
            let value = line.1.clone();
            assert(value@ =~= line.1@);
            r.additional.push((line.0.clone(), value));
            i = i + 1;
            proof {
                let t = self.additional_headers@.take(i as int);
                assert(raw_lines(r.additional@) =~= before.push((line.0@, line.1@)));
                assert(raw_lines(t) =~= raw_lines(self.additional_headers@.take(i - 1)).push(
                    (line.0@, line.1@),
                ));
            }
        }
        assert(self.additional_headers@.take(i as int) =~= self.additional_headers@);
        r
    }

    /// The answer to `OPTIONS`: the methods that the server answers.
    pub fn handle_options(&self) -> (r: Response)
        ensures
            r@ == (ResponseView {
                status: 204,
                lines: no_lines().push(("Server"@, server_text())).push(
                    ("Allow"@, names_joined(method_names(self.allowed_methods@))),
                ),
                additional: Seq::empty(),
                body: BodyView::Empty,
            }),
    {
        let mut r = Response::new(204);
        r.header("Server", user_agent());
        r.header("Allow", allow_value(&self.allowed_methods).as_str());
        r
    }

    /// The answer to `TRACE`: the request's own header lines, marked as a
    /// message.
    pub fn handle_trace(&self, request_headers: &Vec<Header>) -> (r: Response)
        ensures
            r@ == (ResponseView {
                status: 200,
                lines: without_header(header_lines(request_headers@), "Content-Type"@).push(
                    ("Content-Type"@, "message/http"@),
                ),
                additional: Seq::empty(),
                body: BodyView::Empty,
            }),
    {
        let mut headers = remove_header(request_headers, "Content-Type");
        let ghost kept = header_lines(headers@);
        headers.push(
            Header {
                name: string_of(&chars_of("Content-Type")),
                value: string_of(&chars_of("message/http")),
            },
        );
        assert(header_lines(headers@) =~= kept.push(("Content-Type"@, "message/http"@)));
        let r = Response { status: 200, headers, additional: Vec::new(), body: Body::Empty };
        assert(r@.additional =~= Seq::empty());
        r
    }
}

} // verus!
