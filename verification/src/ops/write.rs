//! Requests that change the tree: uploads and deletions.

use crate::ops::pages::{
    disallowed_method_page, file_as_directory, forbidden_method_page, invalid_url_page, not_utf8,
    partial_content_page,
};
use crate::ops::response::{
    no_lines, server_text, user_agent, ErrorPage, ErrorPageView, Method, Response, ResponseView,
    BodyView,
};
use crate::ops::HttpHandler;
use vstd::prelude::*;

verus! {

/// What the server has found out about the path that a request names.
#[derive(Debug, Clone, Copy, PartialEq, Eq, Structural)]
pub struct PathFacts {
    /// The path does not decode to text.
    pub url_err: bool,
    pub exists: bool,
    /// A link stands somewhere on the way to the path.
    pub symlink: bool,
    /// The path lies under the hosted directory.
    pub inside_root: bool,
    /// The path names something that is read like a file.
    pub is_file: bool,
    pub is_dir: bool,
    /// A file stands on the way to the path, where a directory is needed.
    pub file_as_dir: bool,
}

/// Whether the path may be touched as far as links go: no link stands on the
/// way; or links are followed, and this one stays inside the hosted directory
/// where links are held to it.
pub open spec fn within_sandbox(
    follow_symlinks: bool,
    sandbox_symlinks: bool,
    symlink: bool,
    inside_root: bool,
) -> bool {
    !symlink || (follow_symlinks && (!sandbox_symlinks || inside_root))
}

/// How an upload goes on.
pub enum PutRoute {
    /// The upload is refused with this page.
    Refused(ErrorPage),
    /// The body is taken in, and put in place only where `legal`.
    Write { legal: bool },
}

/// A `PutRoute` as the texts that it holds.
pub enum PutRouteView {
    Refused(ErrorPageView),
    Write { legal: bool },
}

impl View for PutRoute {
    type V = PutRouteView;

    open spec fn view(&self) -> PutRouteView {
        match self {
            PutRoute::Refused(p) => PutRouteView::Refused(p@),
            PutRoute::Write { legal } => PutRouteView::Write { legal: *legal },
        }
    }
}

/// How an upload to the path with the facts `p` goes on.
pub open spec fn put_route(
    writes: bool,
    follow_symlinks: bool,
    sandbox_symlinks: bool,
    allowed: Seq<Method>,
    p: PathFacts,
    content_range: bool,
) -> PutRouteView {
    if !writes {
        PutRouteView::Refused(forbidden_method_page("-w"@, "write requests"@))
    } else if p.url_err {
        PutRouteView::Refused(invalid_url_page(not_utf8()))
    } else if p.is_dir {
        PutRouteView::Refused(disallowed_method_page(Method::Put, "directory"@, allowed))
    } else if p.file_as_dir {
        PutRouteView::Refused(invalid_url_page(file_as_directory()))
    } else if content_range {
        PutRouteView::Refused(partial_content_page())
    } else {
        PutRouteView::Write {
            legal: within_sandbox(follow_symlinks, sandbox_symlinks, p.symlink, p.inside_root),
        }
    }
}

/// The time to give an uploaded file, in milliseconds since the epoch: that
/// of `X-Last-Modified`, which is in milliseconds, or else that of
/// `X-OC-MTime`, which is in seconds, where it can be told in milliseconds.
pub open spec fn upload_mtime(x_last_modified: Option<u64>, x_oc_mtime: Option<u64>) -> Option<u64> {
    match x_last_modified {
        Some(ms) => Some(ms),
        None => match x_oc_mtime {
            Some(s) => if s * 1000 <= u64::MAX {
                Some((s * 1000) as u64)
            } else {
                None
            },
            None => None,
        },
    }
}

/// Picks the time to give an uploaded file from the two headers that may
/// carry it.
pub fn put_mtime(x_last_modified: Option<u64>, x_oc_mtime: Option<u64>) -> (r: Option<u64>)
    ensures
        r == upload_mtime(x_last_modified, x_oc_mtime),
{
    match x_last_modified {
        Some(ms) => Some(ms),
        None => match x_oc_mtime {
            Some(s) => if s <= u64::MAX / 1000 {
                Some(s * 1000)
            } else {
                None
            },
            None => None,
        },
    }
}

/// The answer to an upload that was taken in: the file is new, or is said to
/// be where the upload was not put in place; or it replaced another.
pub open spec fn put_answer(legal: bool, existed: bool) -> ResponseView {
    ResponseView {
        status: if !legal || !existed {
            201
        } else {
            204
        },
        lines: no_lines().push(("Server"@, server_text())),
        additional: Seq::empty(),
        body: BodyView::Empty,
    }
}

/// How a deletion goes on.
pub enum DeleteRoute {
    Refused(ErrorPage),
    /// There is nothing to delete, or it may not be touched.
    NotFound,
    RemoveFile,
    /// The path names a link or a directory: it goes with all below it.
    RemoveTree,
}

/// A `DeleteRoute` as the texts that it holds.
pub enum DeleteRouteView {
    Refused(ErrorPageView),
    NotFound,
    RemoveFile,
    RemoveTree,
}

impl View for DeleteRoute {
    type V = DeleteRouteView;

    open spec fn view(&self) -> DeleteRouteView {
        match self {
            DeleteRoute::Refused(p) => DeleteRouteView::Refused(p@),
            DeleteRoute::NotFound => DeleteRouteView::NotFound,
            DeleteRoute::RemoveFile => DeleteRouteView::RemoveFile,
            DeleteRoute::RemoveTree => DeleteRouteView::RemoveTree,
        }
    }
}

/// How the deletion of the path with the facts `p` goes on.
pub open spec fn delete_route(
    writes: bool,
    follow_symlinks: bool,
    sandbox_symlinks: bool,
    p: PathFacts,
) -> DeleteRouteView {
    if !writes {
        DeleteRouteView::Refused(forbidden_method_page("-w"@, "write requests"@))
    } else if p.url_err {
        DeleteRouteView::Refused(invalid_url_page(not_utf8()))
    } else if !p.exists || !within_sandbox(
        follow_symlinks,
        sandbox_symlinks,
        p.symlink,
        p.inside_root,
    ) {
        DeleteRouteView::NotFound
    } else if p.is_file {
        DeleteRouteView::RemoveFile
    } else {
        DeleteRouteView::RemoveTree
    }
}

/// Nothing is deleted, and no upload is put in place, outside the sandbox.
pub proof fn lemma_writes_stay_in_sandbox(
    writes: bool,
    follow_symlinks: bool,
    sandbox_symlinks: bool,
    allowed: Seq<Method>,
    p: PathFacts,
    content_range: bool,
)
    ensures
        ({
            let route = delete_route(writes, follow_symlinks, sandbox_symlinks, p);
            route is RemoveFile || route is RemoveTree ==> p.exists && within_sandbox(
                follow_symlinks,
                sandbox_symlinks,
                p.symlink,
                p.inside_root,
            )
        }),
        put_route(writes, follow_symlinks, sandbox_symlinks, allowed, p, content_range) matches PutRouteView::Write {
            legal,
        } ==> legal == within_sandbox(follow_symlinks, sandbox_symlinks, p.symlink, p.inside_root),
{
}

impl HttpHandler {
    /// Whether the path with the facts `p` may be touched as far as links go.
    pub fn in_sandbox(&self, p: &PathFacts) -> (r: bool)
        ensures
            r == within_sandbox(self.follow_symlinks, self.sandbox_symlinks, p.symlink, p.inside_root),
    {
        !p.symlink || (self.follow_symlinks && (!self.sandbox_symlinks || p.inside_root))
    }

    /// Decides on an upload to the path with the facts `p`, where
    /// `inside_root` says whether the path, which need not exist, would lie
    /// under the hosted directory.
    pub fn handle_put(&self, p: &PathFacts, content_range: bool) -> (r: PutRoute)
        ensures
            r@ == put_route(
                self.writes_temp_dir is Some,
                self.follow_symlinks,
                self.sandbox_symlinks,
                self.allowed_methods@,
                *p,
                content_range,
            ),
    {
        if self.writes_temp_dir.is_none() {
            PutRoute::Refused(self.handle_forbidden_method("-w", "write requests"))
        } else if p.url_err {
            PutRoute::Refused(
                self.handle_invalid_url("<p>Percent-encoding decoded to invalid UTF-8.</p>"),
            )
        } else if p.is_dir {
            PutRoute::Refused(self.handle_disallowed_method(&Method::Put, "directory"))
        } else if p.file_as_dir {
            PutRoute::Refused(self.handle_invalid_url("<p>Attempted to use file as directory.</p>"))
        } else if content_range {
            PutRoute::Refused(self.handle_put_partial_content())
        } else {
            PutRoute::Write { legal: self.in_sandbox(p) }
        }
    }

    /// The answer to an upload that was taken in.
    pub fn handle_put_file(&self, legal: bool, existed: bool) -> (r: Response)
        ensures
            r@ == put_answer(legal, existed),
    {
        let mut r = Response::new(
            if !legal || !existed {
                201
            } else {
                204
            },
        );
        r.header("Server", user_agent());
        r
    }

    /// Decides on the deletion of the path with the facts `p`.
    pub fn handle_delete(&self, p: &PathFacts) -> (r: DeleteRoute)
        ensures
            r@ == delete_route(
                self.writes_temp_dir is Some,
                self.follow_symlinks,
                self.sandbox_symlinks,
                *p,
            ),
    {
        if self.writes_temp_dir.is_none() {
            DeleteRoute::Refused(self.handle_forbidden_method("-w", "write requests"))
        } else if p.url_err {
            DeleteRoute::Refused(
                self.handle_invalid_url("<p>Percent-encoding decoded to invalid UTF-8.</p>"),
            )
        } else if !p.exists || !self.in_sandbox(p) {
            DeleteRoute::NotFound
        } else if p.is_file {
            DeleteRoute::RemoveFile
        } else {
            DeleteRoute::RemoveTree
        }
    }

    /// The answer to a deletion that was carried out.
    pub fn handle_delete_path(&self) -> (r: Response)
        ensures
            r@ == (ResponseView {
                status: 204,
                lines: no_lines().push(("Server"@, server_text())),
                additional: Seq::empty(),
                body: BodyView::Empty,
            }),
    {
        let mut r = Response::new(204);
        r.header("Server", user_agent());
        r
    }
}

} // verus!
