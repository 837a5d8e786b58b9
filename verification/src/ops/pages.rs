//! The pages that tell a client what went wrong.

use crate::ops::response::{
    allow_value, method_names, names_joined, reason, reason_phrase, ErrorPage, ErrorPageView,
    Method,
};
use crate::ops::HttpHandler;
use crate::text::{append_str, chars_of, dec_digits, decimal, string_of};
use vstd::prelude::*;

verus! {

fn page(status: u16, title: Vec<char>, message: Vec<char>, detail: Vec<char>) -> (r: ErrorPage)
    ensures
        r@ == (ErrorPageView {
            status,
            title: title@,
            message: message@,
            detail: detail@,
            allow: None,
        }),
{
    ErrorPage {
        status,
        title: string_of(&title),
        message: string_of(&message),
        detail: string_of(&detail),
        allow: None,
    }
}

/// What is told of a path that does not decode to text.
pub open spec fn not_utf8() -> Seq<char> {
    "<p>Percent-encoding decoded to invalid UTF-8.</p>"@
}

/// What is told of a path that goes through a file.
pub open spec fn file_as_directory() -> Seq<char> {
    "<p>Attempted to use file as directory.</p>"@
}

/// The page for a request whose URL cannot be served, with the reason as a
/// paragraph of markup.
pub open spec fn invalid_url_page(cause: Seq<char>) -> ErrorPageView {
    ErrorPageView {
        status: 400,
        title: "400 Bad Request"@,
        message: "The request URL was invalid."@,
        detail: cause,
        allow: None,
    }
}

/// The page for something that is not there, under the status `status`.
pub open spec fn nonexistent_page(status: u16, url_path: Seq<char>) -> ErrorPageView {
    ErrorPageView {
        status,
        title: dec_digits(status as nat) + " "@ + reason(status),
        message: "The requested entity \""@ + url_path + "\" doesn't exist."@,
        detail: ""@,
        allow: None,
    }
}

/// The page for a method that cannot be used on what the request names.
pub open spec fn disallowed_method_page(
    method: Method,
    kind: Seq<char>,
    allowed: Seq<Method>,
) -> ErrorPageView {
    ErrorPageView {
        status: 405,
        title: "405 Method Not Allowed"@,
        message: "Can't "@ + method.name() + " on a "@ + kind + "."@,
        detail: "<p>Allowed methods: "@ + names_joined(method_names(allowed)) + "</p>"@,
        allow: Some(names_joined(method_names(allowed))),
    }
}

/// The page for an upload that carries only a part of a file.
pub open spec fn partial_content_page() -> ErrorPageView {
    ErrorPageView {
        status: 400,
        title: "400 Bad Request"@,
        message: "<a href=\"https://tools.ietf.org/html/rfc7231#section-4.3.3\">RFC7231 forbids partial-content PUT requests.</a>"@,
        detail: ""@,
        allow: None,
    }
}

/// The page for a method that is switched off.
pub open spec fn forbidden_method_page(switch: Seq<char>, desc: Seq<char>) -> ErrorPageView {
    ErrorPageView {
        status: 403,
        title: "403 Forbidden"@,
        message: "This feature is currently disabled."@,
        detail: "<p>Ask the server administrator to pass <samp>"@ + switch
            + "</samp> to the executable to enable support for "@ + desc + ".</p>"@,
        allow: None,
    }
}

/// The page for a method that the server does not answer.
pub open spec fn bad_method_page(method: Method, allowed: Seq<Method>) -> ErrorPageView {
    ErrorPageView {
        status: 501,
        title: "501 Not Implemented"@,
        message: "This operation was not implemented."@,
        detail: "<p>Unsupported request method: "@ + method.name()
            + ".<br />\nSupported methods: "@ + names_joined(method_names(allowed)) + ".</p>"@,
        allow: Some(names_joined(method_names(allowed))),
    }
}

/// The page for something that the server may not open.
pub open spec fn unopenable_page(url_path: Seq<char>) -> ErrorPageView {
    ErrorPageView {
        status: 403,
        title: "403 Forbidden"@,
        message: "Can't access "@ + url_path + "."@,
        detail: ""@,
        allow: None,
    }
}

impl HttpHandler {
    /// The page for a request whose URL cannot be served.
    pub fn handle_invalid_url(&self, cause: &str) -> (r: ErrorPage)
        ensures
            r@ == invalid_url_page(cause@),
    {
        page(
            400,
            chars_of("400 Bad Request"),
            chars_of("The request URL was invalid."),
            chars_of(cause),
        )
    }

    /// The page for something that is not there.
    pub fn handle_nonexistent(&self, url_path: &str) -> (r: ErrorPage)
        ensures
            r@ == nonexistent_page(404, url_path@),
    {
        self.handle_nonexistent_status(url_path, 404)
    }

    /// The page for something that is not there, under the status `status`.
    pub fn handle_nonexistent_status(&self, url_path: &str, status: u16) -> (r: ErrorPage)
        ensures
            r@ == nonexistent_page(status, url_path@),
    {
        let mut title = decimal(status as u64);
        append_str(&mut title, " ");
        append_str(&mut title, reason_phrase(status));
        let mut message = chars_of("The requested entity \"");
        append_str(&mut message, url_path);
        append_str(&mut message, "\" doesn't exist.");
        page(status, title, message, chars_of(""))
    }

    /// The page for a method that cannot be used on a thing of the kind `kind`.
    pub fn handle_disallowed_method(&self, method: &Method, kind: &str) -> (r: ErrorPage)
        ensures
            r@ == disallowed_method_page(*method, kind@, self.allowed_methods@),
    {
        let allowed = allow_value(&self.allowed_methods);
        let mut message = chars_of("Can't ");
        append_str(&mut message, method.to_string().as_str());
        append_str(&mut message, " on a ");
        append_str(&mut message, kind);
        append_str(&mut message, ".");
        let mut detail = chars_of("<p>Allowed methods: ");
        append_str(&mut detail, allowed.as_str());
        append_str(&mut detail, "</p>");
        ErrorPage {
            status: 405,
            title: string_of(&chars_of("405 Method Not Allowed")),
            message: string_of(&message),
            detail: string_of(&detail),
            allow: Some(allowed),
        }
    }

    /// The page for an upload that carries only a part of a file.
    pub fn handle_put_partial_content(&self) -> (r: ErrorPage)
        ensures
            r@ == partial_content_page(),
    {
        page(
            400,
            chars_of("400 Bad Request"),
            chars_of(
                "<a href=\"https://tools.ietf.org/html/rfc7231#section-4.3.3\">RFC7231 forbids partial-content PUT requests.</a>",
            ),
            chars_of(""),
        )
    }

    /// The page for a method that is switched off, with the switch that would
    /// turn it on and a word for what it turns on.
    pub fn handle_forbidden_method(&self, switch: &str, desc: &str) -> (r: ErrorPage)
        ensures
            r@ == forbidden_method_page(switch@, desc@),
    {
        let mut detail = chars_of("<p>Ask the server administrator to pass <samp>");
        append_str(&mut detail, switch);
        append_str(&mut detail, "</samp> to the executable to enable support for ");
        append_str(&mut detail, desc);
        append_str(&mut detail, ".</p>");
        page(
            403,
            chars_of("403 Forbidden"),
            chars_of("This feature is currently disabled."),
            detail,
        )
    }

    /// The page for a method that the server does not answer.
    pub fn handle_bad_method(&self, method: &Method) -> (r: ErrorPage)
        ensures
            r@ == bad_method_page(*method, self.allowed_methods@),
    {
        let allowed = allow_value(&self.allowed_methods);
        let mut detail = chars_of("<p>Unsupported request method: ");
        append_str(&mut detail, method.to_string().as_str());
        append_str(&mut detail, ".<br />\nSupported methods: ");
        append_str(&mut detail, allowed.as_str());
        append_str(&mut detail, ".</p>");
        ErrorPage {
            status: 501,
            title: string_of(&chars_of("501 Not Implemented")),
            message: string_of(&chars_of("This operation was not implemented.")),
            detail: string_of(&detail),
            allow: Some(allowed),
        }
    }

    /// The page for a file or directory that could not be opened because the
    /// server lacks the permission.
    pub fn handle_requested_entity_unopenable(&self, url_path: &str) -> (r: ErrorPage)
        ensures
            r@ == unopenable_page(url_path@),
    {
        let mut message = chars_of("Can't access ");
        append_str(&mut message, url_path);
        append_str(&mut message, ".");
        page(403, chars_of("403 Forbidden"), message, chars_of(""))
    }
}

} // verus!
