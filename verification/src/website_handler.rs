//! A handler that serves the files of one directory. The files themselves are
//! read elsewhere: here is what is decided before and after a file is read.

use crate::http::method::Method;
use crate::http::request::{Request, RequestView};
use crate::http::response::{body_text, Response, ResponseView};
use crate::http::status_code::StatusCode;
use crate::http::text::{same_text, starts_with};
use std::sync::Arc;
use vstd::prelude::*;
use vstd::string::*;

verus! {

/// The prefix `\\?\` that marks a verbatim path.
pub open spec fn verbatim_prefix() -> Seq<char> {
    "\\\\?\\"@
}

/// A path without the verbatim prefix, where it has one.
pub open spec fn without_verbatim_prefix(p: Seq<char>) -> Seq<char> {
    if verbatim_prefix().is_prefix_of(p) {
        p.skip(verbatim_prefix().len() as int)
    } else {
        p
    }
}

/// Takes the verbatim prefix `\\?\` off a canonical path that has one.
pub fn adjust_canonicalization(p: &str) -> (r: String)
    ensures
        r@ == without_verbatim_prefix(p@),
{
    let prefix = "\\\\?\\";
    if starts_with(p, prefix) {
        let rest = p.substring_char(prefix.unicode_len(), p.unicode_len());
        rest.to_owned()
    } else {
        p.to_owned()
    }
}

/// What a request is answered with.
pub enum Route<'a> {
    /// The named file under status 200, also where it cannot be read.
    Page(&'a str),
    /// The named file under status 200, or status 404 where it cannot be read.
    File(&'a str),
    /// Status 404.
    NotFound,
}

/// What a `Route` holds.
pub enum RouteView {
    Page(Seq<char>),
    File(Seq<char>),
    NotFound,
}

impl<'a> View for Route<'a> {
    type V = RouteView;

    open spec fn view(&self) -> RouteView {
        match self {
            Route::Page(file) => RouteView::Page(file@),
            Route::File(file) => RouteView::File(file@),
            Route::NotFound => RouteView::NotFound,
        }
    }
}

/// The route of a request: only GET is served; `/` and `/hello` name their
/// pages, every other path names the file to look for.
pub open spec fn route_of(request: RequestView) -> RouteView {
    if request.method != Method::GET {
        RouteView::NotFound
    } else if request.path == "/"@ {
        RouteView::Page("index.html"@)
    } else if request.path == "/hello"@ {
        RouteView::Page("hello.html"@)
    } else {
        RouteView::File(request.path)
    }
}

/// The file that a route names, if it names one.
pub open spec fn file_of(route: RouteView) -> Option<Seq<char>> {
    match route {
        RouteView::Page(file) => Some(file),
        RouteView::File(file) => Some(file),
        RouteView::NotFound => None,
    }
}

/// The response for a route, given what was read of the file it names.
pub open spec fn response_of(route: RouteView, contents: Option<Seq<char>>) -> ResponseView {
    match route {
        RouteView::Page(_) => ResponseView { status_code: StatusCode::OK, body: contents },
        RouteView::File(_) => match contents {
            Some(contents) => ResponseView { status_code: StatusCode::OK, body: Some(contents) },
            None => ResponseView { status_code: StatusCode::NotFound, body: None },
        },
        RouteView::NotFound => ResponseView { status_code: StatusCode::NotFound, body: None },
    }
}

impl<'a> Route<'a> {
    /// The file that the route names, if it names one.
    pub fn file(&self) -> (r: Option<&'a str>)
        ensures
            match r {
                Some(file) => file_of(self@) == Some(file@),
                None => file_of(self@) is None,
            },
    {
        match self {
            Route::Page(file) => Some(*file),
            Route::File(file) => Some(*file),
            Route::NotFound => None,
        }
    }
}

/// The handler of a website whose files lie under one public directory.
pub struct RequestHandler {
    public_path: Arc<String>,
}

impl View for RequestHandler {
    type V = Seq<char>;

    closed spec fn view(&self) -> Seq<char> {
        self.public_path@
    }
}

impl RequestHandler {
    /// A handler for the files under `public_path`.
    pub fn new(public_path: Arc<String>) -> (r: Self)
        ensures
            r@ == public_path@,
    {
        Self { public_path }
    }

    /// The public directory.
    pub fn public_path(&self) -> (r: &str)
        ensures
            r@ == self@,
    {
        self.public_path.as_str()
    }

    /// The path of a file of the website, before it is made canonical: the
    /// public directory, `/`, and the file's path.
    pub fn locate(&self, file_path: &str) -> (r: String)
        ensures
            r@ == self@ + "/"@ + file_path@,
    {
        let mut path = self.public_path.as_str().to_owned();
        path.append("/");
        path.append(file_path);
        path
    }

    /// The path to read for a canonical path: the path without its verbatim
    /// prefix, if that lies under the public directory. A path that leads
    /// out of the directory is not read.
    pub fn confine(&self, canonical: &str) -> (r: Option<String>)
        ensures
            match r {
                Some(path) => path@ == without_verbatim_prefix(canonical@) && self@.is_prefix_of(
                    path@,
                ),
                None => !self@.is_prefix_of(without_verbatim_prefix(canonical@)),
            },
    {
        let path = adjust_canonicalization(canonical);
        if starts_with(path.as_str(), self.public_path.as_str()) {
            Some(path)
        } else {
            None
        }
    }

    /// Decides what a request is answered with.
    pub fn route<'a>(&self, request: &'a Request) -> (r: Route<'a>)
        ensures
            r@ == route_of(request@),
    {
        match request.method() {
            Method::GET => {
                let path = request.path();
                if same_text(path, "/") {
                    Route::Page("index.html")
                } else if same_text(path, "/hello") {
                    Route::Page("hello.html")
                } else {
                    Route::File(path)
                }
            },
            _ => Route::NotFound,
        }
    }

    /// The response for a route, given what was read of the file it names.
    pub fn respond(route: &Route, contents: Option<String>) -> (r: Response)
        ensures
            r@ == response_of(route@, body_text(contents)),
    {
        match route {
            Route::Page(_) => Response::new(StatusCode::OK, contents),
            Route::File(_) => match contents {
                Some(contents) => Response::new(StatusCode::OK, Some(contents)),
                None => Response::new(StatusCode::NotFound, None),
            },
            Route::NotFound => Response::new(StatusCode::NotFound, None),
        }
    }
}

} // verus!
