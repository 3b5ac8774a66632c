//! Access to the static files: the start page and the authentication pages
//! are public, everything else needs an Authorization header.
use vstd::prelude::*;

use crate::text::starts_with;

verus! {

/// Whether a path is open to everyone: the start page, `/index.html`, or
/// anything under `/auth/`.
pub open spec fn is_public_path(path: Seq<char>) -> bool {
    ||| path == "/"@
    ||| path == "/index.html"@
    ||| ("/auth/"@.len() <= path.len() && path.subrange(0, "/auth/"@.len() as int) == "/auth/"@)
}

/// Whether a path is open to everyone.
pub fn public_path(path: &str) -> (public: bool)
    ensures
        public == is_public_path(path@),
{
    crate::text::str_equal(path, "/") || crate::text::str_equal(path, "/index.html") || starts_with(
        path,
        "/auth/",
    )
}

/// What becomes of a request for a static file.
#[derive(Debug, Clone, Copy, PartialEq, Eq, Structural)]
pub enum StaticAccess {
    /// The request goes on to the file service.
    Forward,
    /// The request is refused: authentication is required.
    Unauthorized,
}

/// Middleware to handle authentication for static files.
#[derive(Debug, Clone, Copy)]
pub struct StaticAuthMiddleware;

impl StaticAuthMiddleware {
    /// The middleware wrapped around `service`.
    pub fn new_transform<S>(&self, service: S) -> (wrapped: StaticAuthMiddlewareService<S>)
        ensures
            wrapped.inner() == service,
    {
        StaticAuthMiddlewareService { service }
    }
}

/// The file service behind the static-file authentication.
pub struct StaticAuthMiddlewareService<S> {
    service: S,
}

impl<S> StaticAuthMiddlewareService<S> {
    /// The wrapped service.
    pub closed spec fn inner(&self) -> S {
        self.service
    }

    /// The wrapped service.
    pub fn service(&self) -> (service: &S)
        ensures
            *service == self.inner(),
    {
        &self.service
    }

    /// Decides what becomes of a request for `path`: public paths go on, and
    /// so does any request that carries an Authorization header; the rest is
    /// refused.
    pub fn decide(&self, path: &str, has_authorization: bool) -> (access: StaticAccess)
        ensures
            access == (if is_public_path(path@) || has_authorization {
                StaticAccess::Forward
            } else {
                StaticAccess::Unauthorized
            }),
    {
        if public_path(path) || has_authorization {
            StaticAccess::Forward
        } else {
            StaticAccess::Unauthorized
        }
    }
}

} // verus!
