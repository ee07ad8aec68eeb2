//! Client-side pagination engine for a course-listing REST API.
//!
//! The crate parses RFC-5988 style `Link` response headers ([`links`]),
//! assembles the result of one request into a [`page::Page`], and walks a
//! chain of pages with the [`paginate::Paginator`] state machine.  A
//! [`Canvas`] holds the validated connection target that requests are
//! resolved against.

use vstd::prelude::*;

pub mod error;
pub mod link_laws;
pub mod links;
pub mod models;
pub mod page;
pub mod paginate;
pub mod urls;

use crate::error::Error;
use crate::links::trim_ws;
use crate::links::trimmed;
use crate::urls::{url_join, url_join_of};

verus! {

/// A configured connection target: the resolved API base URL and the
/// authorization header value to send with every request.
pub struct Canvas {
    api_url: String,
    auth_header: String,
}

impl Canvas {
    /// The resolved base URL of the API, ending in the versioned prefix.
    pub closed spec fn api_url_spec(&self) -> Seq<char> {
        self.api_url@
    }

    /// The full `Authorization` header value.
    pub closed spec fn auth_header_spec(&self) -> Seq<char> {
        self.auth_header@
    }

    /// Starts configuring a connection target.
    pub fn builder<'a>() -> (r: CanvasBuilder<'a>)
        ensures
            r.base_url_spec().len() == 0,
            r.auth_token_spec().len() == 0,
    {
        proof {
            reveal_strlit("");
        }
        CanvasBuilder { base_url: "", auth_token: "" }
    }

    pub fn api_url(&self) -> (r: &String)
        ensures
            r@ == self.api_url_spec(),
    {
        &self.api_url
    }

    pub fn auth_header(&self) -> (r: &String)
        ensures
            r@ == self.auth_header_spec(),
    {
        &self.auth_header
    }

    /// Resolves a route against the API base URL.
    pub fn absolute_url(&self, url: &str) -> (r: Result<String, Error>)
        ensures
            match r {
                Ok(u) => url_join_of(self.api_url_spec(), url@) == Some(u@),
                Err(e) => url_join_of(self.api_url_spec(), url@) is None && e matches
                    Error::UrlParse { .. },
            },
    {
        match url_join(self.api_url.as_str(), url) {
            Ok(u) => Ok(u),
            Err(cause) => Err(Error::UrlParse { cause }),
        }
    }
}

/// Collects a base URL and a bearer token, then validates them into a
/// [`Canvas`].
pub struct CanvasBuilder<'a> {
    base_url: &'a str,
    auth_token: &'a str,
}

impl<'a> CanvasBuilder<'a> {
    /// The base URL set so far.
    pub closed spec fn base_url_spec(&self) -> Seq<char> {
        self.base_url@
    }

    /// The bearer token set so far.
    pub closed spec fn auth_token_spec(&self) -> Seq<char> {
        self.auth_token@
    }

    pub fn set_url(self, base_url: &'a str) -> (r: Self)
        ensures
            r.base_url_spec() == base_url@,
            r.auth_token_spec() == self.auth_token_spec(),
    {
        CanvasBuilder { base_url, auth_token: self.auth_token }
    }

    pub fn set_token(self, token: &'a str) -> (r: Self)
        ensures
            r.base_url_spec() == self.base_url_spec(),
            r.auth_token_spec() == token@,
    {
        CanvasBuilder { base_url: self.base_url, auth_token: token }
    }

    /// Validates the configuration: resolves the versioned API prefix
    /// against the base URL, failing fast when the base URL does not
    /// parse, and composes the authorization header from the token with
    /// surrounding whitespace trimmed.
    pub fn build(self) -> (r: Result<Canvas, Error>)
        ensures
            match r {
                Ok(c) => url_join_of(self.base_url_spec(), "/api/v1/"@) == Some(c.api_url_spec())
                    && c.auth_header_spec() == "Bearer "@ + trimmed(self.auth_token_spec()),
                Err(e) => url_join_of(self.base_url_spec(), "/api/v1/"@) is None && e matches
                    Error::UrlParse { .. },
            },
    {
        let auth_header = "Bearer ".to_owned().concat(trim_ws(self.auth_token));
        match url_join(self.base_url, "/api/v1/") {
            Ok(api_url) => Ok(Canvas { api_url, auth_header }),
            Err(cause) => Err(Error::UrlParse { cause }),
        }
    }
}

impl<'a> Default for CanvasBuilder<'a> {
    /// An empty configuration: no base URL, no token.
    fn default() -> (r: Self)
        ensures
            r.base_url_spec().len() == 0,
            r.auth_token_spec().len() == 0,
    {
        proof {
            reveal_strlit("");
        }
        CanvasBuilder { base_url: "", auth_token: "" }
    }
}

} // verus!
