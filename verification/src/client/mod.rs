//! The client side of HTTP.
use vstd::prelude::*;
use vstd::string::StringExecFns;

use crate::{HttpError, HttpResult, UriError};

pub mod request;

pub use request::Request;

verus! {

/// The address of a request, as far as a client needs it.
#[derive(PartialEq, Eq, Debug)]
pub struct Url {
    pub scheme: String,
    /// The host, where the scheme has hosts.
    pub host: Option<String>,
    /// The port, or the one that the scheme has of its own.
    pub port: Option<u16>,
    /// The path, where the scheme has paths.
    pub path: Option<String>,
    /// What stands behind a question mark.
    pub query: Option<String>,
}

/// The value of a [`Url`].
pub struct UrlView {
    pub scheme: Seq<char>,
    pub host: Option<Seq<char>>,
    pub port: Option<u16>,
    pub path: Option<Seq<char>>,
    pub query: Option<Seq<char>>,
}

/// The value of a text that may be missing.
pub open spec fn text_view(text: Option<String>) -> Option<Seq<char>> {
    match text {
        Some(t) => Some(t@),
        None => None,
    }
}

impl View for Url {
    type V = UrlView;

    open spec fn view(&self) -> UrlView {
        UrlView {
            scheme: self.scheme@,
            host: text_view(self.host),
            port: self.port,
            path: text_view(self.path),
            query: text_view(self.query),
        }
    }
}

impl UrlView {
    /// Whether the parts agree with each other: a scheme has both hosts and
    /// paths or neither, ports are ports of hosts, and a path starts with a
    /// slash.
    pub open spec fn is_consistent(self) -> bool {
        &&& self.host is Some <==> self.path is Some
        &&& self.port is Some ==> self.host is Some
        &&& self.path matches Some(path) ==> path.len() > 0 && path[0] == '/'
    }

    /// What a request line asks for: the path, and the query where there is
    /// one.
    pub open spec fn target(self) -> Seq<char> {
        match self.query {
            Some(query) => self.path.unwrap_or(Seq::empty()) + "?"@ + query,
            None => self.path.unwrap_or(Seq::empty()),
        }
    }
}

/// What `url::Url::parse` makes of a text: the parts of the address, or an
/// error.
pub uninterp spec fn parsed_url(text: Seq<char>) -> Result<UrlView, url::ParseError>;

/// The value of what came out of the parser.
pub open spec fn parsed_view(result: Result<Url, url::ParseError>) -> Result<
    UrlView,
    url::ParseError,
> {
    match result {
        Ok(url) => Ok(url@),
        Err(error) => Err(error),
    }
}

/// Parses an address with `url::Url::parse`, and takes the parts of it that
/// `serialize_host`, `port_or_default` and `serialize_path` give.
///
/// The outcome depends on the text alone. A host, a port and a path come from
/// the data that only an address in a relative scheme has, and the path starts
/// with a slash.
#[verifier::external_body]
fn parse_url(text: &str) -> (result: Result<Url, url::ParseError>)
    ensures
        parsed_view(result) == parsed_url(text@),
        result matches Ok(url) ==> url@.is_consistent(),
{
    let url = url::Url::parse(text)?;
    Ok(
        Url {
            host: url.serialize_host(),
            port: url.port_or_default(),
            path: url.serialize_path(),
            scheme: url.scheme,
            query: url.query,
        },
    )
}

impl Url {
    /// Parses an address.
    pub fn parse(text: &str) -> (result: HttpResult<Url>)
        ensures
            match parsed_url(text@) {
                Ok(url) => result matches Ok(u) && u@ == url && url.is_consistent(),
                Err(error) => result == Err::<Url, HttpError>(
                    HttpError::HttpUriError(UriError::Parse(error)),
                ),
            },
    {
        match parse_url(text) {
            Ok(url) => Ok(url),
            Err(error) => Err(HttpError::HttpUriError(UriError::Parse(error))),
        }
    }

    /// Returns what a request line asks for.
    pub fn to_target(&self) -> (target: String)
        requires
            self.path is Some,
        ensures
            target@ == self@.target(),
    {
        let mut target: String = match &self.path {
            Some(path) => path.clone(),
            None => String::new(),
        };
        if let Some(query) = &self.query {
            target.append("?");
            target.append(query.as_str());
        }
        target
    }
}

/// Returns the host and the port to connect to.
pub fn get_host_and_port(url: &Url) -> (result: HttpResult<(String, u16)>)
    ensures
        match (url@.host, url@.port) {
            (None, _) => result == Err::<(String, u16), HttpError>(
                HttpError::HttpUriError(UriError::EmptyHost),
            ),
            (Some(_), None) => result == Err::<(String, u16), HttpError>(
                HttpError::HttpUriError(UriError::InvalidPort),
            ),
            (Some(host), Some(port)) => result matches Ok((h, p)) && h@ == host && p == port,
        },
{
    let host: String = match &url.host {
        Some(host) => host.clone(),
        None => return Err(HttpError::HttpUriError(UriError::EmptyHost)),
    };
    let port: u16 = match url.port {
        Some(port) => port,
        None => return Err(HttpError::HttpUriError(UriError::InvalidPort)),
    };
    Ok((host, port))
}

/// The value of an address is its parts.
pub proof fn law_url_value(url: Url)
    ensures
        url@.scheme == url.scheme@,
        url@.port == url.port,
        match url.host {
            Some(host) => url@.host == Some(host@),
            None => url@.host is None,
        },
        match url.path {
            Some(path) => url@.path == Some(path@),
            None => url@.path is None,
        },
        match url.query {
            Some(query) => url@.query == Some(query@),
            None => url@.query is None,
        },
{
}

/// What is asked for is the path, and behind it, where the address has one, a
/// question mark and the query. An empty query is one, too.
pub proof fn law_target(url: Url)
    requires
        url.path is Some,
    ensures
        ({
            let path = url.path->0@;
            let target = url@.target();
            &&& target.len() >= path.len()
            &&& target.take(path.len() as int) == path
            &&& url.query is None ==> target == path
            &&& url.query matches Some(query) ==> {
                &&& target.len() == path.len() + 1 + query@.len()
                &&& target[path.len() as int] == '?'
                &&& target.skip(path.len() + 1int) == query@
            }
        }),
{
    reveal_strlit("?");
    let path = url.path->0@;
    let target = url@.target();
    assert(target.take(path.len() as int) =~= path);
    if let Some(query) = url.query {
        assert(target.skip(path.len() + 1int) =~= query@);
    }
}

/// An address is consistent where it has both a host and a path or neither, a
/// port only beside a host, and a path that starts with a slash.
pub proof fn law_consistent(url: UrlView)
    ensures
        url.is_consistent() <==> {
            &&& url.host is Some <==> url.path is Some
            &&& url.port is Some ==> url.host is Some
            &&& url.path matches Some(path) ==> path.len() > 0 && path[0] == '/'
        },
{
}

} // verus!
