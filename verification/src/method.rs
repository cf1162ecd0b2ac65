//! The methods of HTTP.
use vstd::prelude::*;

verus! {

/// What a request asks of the server.
#[derive(PartialEq, Eq, Debug)]
pub enum Method {
    Options,
    Get,
    Post,
    Put,
    Delete,
    Head,
    Trace,
    Connect,
    Patch,
    /// A method by its name, such as `PROPFIND`.
    Extension(String),
}

impl Method {
    /// The method as a request line gives it.
    pub open spec fn text(self) -> Seq<char> {
        match self {
            Method::Options => "OPTIONS"@,
            Method::Get => "GET"@,
            Method::Post => "POST"@,
            Method::Put => "PUT"@,
            Method::Delete => "DELETE"@,
            Method::Head => "HEAD"@,
            Method::Trace => "TRACE"@,
            Method::Connect => "CONNECT"@,
            Method::Patch => "PATCH"@,
            Method::Extension(name) => name@,
        }
    }

    /// Whether a request with this method never has a body.
    pub open spec fn is_bodiless(self) -> bool {
        self is Get || self is Head
    }

    /// Returns the method as a request line gives it.
    pub fn as_str(&self) -> (text: &str)
        ensures
            text@ == self.text(),
    {
        match self {
            Method::Options => "OPTIONS",
            Method::Get => "GET",
            Method::Post => "POST",
            Method::Put => "PUT",
            Method::Delete => "DELETE",
            Method::Head => "HEAD",
            Method::Trace => "TRACE",
            Method::Connect => "CONNECT",
            Method::Patch => "PATCH",
            Method::Extension(name) => name.as_str(),
        }
    }
}

impl Clone for Method {
    fn clone(&self) -> (method: Method)
        ensures
            method == *self,
    {
        match self {
            Method::Options => Method::Options,
            Method::Get => Method::Get,
            Method::Post => Method::Post,
            Method::Put => Method::Put,
            Method::Delete => Method::Delete,
            Method::Head => Method::Head,
            Method::Trace => Method::Trace,
            Method::Connect => Method::Connect,
            Method::Patch => Method::Patch,
            Method::Extension(name) => Method::Extension(name.clone()),
        }
    }
}

/// A method goes out under its own name, one that is given by its name under
/// exactly that, and only GET and HEAD never have a body.
pub proof fn law_method_text(method: Method)
    ensures
        match method {
            Method::Options => method.text() == "OPTIONS"@,
            Method::Get => method.text() == "GET"@,
            Method::Post => method.text() == "POST"@,
            Method::Put => method.text() == "PUT"@,
            Method::Delete => method.text() == "DELETE"@,
            Method::Head => method.text() == "HEAD"@,
            Method::Trace => method.text() == "TRACE"@,
            Method::Connect => method.text() == "CONNECT"@,
            Method::Patch => method.text() == "PATCH"@,
            Method::Extension(name) => method.text() == name@,
        },
        method.is_bodiless() <==> method == Method::Get || method == Method::Head,
{
}

} // verus!
