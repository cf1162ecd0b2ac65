//! The versions of HTTP.
use vstd::prelude::*;

verus! {

/// A version of HTTP.
#[derive(PartialEq, Eq, Structural, Debug, Copy, Clone)]
pub enum HttpVersion {
    Http09,
    Http10,
    Http11,
    Http20,
}

impl HttpVersion {
    /// The version as a request line gives it.
    pub open spec fn text(self) -> Seq<char> {
        match self {
            HttpVersion::Http09 => "HTTP/0.9"@,
            HttpVersion::Http10 => "HTTP/1.0"@,
            HttpVersion::Http11 => "HTTP/1.1"@,
            HttpVersion::Http20 => "HTTP/2.0"@,
        }
    }

    /// Returns the version as a request line gives it.
    pub fn as_str(&self) -> (text: &'static str)
        ensures
            text@ == self.text(),
    {
        match self {
            HttpVersion::Http09 => "HTTP/0.9",
            HttpVersion::Http10 => "HTTP/1.0",
            HttpVersion::Http11 => "HTTP/1.1",
            HttpVersion::Http20 => "HTTP/2.0",
        }
    }
}

/// A version goes out under its own name.
pub proof fn law_version_text()
    ensures
        HttpVersion::Http09.text() == "HTTP/0.9"@,
        HttpVersion::Http10.text() == "HTTP/1.0"@,
        HttpVersion::Http11.text() == "HTTP/1.1"@,
        HttpVersion::Http20.text() == "HTTP/2.0"@,
{
}

} // verus!
