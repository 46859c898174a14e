//! A received response, as plain values.

use vstd::prelude::*;
use vstd::std_specs::iter::IteratorSpec;

verus! {

/// The protocol version that a response came in.
#[derive(Debug, Clone, Copy, PartialEq, Eq, Structural)]
pub enum Version {
    Http09,
    Http10,
    Http11,
    Http2,
    Http3,
}

/// How a version is written in a status line.
pub open spec fn version_label(version: Version) -> Seq<char> {
    match version {
        Version::Http09 => "HTTP/0.9"@,
        Version::Http10 => "HTTP/1.0"@,
        Version::Http11 => "HTTP/1.1"@,
        Version::Http2 => "HTTP/2.0"@,
        Version::Http3 => "HTTP/3.0"@,
    }
}

impl Version {
    /// How the version is written in a status line.
    pub fn label(&self) -> (s: &'static str)
        ensures
            s@ == version_label(*self),
    {
        match self {
            Version::Http09 => "HTTP/0.9",
            Version::Http10 => "HTTP/1.0",
            Version::Http11 => "HTTP/1.1",
            Version::Http2 => "HTTP/2.0",
            Version::Http3 => "HTTP/3.0",
        }
    }
}

/// One header line of a response.
#[derive(Debug, Clone, PartialEq, Eq)]
pub struct Header {
    pub name: String,
    pub value: String,
}

/// What a [`Header`] holds, as sequences of characters.
pub struct HeaderView {
    pub name: Seq<char>,
    pub value: Seq<char>,
}

impl View for Header {
    type V = HeaderView;

    open spec fn view(&self) -> HeaderView {
        HeaderView { name: self.name@, value: self.value@ }
    }
}

/// A response, read to its end: the status, the headers in the order in
/// which they came, and the body as text.
#[derive(Debug, Clone, PartialEq, Eq)]
pub struct HttpResponse {
    pub version: Version,
    pub status: u16,
    pub headers: Vec<Header>,
    pub body: String,
}

/// What an [`HttpResponse`] holds, as sequences.
pub struct ResponseView {
    pub version: Version,
    pub status: u16,
    pub headers: Seq<HeaderView>,
    pub body: Seq<char>,
}

/// The headers of `headers`, each by its view.
pub open spec fn header_views(headers: Seq<Header>) -> Seq<HeaderView> {
    Seq::new(headers.len(), |i: int| headers[i]@)
}

impl View for HttpResponse {
    type V = ResponseView;

    open spec fn view(&self) -> ResponseView {
        ResponseView {
            version: self.version,
            status: self.status,
            headers: header_views(self.headers@),
            body: self.body@,
        }
    }
}

/// The code point of `c`, with the capital letters `A` to `Z` counted as
/// their small letters.
pub open spec fn folded(c: char) -> int {
    if 'A' as int <= c as int <= 'Z' as int {
        c as int + 32
    } else {
        c as int
    }
}

/// `a` and `b` are the same but for the case of the letters `a` to `z`.
pub open spec fn same_ignoring_ascii_case(a: Seq<char>, b: Seq<char>) -> bool {
    &&& a.len() == b.len()
    &&& forall|i: int| 0 <= i < a.len() ==> folded(a[i]) == folded(b[i])
}

/// `name` is the name of the header that declares the media type of the body.
pub open spec fn is_content_type(name: Seq<char>) -> bool {
    same_ignoring_ascii_case(name, "content-type"@)
}

/// The value of the first header named `Content-Type`, if there is one.
pub open spec fn declared_content_type(headers: Seq<HeaderView>) -> Option<Seq<char>>
    decreases headers.len(),
{
    if headers.len() == 0 {
        None
    } else if is_content_type(headers[0].name) {
        Some(headers[0].value)
    } else {
        declared_content_type(headers.skip(1))
    }
}

fn fold_char(c: char) -> (n: u32)
    ensures
        n == folded(c),
{
    let n = c as u32;
    if 65 <= n && n <= 90 {
        n + 32
    } else {
        n
    }
}

/// Compares two texts without regard to the case of the letters `a` to `z`,
/// in one pass over both.
pub fn eq_ignore_ascii_case(a: &str, b: &str) -> (same: bool)
    ensures
        same == same_ignoring_ascii_case(a@, b@),
{
    let mut rest_a = a.chars();
    let mut rest_b = b.chars();
    let ghost mut k: int = 0;
    assert(a@.skip(0) =~= a@);
    assert(b@.skip(0) =~= b@);
    loop
        invariant
            0 <= k <= a@.len(),
            k <= b@.len(),
            rest_a.remaining() == a@.skip(k),
            rest_b.remaining() == b@.skip(k),
            forall|j: int| 0 <= j < k ==> folded(a@[j]) == folded(b@[j]),
        decreases a@.len() - k,
    {
        match (rest_a.next(), rest_b.next()) {
            (None, None) => {
                return true;
            },
            (Some(x), Some(y)) => {
                assert(x == a@[k]);
                assert(y == b@[k]);
                if fold_char(x) != fold_char(y) {
                    return false;
                }
                proof {
                    assert(a@.skip(k).drop_first() =~= a@.skip(k + 1));
                    assert(b@.skip(k).drop_first() =~= b@.skip(k + 1));
                    k = k + 1;
                }
            },
            _ => {
                return false;
            },
        }
    }
}

impl HttpResponse {
    /// The media type that the response declares for its body: the value of
    /// its first `Content-Type` header, whatever the case of the name.
    pub fn content_type(&self) -> (value: Option<&str>)
        ensures
            match value {
                Some(v) => declared_content_type(self@.headers) == Some(v@),
                None => declared_content_type(self@.headers) is None,
            },
    {
        let mut i: usize = 0;
        assert(self@.headers.skip(0) =~= self@.headers);
        while i < self.headers.len()
            invariant
                i <= self.headers.len(),
                declared_content_type(self@.headers) == declared_content_type(
                    self@.headers.skip(i as int),
                ),
            decreases self.headers.len() - i,
        {
            let ghost rest = self@.headers.skip(i as int);
            assert(rest[0] == self.headers@[i as int]@);
            assert(rest.skip(1) =~= self@.headers.skip(i as int + 1));
            if eq_ignore_ascii_case(self.headers[i].name.as_str(), "content-type") {
                return Some(self.headers[i].value.as_str());
            }
            i += 1;
        }
        None
    }
}

} // verus!
