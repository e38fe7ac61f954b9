use vstd::prelude::*;
use vstd::string::{StrSliceExecFns, StringSliceAdditionalSpecFns};

verus! {

/// How long a request for the slow route holds its worker, in seconds.
pub const SLOW_ROUTE_SECS: u64 = 5;

/// What a request line asks for.
#[derive(PartialEq, Eq, Structural, Clone, Copy, Debug)]
pub enum Route {
    /// The home page.
    Home,
    /// The home page, served only after a pause of `SLOW_ROUTE_SECS`.
    Slow,
    /// Anything else.
    NotFound,
}

/// The route of a request line: only exact matches of the two known lines
/// are served; everything else, the empty line included, is not found.
pub open spec fn route_of(line: Seq<char>) -> Route {
    if line == "GET / HTTP/1.1"@ {
        Route::Home
    } else if line == "GET /sleep HTTP/1.1"@ {
        Route::Slow
    } else {
        Route::NotFound
    }
}

pub open spec fn status_text(r: Route) -> &'static str {
    match r {
        Route::NotFound => "HTTP/1.1 404 NOT FOUND",
        _ => "HTTP/1.1 200 OK",
    }
}

pub open spec fn payload_text(r: Route) -> &'static str {
    match r {
        Route::NotFound => "404.html",
        _ => "index.html",
    }
}

/// The body sent when a route's payload could not be loaded.
pub open spec fn fallback_text() -> &'static str {
    "Internal Server Error"
}

/// The decimal digits of `n` in ASCII, most significant first, no leading zero.
pub open spec fn decimal(n: nat) -> Seq<u8>
    decreases n,
{
    if n < 10 {
        seq![(48 + n) as u8]
    } else {
        decimal(n / 10).push((48 + n % 10) as u8)
    }
}

/// A response: the status line, a length header giving the body's length in
/// bytes, a blank line, then the body; each line ends with CRLF.
pub open spec fn response_bytes(status: Seq<u8>, body: Seq<u8>) -> Seq<u8> {
    status + "\r\nContent-Length: ".spec_bytes() + decimal(body.len()) + "\r\n\r\n".spec_bytes()
        + body
}

/// Whether two strings hold the same characters.
fn same_text(a: &str, b: &str) -> (r: bool)
    ensures
        r == (a@ == b@),
{
    let n = a.unicode_len();
    if n != b.unicode_len() {
        return false;
    }
    let mut i: usize = 0;
    while i < n
        invariant
            n == a@.len() == b@.len(),
            i <= n,
            a@.subrange(0, i as int) == b@.subrange(0, i as int),
        decreases n - i,
    {
        if a.get_char(i) != b.get_char(i) {
            assert(a@[i as int] != b@[i as int]);
            return false;
        }
        assert(a@.subrange(0, i + 1) == a@.subrange(0, i as int).push(a@[i as int]));
        assert(b@.subrange(0, i + 1) == b@.subrange(0, i as int).push(b@[i as int]));
        i = i + 1;
    }
    assert(a@ == a@.subrange(0, n as int));
    assert(b@ == b@.subrange(0, n as int));
    true
}

impl Route {
    /// The route that a request line asks for.
    pub fn from_request_line(line: &str) -> (r: Route)
        ensures
            r == route_of(line@),
    {
        if same_text(line, "GET / HTTP/1.1") {
            Route::Home
        } else if same_text(line, "GET /sleep HTTP/1.1") {
            Route::Slow
        } else {
            Route::NotFound
        }
    }

    /// The status line that answers this route.
    pub fn status_line(&self) -> (r: &'static str)
        ensures
            r == status_text(*self),
    {
        match self {
            Route::NotFound => "HTTP/1.1 404 NOT FOUND",
            _ => "HTTP/1.1 200 OK",
        }
    }

    /// The name of the stored payload that this route serves.
    pub fn payload_name(&self) -> (r: &'static str)
        ensures
            r == payload_text(*self),
    {
        match self {
            Route::NotFound => "404.html",
            _ => "index.html",
        }
    }

    /// How long to pause before answering, in seconds.
    pub fn delay_secs(&self) -> (r: u64)
        ensures
            r == (if *self == Route::Slow {
                SLOW_ROUTE_SECS
            } else {
                0
            }),
    {
        match self {
            Route::Slow => SLOW_ROUTE_SECS,
            _ => 0,
        }
    }
}

fn append_bytes(out: &mut Vec<u8>, more: &[u8])
    ensures
        final(out)@ == old(out)@ + more@,
{
    let mut i: usize = 0;
    while i < more.len()
        invariant
            i <= more@.len(),
            out@ == old(out)@ + more@.subrange(0, i as int),
        decreases more@.len() - i,
    {
        out.push(more[i]);
        assert(more@.subrange(0, i + 1) == more@.subrange(0, i as int).push(more@[i as int]));
        i = i + 1;
    }
    assert(more@.subrange(0, more@.len() as int) == more@);
}

fn push_decimal(out: &mut Vec<u8>, n: usize)
    ensures
        final(out)@ == old(out)@ + decimal(n as nat),
    decreases n,
{
    if n >= 10 {
        push_decimal(out, n / 10);
    }
    let d: u8 = (n % 10) as u8;
    out.push(48 + d);
    assert(n < 10 ==> n % 10 == n);
}

/// Frames `body` as a response under `status_line`.
pub fn frame_response(status_line: &str, body: &[u8]) -> (r: Vec<u8>)
    ensures
        r@ == response_bytes(status_line.spec_bytes(), body@),
{
    let mut out: Vec<u8> = Vec::new();
    append_bytes(&mut out, status_line.as_bytes());
    append_bytes(&mut out, "\r\nContent-Length: ".as_bytes());
    push_decimal(&mut out, body.len());
    append_bytes(&mut out, "\r\n\r\n".as_bytes());
    append_bytes(&mut out, body);
    assert(out@ == response_bytes(status_line.spec_bytes(), body@));
    out
}

/// The response to a request for `route`: its status line over its payload,
/// or over the fallback body where the payload could not be loaded.
pub fn respond(route: Route, payload: Option<&str>) -> (r: Vec<u8>)
    ensures
        r@ == response_bytes(
            status_text(route).spec_bytes(),
            match payload {
                Some(p) => p.spec_bytes(),
                None => fallback_text().spec_bytes(),
            },
        ),
{
    let body: &str = match payload {
        Some(p) => p,
        None => "Internal Server Error",
    };
    frame_response(route.status_line(), body.as_bytes())
}

} // verus!
