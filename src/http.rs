use vstd::prelude::*;
use vstd::string::StringSliceAdditionalSpecFns;

verus! {

broadcast use vstd::utf8::encode_utf8_decode_utf8;

/// The one request line that is served the index page.
pub open spec fn index_request() -> Seq<char> {
    "GET / HTTP/1.1"@
}

/// Which page a request is answered with.
#[derive(PartialEq, Eq, Structural, Clone, Copy, Debug)]
pub enum Route {
    Index,
    NotFound,
}

/// The route for a request whose head (its lines before the first empty
/// one) is `head`: the index page exactly when the first line is the index
/// request line, the not-found page otherwise, an empty head included.
pub open spec fn route_of(head: Seq<Seq<char>>) -> Route {
    if head.len() > 0 && head[0] == index_request() {
        Route::Index
    } else {
        Route::NotFound
    }
}

/// The ASCII digits of `n` in base ten, most significant first.
pub open spec fn decimal(n: nat) -> Seq<u8>
    decreases n,
{
    if n < 10 {
        seq![(48 + n) as u8]
    } else {
        decimal(n / 10).push((48 + n % 10) as u8)
    }
}

pub open spec fn status_line(route: Route) -> Seq<u8> {
    match route {
        Route::Index => "HTTP/1.1 200 OK\r\n".spec_bytes(),
        Route::NotFound => "HTTP/1.1 404 NOT FOUND\r\n".spec_bytes(),
    }
}

/// The full response for `route` with page contents `body`: the status line,
/// a Content-Length header giving the body's length in bytes, an empty line,
/// then the body.
pub open spec fn response_of(route: Route, body: Seq<u8>) -> Seq<u8> {
    status_line(route) + "Content-Length: ".spec_bytes() + decimal(body.len()) + "\r\n\r\n".spec_bytes()
        + body
}

fn same_bytes(a: &[u8], b: &[u8]) -> (r: bool)
    ensures
        r == (a@ == b@),
{
    if a.len() != b.len() {
        return false;
    }
    let mut i: usize = 0;
    while i < a.len()
        invariant
            a@.len() == b@.len(),
            i <= a@.len(),
            forall|j: int| 0 <= j < i ==> a@[j] == b@[j],
        decreases a@.len() - i,
    {
        if a[i] != b[i] {
            return false;
        }
        i = i + 1;
    }
    assert(a@ =~= b@);
    true
}

/// Whether `line` is the index request line.
pub fn is_index_request(line: &str) -> (r: bool)
    ensures
        r == (line@ == index_request()),
{
    let lit = "GET / HTTP/1.1";
    proof {
        if line.spec_bytes() == lit.spec_bytes() {
            assert(vstd::utf8::decode_utf8(vstd::utf8::encode_utf8(line@)) == line@);
            assert(vstd::utf8::decode_utf8(vstd::utf8::encode_utf8(lit@)) == lit@);
        }
    }
    same_bytes(line.as_bytes(), lit.as_bytes())
}

/// Chooses the page for a request from its head, the lines before the first
/// empty one.
pub fn route(head: &Vec<String>) -> (r: Route)
    ensures
        r == route_of(head@.map_values(|l: String| l@)),
{
    if head.len() == 0 {
        Route::NotFound
    } else if is_index_request(head[0].as_str()) {
        Route::Index
    } else {
        Route::NotFound
    }
}

impl Route {
    /// The file that holds the page's contents.
    pub fn page_file(&self) -> (r: &'static str)
        ensures
            *self == Route::Index ==> r@ == "index.html"@,
            *self == Route::NotFound ==> r@ == "404.html"@,
    {
        match self {
            Route::Index => "index.html",
            Route::NotFound => "404.html",
        }
    }
}

fn append_bytes(out: &mut Vec<u8>, b: &[u8])
    ensures
        final(out)@ == old(out)@ + b@,
{
    let mut i: usize = 0;
    while i < b.len()
        invariant
            i <= b@.len(),
            out@ == old(out)@ + b@.subrange(0, i as int),
        decreases b@.len() - i,
    {
        out.push(b[i]);
        i = i + 1;
        assert(out@ =~= old(out)@ + b@.subrange(0, i as int));
    }
    assert(b@.subrange(0, b@.len() as int) =~= b@);
}

/// The decimal digits of `n`.
pub fn decimal_digits(n: usize) -> (r: Vec<u8>)
    ensures
        r@ == decimal(n as nat),
    decreases n,
{
    if n < 10 {
        let d: u8 = 48 + n as u8;
        vec![d]
    } else {
        let mut v = decimal_digits(n / 10);
        let d: u8 = 48 + (n % 10) as u8;
        v.push(d);
        v
    }
}

/// The bytes to send for `route` when its page holds `body`.
pub fn response(route: Route, body: &[u8]) -> (r: Vec<u8>)
    ensures
        r@ == response_of(route, body@),
{
    let mut out: Vec<u8> = Vec::new();
    let status = match route {
        Route::Index => "HTTP/1.1 200 OK\r\n",
        Route::NotFound => "HTTP/1.1 404 NOT FOUND\r\n",
    };
    append_bytes(&mut out, status.as_bytes());
    append_bytes(&mut out, "Content-Length: ".as_bytes());
    let digits = decimal_digits(body.len());
    append_bytes(&mut out, digits.as_slice());
    append_bytes(&mut out, "\r\n\r\n".as_bytes());
    append_bytes(&mut out, body);
    out
}

} // verus!
