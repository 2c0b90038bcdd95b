//! The request lines the server understands, and the response it frames.
//!
//! Reading the request and the page, and writing the response, is left to
//! the caller: this module decides on bytes and text.

use vstd::prelude::*;
use vstd::string::*;

verus! {

/// What a request asks for.
#[derive(Clone, Copy, Debug, PartialEq, Eq, Structural)]
pub enum Route {
    /// The main page.
    Home,
    /// The main page, served after a pause that stands for slow work.
    Sleep,
    /// Anything else.
    NotFound,
}

/// The bytes a request for the main page begins with.
pub open spec fn home_request() -> Seq<u8> {
    "GET / HTTP/1.1\r\n".spec_bytes()
}

/// The bytes a request for the slow page begins with.
pub open spec fn sleep_request() -> Seq<u8> {
    "GET /sleep HTTP/1.1\r\n".spec_bytes()
}

/// The route of a request, decided by how its bytes begin.
pub open spec fn route_of(request: Seq<u8>) -> Route {
    if home_request().is_prefix_of(request) {
        Route::Home
    } else if sleep_request().is_prefix_of(request) {
        Route::Sleep
    } else {
        Route::NotFound
    }
}

/// The decimal digit `d` as a character.
pub open spec fn digit(d: nat) -> char
    recommends
        d < 10,
{
    "0123456789"@[d as int]
}

/// The decimal numeral of `n`, without leading zeros.
pub open spec fn decimal(n: nat) -> Seq<char>
    decreases n,
{
    if n < 10 {
        seq![digit(n)]
    } else {
        decimal(n / 10).push(digit(n % 10))
    }
}

/// The text of a response: the status line, a header giving the length of
/// the content in bytes, an empty line, and the content.
pub open spec fn response_text(status_line: Seq<char>, length: nat, content: Seq<char>) -> Seq<
    char,
> {
    status_line + "\r\nContent-Length: "@ + decimal(length) + "\r\n\r\n"@ + content
}

/// Whether `bytes` begins with `prefix`.
pub fn starts_with(bytes: &[u8], prefix: &[u8]) -> (result: bool)
    ensures
        result == prefix@.is_prefix_of(bytes@),
{
    if prefix.len() > bytes.len() {
        return false;
    }
    let mut i: usize = 0;
    while i < prefix.len()
        invariant
            i <= prefix.len() <= bytes.len(),
            forall|k: int| 0 <= k < i ==> prefix@[k] == bytes@[k],
        decreases prefix.len() - i,
    {
        if prefix[i] != bytes[i] {
            return false;
        }
        i += 1;
    }
    true
}

/// Decides what a request asks for.
pub fn route(request: &[u8]) -> (result: Route)
    ensures
        result == route_of(request@),
{
    if starts_with(request, "GET / HTTP/1.1\r\n".as_bytes()) {
        Route::Home
    } else if starts_with(request, "GET /sleep HTTP/1.1\r\n".as_bytes()) {
        Route::Sleep
    } else {
        Route::NotFound
    }
}

impl Route {
    /// The status line that answers this route.
    pub fn status_line(self) -> (line: &'static str)
        ensures
            self is NotFound ==> line@ == "HTTP/1.1 404 NOT FOUND"@,
            !(self is NotFound) ==> line@ == "HTTP/1.1 200 OK"@,
    {
        match self {
            Route::Home | Route::Sleep => "HTTP/1.1 200 OK",
            Route::NotFound => "HTTP/1.1 404 NOT FOUND",
        }
    }

    /// The page that answers this route.
    pub fn page(self) -> (path: &'static str)
        ensures
            self is NotFound ==> path@ == "pages/404.html"@,
            !(self is NotFound) ==> path@ == "pages/main.html"@,
    {
        match self {
            Route::Home | Route::Sleep => "pages/main.html",
            Route::NotFound => "pages/404.html",
        }
    }

    /// Seconds to pause before answering this route.
    pub fn delay_seconds(self) -> (seconds: u64)
        ensures
            seconds == (if self is Sleep {
                5u64
            } else {
                0u64
            }),
    {
        match self {
            Route::Sleep => 5,
            _ => 0,
        }
    }
}

/// The text of the decimal digit `d`.
fn digit_text(d: usize) -> (text: &'static str)
    requires
        d < 10,
    ensures
        text@ == seq![digit(d as nat)],
{
    let digits = "0123456789";
    proof {
        reveal_strlit("0123456789");
    }
    let text = digits.substring_ascii(d, d + 1);
    assert(text@ =~= seq![digit(d as nat)]);
    text
}

/// Appends the decimal numeral of `n` to `out`.
pub fn push_decimal(out: &mut String, n: usize)
    ensures
        final(out)@ == old(out)@ + decimal(n as nat),
    decreases n,
{
    if n >= 10 {
        push_decimal(out, n / 10);
    }
    out.append(digit_text(n % 10));
}

/// Frames a response: the status line, the length of the content in bytes,
/// an empty line, and the content.
pub fn response(status_line: &str, content: &str) -> (text: String)
    ensures
        text@ == response_text(status_line@, content.spec_bytes().len(), content@),
{
    let length: usize = content.as_bytes().len();
    let mut text = String::from_str(status_line);
    text.append("\r\nContent-Length: ");
    push_decimal(&mut text, length);
    text.append("\r\n\r\n");
    text.append(content);
    text
}

} // verus!
