//! The pure part of a serving front end: the routing decision for each
//! request line, and the assembly of the response.
//!
//! The front end itself — accepting connections, reading the request line,
//! loading the file, writing the response — is plain I/O and lives with the
//! host program; the choice of status line, file and content type for a
//! given request line, and the exact text of the response, are pure and are
//! made here, under exact contracts.

use vstd::prelude::*;
use vstd::string::StringExecFns;

verus! {

/// The decimal digit `d` as a character.
pub open spec fn digit_char(d: int) -> char {
    if d == 0 {
        '0'
    } else if d == 1 {
        '1'
    } else if d == 2 {
        '2'
    } else if d == 3 {
        '3'
    } else if d == 4 {
        '4'
    } else if d == 5 {
        '5'
    } else if d == 6 {
        '6'
    } else if d == 7 {
        '7'
    } else if d == 8 {
        '8'
    } else {
        '9'
    }
}

/// The decimal rendering of `n`: most significant digit first, no leading
/// zeros, a single `'0'` for zero.
pub open spec fn decimal_chars(n: int) -> Seq<char>
    decreases n,
{
    if n < 10 {
        seq![digit_char(n)]
    } else {
        decimal_chars(n / 10).push(digit_char(n % 10))
    }
}

/// The decimal digit `d` as a one-character string slice.
fn digit_str(d: u64) -> (s: &'static str)
    requires
        d < 10,
    ensures
        s@ == seq![digit_char(d as int)],
{
    proof {
        reveal_strlit("0");
        reveal_strlit("1");
        reveal_strlit("2");
        reveal_strlit("3");
        reveal_strlit("4");
        reveal_strlit("5");
        reveal_strlit("6");
        reveal_strlit("7");
        reveal_strlit("8");
        reveal_strlit("9");
        assert("0"@ =~= seq![digit_char(0)]);
        assert("1"@ =~= seq![digit_char(1)]);
        assert("2"@ =~= seq![digit_char(2)]);
        assert("3"@ =~= seq![digit_char(3)]);
        assert("4"@ =~= seq![digit_char(4)]);
        assert("5"@ =~= seq![digit_char(5)]);
        assert("6"@ =~= seq![digit_char(6)]);
        assert("7"@ =~= seq![digit_char(7)]);
        assert("8"@ =~= seq![digit_char(8)]);
        assert("9"@ =~= seq![digit_char(9)]);
    }
    if d == 0 {
        "0"
    } else if d == 1 {
        "1"
    } else if d == 2 {
        "2"
    } else if d == 3 {
        "3"
    } else if d == 4 {
        "4"
    } else if d == 5 {
        "5"
    } else if d == 6 {
        "6"
    } else if d == 7 {
        "7"
    } else if d == 8 {
        "8"
    } else {
        "9"
    }
}

/// Render `n` in decimal, matching [`decimal_chars`] exactly.
pub fn u64_to_decimal(n: u64) -> (s: String)
    ensures
        s@ == decimal_chars(n as int),
    decreases n,
{
    if n < 10 {
        String::from_str(digit_str(n))
    } else {
        let mut s = u64_to_decimal(n / 10);
        s.append(digit_str(n % 10));
        proof {
            assert(decimal_chars((n / 10) as int) + seq![digit_char((n % 10) as int)]
                =~= decimal_chars((n / 10) as int).push(digit_char((n % 10) as int)));
        }
        s
    }
}

/// The serialized response for a body of `length` bytes: the status line,
/// the content-type and content-length headers, a blank line, then the
/// body.
pub open spec fn response_chars(
    status: Seq<char>,
    ctype: Seq<char>,
    length: int,
    body: Seq<char>,
) -> Seq<char> {
    status + "\r\nContent-Type: "@ + ctype + "\r\nContent-Length: "@ + decimal_chars(length)
        + "\r\n\r\n"@ + body
}

/// Assemble the response to write back on the connection.  The caller
/// supplies `content_length`, the size in bytes of the body it read, since
/// that is what the header advertises.
pub fn build_response(
    status_line: &String,
    content_type: &String,
    content_length: u64,
    body: &String,
) -> (r: String)
    ensures
        r@ == response_chars(status_line@, content_type@, content_length as int, body@),
{
    let mut r = String::new();
    r.append(status_line.as_str());
    r.append("\r\nContent-Type: ");
    r.append(content_type.as_str());
    r.append("\r\nContent-Length: ");
    let length = u64_to_decimal(content_length);
    r.append(length.as_str());
    r.append("\r\n\r\n");
    r.append(body.as_str());
    r
}

/// What to serve for one request line: the status line of the response, the
/// name of the file whose contents form the body, the content type, and how
/// many seconds to pause before serving (the slow endpoint simulates a
/// long-running job handed to the pool).
pub struct RouteDecision {
    pub status_line: String,
    pub filename: String,
    pub content_type: String,
    pub delay_secs: u64,
}

/// Decide what to serve for `request_line`.
///
/// The root and the slow endpoint serve the greeting page, the style sheet
/// is served as CSS, and any other request line gets the not-found page.
pub fn route(request_line: &String) -> (d: RouteDecision)
    ensures
        (request_line@ == "GET / HTTP/1.1"@ || request_line@ == "GET /sleep HTTP/1.1"@) ==> (
        d.status_line@ == "HTTP/1.1 200 OK"@ && d.filename@ == "hello.html"@
            && d.content_type@ == "text/html"@),
        request_line@ == "GET /style.css HTTP/1.1"@ ==> (d.status_line@ == "HTTP/1.1 200 OK"@
            && d.filename@ == "style.css"@ && d.content_type@ == "text/css"@),
        (request_line@ != "GET / HTTP/1.1"@ && request_line@ != "GET /style.css HTTP/1.1"@
            && request_line@ != "GET /sleep HTTP/1.1"@) ==> (d.status_line@
            == "HTTP/1.1 404 NOT FOUND"@ && d.filename@ == "404.html"@ && d.content_type@
            == "text/html"@),
        d.delay_secs == (if request_line@ == "GET /sleep HTTP/1.1"@ {
            5u64
        } else {
            0u64
        }),
{
    let get_root = String::from_str("GET / HTTP/1.1");
    let get_style = String::from_str("GET /style.css HTTP/1.1");
    let get_slow = String::from_str("GET /sleep HTTP/1.1");
    proof {
        reveal_strlit("GET / HTTP/1.1");
        reveal_strlit("GET /style.css HTTP/1.1");
        reveal_strlit("GET /sleep HTTP/1.1");
        // The three request lines differ already in length, so matching one
        // of them rules the others out.
        assert("GET / HTTP/1.1"@.len() == 14);
        assert("GET /style.css HTTP/1.1"@.len() == 23);
        assert("GET /sleep HTTP/1.1"@.len() == 19);
    }
    if *request_line == get_root {
        RouteDecision {
            status_line: String::from_str("HTTP/1.1 200 OK"),
            filename: String::from_str("hello.html"),
            content_type: String::from_str("text/html"),
            delay_secs: 0,
        }
    } else if *request_line == get_style {
        RouteDecision {
            status_line: String::from_str("HTTP/1.1 200 OK"),
            filename: String::from_str("style.css"),
            content_type: String::from_str("text/css"),
            delay_secs: 0,
        }
    } else if *request_line == get_slow {
        RouteDecision {
            status_line: String::from_str("HTTP/1.1 200 OK"),
            filename: String::from_str("hello.html"),
            content_type: String::from_str("text/html"),
            delay_secs: 5,
        }
    } else {
        RouteDecision {
            status_line: String::from_str("HTTP/1.1 404 NOT FOUND"),
            filename: String::from_str("404.html"),
            content_type: String::from_str("text/html"),
            delay_secs: 0,
        }
    }
}

} // verus!
