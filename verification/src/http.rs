//! Request routing and response framing: which of the four routes a request
//! line names, which static page each route serves, and the one response
//! shape the server writes — status line, `Content-Length` header, blank
//! line, body.

use vstd::prelude::*;

use crate::text::spec_dec_digits;
use crate::text::str_starts_with;
use crate::text::strs_view;
use crate::text::u64_to_decimal;

verus! {

use vstd::string::*;

/// The four request routes, told apart by the opening of the request line.
#[derive(Clone, Copy, Debug, PartialEq, Eq, Structural)]
pub enum Route {
    ConfigPage,
    UpdateConfig,
    Home,
    NotFound,
}

/// Which route a request line names, checking the more specific patterns
/// first.
pub open spec fn spec_route(line: Seq<char>) -> Route {
    if "GET /config "@.is_prefix_of(line) {
        Route::ConfigPage
    } else if "POST /update_config "@.is_prefix_of(line) {
        Route::UpdateConfig
    } else if "GET / "@.is_prefix_of(line) || "GET /home "@.is_prefix_of(line) {
        Route::Home
    } else {
        Route::NotFound
    }
}

/// Routes a request line, as [`spec_route`] says.
pub fn classify_request(line: &str) -> (r: Route)
    ensures
        r == spec_route(line@),
{
    if str_starts_with(line, "GET /config ") {
        Route::ConfigPage
    } else if str_starts_with(line, "POST /update_config ") {
        Route::UpdateConfig
    } else if str_starts_with(line, "GET / ") {
        Route::Home
    } else if str_starts_with(line, "GET /home ") {
        Route::Home
    } else {
        Route::NotFound
    }
}

/// The status and page file of each route that serves a fixed page. The
/// update route has none: its page hangs on the update's outcome.
pub open spec fn spec_static_page(r: Route) -> Option<(bool, Seq<char>)> {
    match r {
        Route::ConfigPage => Some((true, "config.html"@)),
        Route::UpdateConfig => None,
        Route::Home => Some((true, "home.html"@)),
        Route::NotFound => Some((false, "404.html"@)),
    }
}

/// The status and page file of a route, as [`spec_static_page`] says.
pub fn static_page(r: &Route) -> (p: Option<(bool, String)>)
    ensures
        match p {
            Some(q) => spec_static_page(*r) == Some((q.0, q.1@)),
            None => spec_static_page(*r) is None,
        },
{
    match r {
        Route::ConfigPage => Some((true, "config.html".to_owned())),
        Route::UpdateConfig => None,
        Route::Home => Some((true, "home.html".to_owned())),
        Route::NotFound => Some((false, "404.html".to_owned())),
    }
}

/// The status line of a response.
pub open spec fn spec_status_line(ok: bool) -> Seq<char> {
    if ok {
        "HTTP/1.1 200 OK"@
    } else {
        "HTTP/1.1 404 NOT FOUND"@
    }
}

/// The whole response for a body of `nbytes` bytes: status line, a
/// `Content-Length` header whose value is `nbytes` in decimal, a blank
/// line, and the body.
pub open spec fn spec_response(ok: bool, body: Seq<char>, nbytes: nat) -> Seq<char> {
    spec_status_line(ok) + "\r\nContent-Length: "@ + spec_dec_digits(nbytes) + "\r\n\r\n"@ + body
}

/// Frames a response around the given body. The `Content-Length` value is
/// the exact byte length of the body that follows the blank line.
pub fn build_response(ok: bool, body: &str) -> (r: String)
    requires
        body.spec_bytes().len() <= usize::MAX,
    ensures
        r@ == spec_response(ok, body@, body.spec_bytes().len()),
{
    let mut r = String::new();
    if ok {
        r.append("HTTP/1.1 200 OK");
    } else {
        r.append("HTTP/1.1 404 NOT FOUND");
    }
    r.append("\r\nContent-Length: ");
    let digits = u64_to_decimal(body.len() as u64);
    r.append(digits.as_str());
    r.append("\r\n\r\n");
    r.append(body);
    proof {
        assert(r@ =~= spec_response(ok, body@, body.spec_bytes().len()));
    }
    r
}

/// The path of a page file inside the static directory.
pub fn file_path(dir: &str, name: &str) -> (r: String)
    ensures
        r@ == dir@ + "/"@ + name@,
{
    let mut r = String::new();
    r.append(dir);
    r.append("/");
    r.append(name);
    r
}

/// The header block of a request tail: the lines before the first empty
/// line, each ended by a newline.
pub open spec fn spec_headers_text(lines: Seq<Seq<char>>) -> Seq<char>
    decreases lines.len(),
{
    if lines.len() == 0 {
        Seq::empty()
    } else if lines[0].len() == 0 {
        Seq::empty()
    } else {
        lines[0] + seq!['\n'] + spec_headers_text(lines.skip(1))
    }
}

/// All the lines run together, with nothing between them.
pub open spec fn spec_concat_lines(lines: Seq<Seq<char>>) -> Seq<char>
    decreases lines.len(),
{
    if lines.len() == 0 {
        Seq::empty()
    } else {
        lines[0] + spec_concat_lines(lines.skip(1))
    }
}

/// The body of a request tail: the lines after the first empty line, run
/// together without separators.
pub open spec fn spec_body_text(lines: Seq<Seq<char>>) -> Seq<char>
    decreases lines.len(),
{
    if lines.len() == 0 {
        Seq::empty()
    } else if lines[0].len() == 0 {
        spec_concat_lines(lines.skip(1))
    } else {
        spec_body_text(lines.skip(1))
    }
}

/// Splits the lines after the request line into the header block and the
/// body, as [`spec_headers_text`] and [`spec_body_text`] say.
pub fn split_headers_body(lines: &Vec<String>) -> (r: (String, String))
    ensures
        r.0@ == spec_headers_text(strs_view(lines@)),
        r.1@ == spec_body_text(strs_view(lines@)),
{
    proof {
        reveal_strlit("\n");
    }
    let ghost ls = strs_view(lines@);
    let mut headers = String::new();
    let mut body = String::new();
    let mut in_body = false;
    let mut i: usize = 0;
    proof {
        assert(ls.skip(0) =~= ls);
    }
    while i < lines.len()
        invariant
            i <= lines@.len(),
            ls == strs_view(lines@),
            !in_body ==> {
                &&& spec_headers_text(ls) == headers@ + spec_headers_text(ls.skip(i as int))
                &&& spec_body_text(ls) == spec_body_text(ls.skip(i as int))
                &&& body@.len() == 0
            },
            in_body ==> {
                &&& spec_headers_text(ls) == headers@
                &&& spec_body_text(ls) == body@ + spec_concat_lines(ls.skip(i as int))
            },
        decreases lines@.len() - i,
    {
        proof {
            reveal_strlit("\n");
        }
        let line = &lines[i];
        let ghost lv = ls[i as int];
        proof {
            assert(lv == line@);
            assert(ls.skip(i as int)[0] == lv);
            assert(ls.skip(i as int).skip(1) =~= ls.skip(i + 1));
        }
        if line.unicode_len() == 0 {
            proof {
                if in_body {
                    assert(lv + spec_concat_lines(ls.skip(i + 1)) =~= spec_concat_lines(
                        ls.skip(i + 1),
                    ));
                } else {
                    assert(spec_headers_text(ls.skip(i as int)) =~= Seq::<char>::empty());
                    assert(headers@ + Seq::<char>::empty() =~= headers@);
                    assert(body@ + spec_concat_lines(ls.skip(i + 1)) =~= spec_concat_lines(
                        ls.skip(i + 1),
                    ));
                }
            }
            in_body = true;
        } else if in_body {
            body.append(line.as_str());
        } else {
            headers.append(line.as_str());
            headers.append("\n");
            proof {
                assert("\n"@ =~= seq!['\n']);
            }
        }
        i += 1;
    }
    proof {
        assert(ls.skip(lines@.len() as int) =~= Seq::<Seq<char>>::empty());
        if !in_body {
            assert(headers@ + Seq::<char>::empty() =~= headers@);
        } else {
            assert(body@ + Seq::<char>::empty() =~= body@);
        }
    }
    (headers, body)
}

/// Every request whose first line opens with `GET / ` or `GET /home ` is
/// routed to the home page with the 200 status line, and its response is
/// that status line, the `Content-Length` header for the page, a blank
/// line, and the page itself.
pub proof fn lemma_home_request(line: Seq<char>, page: Seq<char>, nbytes: nat)
    requires
        "GET / "@.is_prefix_of(line) || "GET /home "@.is_prefix_of(line),
    ensures
        spec_route(line) == Route::Home,
        spec_static_page(spec_route(line)) == Some((true, "home.html"@)),
        spec_response(true, page, nbytes) == "HTTP/1.1 200 OK"@ + "\r\nContent-Length: "@
            + spec_dec_digits(nbytes) + "\r\n\r\n"@ + page,
{
    reveal_strlit("GET / ");
    reveal_strlit("GET /home ");
    reveal_strlit("GET /config ");
    reveal_strlit("POST /update_config ");
    if "GET /config "@.is_prefix_of(line) {
        assert(line.subrange(0, 12)[5] == line[5]);
        if "GET / "@.is_prefix_of(line) {
            assert(line.subrange(0, 6)[5] == line[5]);
        }
        if "GET /home "@.is_prefix_of(line) {
            assert(line.subrange(0, 10)[5] == line[5]);
        }
        assert(false);
    }
    if "POST /update_config "@.is_prefix_of(line) {
        assert(line.subrange(0, 20)[0] == line[0]);
        if "GET / "@.is_prefix_of(line) {
            assert(line.subrange(0, 6)[0] == line[0]);
        }
        if "GET /home "@.is_prefix_of(line) {
            assert(line.subrange(0, 10)[0] == line[0]);
        }
        assert(false);
    }
}

/// Every request whose first line matches none of the four patterns is
/// routed to the missing page with the 404 status line, and its response is
/// that status line, the `Content-Length` header for the page, a blank
/// line, and the page itself.
pub proof fn lemma_unmatched_request(line: Seq<char>, page: Seq<char>, nbytes: nat)
    requires
        !"GET /config "@.is_prefix_of(line),
        !"POST /update_config "@.is_prefix_of(line),
        !"GET / "@.is_prefix_of(line),
        !"GET /home "@.is_prefix_of(line),
    ensures
        spec_route(line) == Route::NotFound,
        spec_static_page(spec_route(line)) == Some((false, "404.html"@)),
        spec_response(false, page, nbytes) == "HTTP/1.1 404 NOT FOUND"@ + "\r\nContent-Length: "@
            + spec_dec_digits(nbytes) + "\r\n\r\n"@ + page,
{
}

} // verus!
