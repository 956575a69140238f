//! Turning wire bytes into a request and a response back into wire bytes.

use vstd::prelude::*;
use vstd::string::*;
use vstd::utf8::encode_utf8;
use crate::decimal::{spec_dec, usize_to_string};
use crate::http11;
use crate::http11::{spec_parse_headers, spec_pairs_view, spec_request_line};
use crate::server_error::{ServerError, StdServerError};
use crate::strmap::{spec_lookup, spec_store};
use crate::traits::{Error, Request, Response};
use crate::types::{spec_method_from, HttpMethod};

verus! {

/// The headers map after writing every pair of `pairs`, in order, onto
/// `init`.
pub open spec fn spec_store_all(
    init: Seq<(Seq<char>, Seq<char>)>,
    pairs: Seq<(Seq<char>, Seq<char>)>,
) -> Seq<(Seq<char>, Seq<char>)>
    decreases pairs.len(),
{
    if pairs.len() == 0 {
        init
    } else {
        spec_store_all(spec_store(init, pairs[0].0, pairs[0].1), pairs.drop_first())
    }
}

/// What `parse_into_request` builds: the parsed request line and method,
/// the collected headers written in order, and nothing else.
pub open spec fn spec_parsed_request<T: Request>(req: T, raw: Seq<char>) -> bool {
    match spec_request_line(raw) {
        Some(rl) => match spec_method_from(rl.0) {
            Some(m) => {
                &&& req.method_view() == m
                &&& req.path_view() == rl.1
                &&& req.headers_view() == spec_store_all(
                    Seq::<(Seq<char>, Seq<char>)>::empty(),
                    spec_parse_headers(raw),
                )
                &&& req.path_params_view() == Seq::<(Seq<char>, Seq<char>)>::empty()
                &&& req.query_params_view() == Seq::<(Seq<char>, Seq<char>)>::empty()
                &&& req.body_view() == Seq::<char>::empty()
            },
            None => false,
        },
        None => false,
    }
}

/// Whether the buffer parses into a request at all: the request line must
/// be present and carry a recognized method.
pub open spec fn spec_request_parses(raw: Seq<char>) -> bool {
    match spec_request_line(raw) {
        Some(rl) => match spec_method_from(rl.0) {
            Some(_) => true,
            None => false,
        },
        None => false,
    }
}

/// Decode raw connection bytes into the character buffer the parser works
/// on: one character per byte, its code point equal to the byte's value.
pub fn decode_bytes(bytes: &[u8]) -> (s: String)
    ensures
        s@.len() == bytes@.len(),
        forall|i: int| 0 <= i < bytes@.len() ==> (#[trigger] s@[i]) as u32 == bytes@[i] as u32,
{
    let n = bytes.len();
    let mut s = String::new();
    let mut i: usize = 0;
    while i < n
        invariant
            n == bytes@.len(),
            0 <= i <= n,
            s@.len() == i,
            forall|m: int| 0 <= m < i ==> (#[trigger] s@[m]) as u32 == bytes@[m] as u32,
        decreases n - i,
    {
        s.push(bytes[i] as char);
        i = i + 1;
    }
    s
}

/// The method a parsing buffer carries (`Unset` when it does not parse).
pub open spec fn spec_parsed_method(raw: Seq<char>) -> HttpMethod {
    match spec_request_line(raw) {
        Some(rl) => match spec_method_from(rl.0) {
            Some(m) => m,
            None => HttpMethod::Unset,
        },
        None => HttpMethod::Unset,
    }
}

/// The target path a parsing buffer carries (empty when it does not
/// parse).
pub open spec fn spec_parsed_path(raw: Seq<char>) -> Seq<char> {
    match spec_request_line(raw) {
        Some(rl) => rl.1,
        None => Seq::empty(),
    }
}

/// Parse the incoming request bytes into a struct that implements
/// `Request`. Succeeds exactly when the buffer starts with a well-formed
/// request line naming a recognized method; any failure is a bad request.
pub fn parse_into_request<T: Request>(raw: String) -> (r: Result<T, ServerError>)
    ensures
        match r {
            Ok(req) => spec_request_parses(raw@) && spec_parsed_request(req, raw@),
            Err(e) => {
                &&& !spec_request_parses(raw@)
                &&& e.status_view() == 400
                &&& e.detail_view() == "Bad Request"@
            },
        },
{
    let mut request = T::new();
    let rl = match http11::parse_request_line(raw.as_str()) {
        Some(val) => val,
        None => {
            return Err(StdServerError::BadRequest.to_error());
        },
    };
    match HttpMethod::from_str(rl.0.as_str()) {
        Ok(val) => {
            request.set_method(val);
        },
        Err(_) => {
            return Err(StdServerError::BadRequest.to_error());
        },
    }
    request.set_path(rl.1);
    let headers = http11::parse_headers(raw.as_str());
    let ghost all_pairs = spec_pairs_view(headers@);
    let ghost total = spec_store_all(Seq::<(Seq<char>, Seq<char>)>::empty(), all_pairs);
    let ghost m0 = request.method_view();
    let ghost p0 = request.path_view();
    proof {
        assert(all_pairs.skip(0) =~= all_pairs);
    }
    let n = headers.len();
    let mut i: usize = 0;
    while i < n
        invariant
            n == headers@.len(),
            0 <= i <= n,
            all_pairs == spec_pairs_view(headers@),
            all_pairs.len() == n,
            total == spec_store_all(Seq::<(Seq<char>, Seq<char>)>::empty(), all_pairs),
            spec_store_all(request.headers_view(), all_pairs.skip(i as int)) == total,
            request.method_view() == m0,
            request.path_view() == p0,
            request.path_params_view() == Seq::<(Seq<char>, Seq<char>)>::empty(),
            request.query_params_view() == Seq::<(Seq<char>, Seq<char>)>::empty(),
            request.body_view() == Seq::<char>::empty(),
        decreases n - i,
    {
        proof {
            assert(all_pairs.skip(i as int)[0] == all_pairs[i as int]);
            assert(all_pairs.skip(i as int).drop_first() =~= all_pairs.skip(i as int + 1));
            assert(all_pairs[i as int] == (headers@[i as int].0@, headers@[i as int].1@));
        }
        request.set_header(headers[i].0.as_str(), headers[i].1.as_str());
        i = i + 1;
    }
    proof {
        assert(all_pairs.skip(n as int) =~= Seq::<(Seq<char>, Seq<char>)>::empty());
    }
    Ok(request)
}

/// The wire form of an error: status line with the error's code and
/// detail, a blank line, no headers and no body.
pub open spec fn spec_serialize_error(code: usize, detail: Seq<char>) -> Seq<char> {
    "HTTP/1.1 "@ + spec_dec(code as int) + " "@ + detail + "\r\n\r\n"@
}

/// One `name: value` header line per pair, in order.
pub open spec fn spec_header_lines(headers: Seq<(Seq<char>, Seq<char>)>) -> Seq<char>
    decreases headers.len(),
{
    if headers.len() == 0 {
        Seq::<char>::empty()
    } else {
        headers[0].0 + ": "@ + headers[0].1 + "\r\n"@ + spec_header_lines(headers.drop_first())
    }
}

/// The automatic `Content-Length` line: the byte length of the body,
/// emitted exactly when the handler did not set that header itself.
pub open spec fn spec_content_length_line(
    headers: Seq<(Seq<char>, Seq<char>)>,
    body: Seq<char>,
) -> Seq<char> {
    match spec_lookup(headers, "Content-Length"@) {
        Some(_) => Seq::<char>::empty(),
        None => "Content-Length: "@ + spec_dec((encode_utf8(body).len() as usize) as int) + "\r\n"@,
    }
}

/// The wire form of a response: status line (fixed `OK` reason), the
/// automatic `Content-Length` line, the headers in map order, a blank
/// line, then the body. A response with no status code serializes as an
/// internal server error.
pub open spec fn spec_serialize_response(
    status: Option<usize>,
    headers: Seq<(Seq<char>, Seq<char>)>,
    body: Seq<char>,
) -> Seq<char> {
    match status {
        None => spec_serialize_error(500, "Internal Server Error"@),
        Some(code) => "HTTP/1.1 "@ + spec_dec(code as int) + " OK"@ + "\r\n"@
            + spec_content_length_line(headers, body) + spec_header_lines(headers) + "\r\n"@
            + body,
    }
}

/// Law: serialization idempotence of the automatic length header. A
/// response whose handler set no `Content-Length` header always
/// serializes with `Content-Length: L`, where `L` is the byte length of
/// the body.
pub proof fn lemma_serialize_content_length(
    code: usize,
    headers: Seq<(Seq<char>, Seq<char>)>,
    body: Seq<char>,
)
    requires
        spec_lookup(headers, "Content-Length"@) == None::<Seq<char>>,
    ensures
        spec_serialize_response(Some(code), headers, body) == "HTTP/1.1 "@ + spec_dec(
            code as int,
        ) + " OK"@ + "\r\n"@ + ("Content-Length: "@ + spec_dec(
            (encode_utf8(body).len() as usize) as int,
        ) + "\r\n"@) + spec_header_lines(headers) + "\r\n"@ + body,
{
}

/// Serialize a struct that implements `Response` into raw bytes for
/// transfer to the client.
pub fn serialize_into_response<R: Response>(response: &R) -> (r: String)
    ensures
        r@ == spec_serialize_response(
            response.status_view(),
            response.headers_view(),
            response.body_view(),
        ),
{
    let body = response.get_body();
    let status_code = match response.get_status_code() {
        Some(val) => val,
        None => {
            return serialize_error_into_response(StdServerError::InternalServerError.to_error());
        },
    };
    let mut header = String::new();
    match response.get_header("Content-Length") {
        Some(_) => {},
        None => {
            header.append("Content-Length: ");
            let l = usize_to_string(body.as_str().len());
            header.append(l.as_str());
            header.append("\r\n");
        },
    }
    let ghost cl_part = spec_content_length_line(response.headers_view(), response.body_view());
    proof {
        assert(header@ =~= cl_part);
    }
    let hm = response.get_headers();
    let n = hm.len();
    let ghost hs = response.headers_view();
    let ghost mut done = Seq::<char>::empty();
    proof {
        assert(hs.skip(0) =~= hs);
        assert(Seq::<char>::empty() + spec_header_lines(hs) =~= spec_header_lines(hs));
        assert(cl_part + Seq::<char>::empty() =~= cl_part);
    }
    let mut i: usize = 0;
    while i < n
        invariant
            n == hs.len(),
            0 <= i <= n,
            hm@ == hs,
            header@ == cl_part + done,
            done + spec_header_lines(hs.skip(i as int)) == spec_header_lines(hs),
        decreases n - i,
    {
        let p = hm.pair_at(i);
        let ghost line = hs[i as int].0 + ": "@ + hs[i as int].1 + "\r\n"@;
        header.append(p.0.as_str());
        header.append(": ");
        header.append(p.1.as_str());
        header.append("\r\n");
        proof {
            assert(hs.skip(i as int).drop_first() =~= hs.skip(i as int + 1));
            assert(hs.skip(i as int)[0] == hs[i as int]);
            assert(header@ =~= cl_part + (done + line));
            assert((done + line) + spec_header_lines(hs.skip(i as int + 1)) =~= done + (line
                + spec_header_lines(hs.skip(i as int + 1))));
            assert(line + spec_header_lines(hs.skip(i as int + 1)) =~= spec_header_lines(
                hs.skip(i as int),
            ));
            done = done + line;
        }
        i = i + 1;
    }
    proof {
        assert(hs.skip(n as int) =~= Seq::<(Seq<char>, Seq<char>)>::empty());
        assert(done =~= spec_header_lines(hs));
    }
    let code_str = usize_to_string(status_code);
    let mut out = String::new();
    out.append("HTTP/1.1 ");
    out.append(code_str.as_str());
    out.append(" OK");
    out.append("\r\n");
    out.append(header.as_str());
    out.append("\r\n");
    out.append(body.as_str());
    proof {
        assert(out@ =~= spec_serialize_response(
            response.status_view(),
            response.headers_view(),
            response.body_view(),
        ));
    }
    out
}

/// Serialize an error into its wire form: a status line carrying the
/// error's code and detail, then a blank line.
pub fn serialize_error_into_response(error: impl Error) -> (r: String)
    ensures
        r@ == spec_serialize_error(error.status_view(), error.detail_view()),
{
    let code_str = usize_to_string(error.get_status_code());
    let detail = error.get_detail();
    let mut out = String::new();
    out.append("HTTP/1.1 ");
    out.append(code_str.as_str());
    out.append(" ");
    out.append(detail.as_str());
    out.append("\r\n\r\n");
    proof {
        assert(out@ =~= spec_serialize_error(error.status_view(), error.detail_view()));
    }
    out
}

} // verus!
