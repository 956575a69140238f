//! The per-dispatch context pairing one request with one response, and the
//! concrete request/response representations.

use vstd::prelude::*;
use crate::strmap::{spec_lookup, spec_store, StrMap};
use crate::traits::{Request, Response};
use crate::types::HttpMethod;

verus! {

/// One dispatch's request and response, owned by the worker handling the
/// connection.
#[derive(Debug)]
pub struct RequestContext<T: Request, R: Response> {
    request: T,
    response: R,
}

impl<T: Request, R: Response> RequestContext<T, R> {
    /// The request inside the context.
    pub closed spec fn spec_request(&self) -> T {
        self.request
    }

    /// The response inside the context.
    pub closed spec fn spec_response(&self) -> R {
        self.response
    }

    /// A fresh context holding an empty request and an empty response.
    pub fn new() -> (r: Self)
        ensures
            r.spec_request().method_view() == HttpMethod::Unset,
            r.spec_request().path_view() == Seq::<char>::empty(),
            r.spec_request().path_params_view() == Seq::<(Seq<char>, Seq<char>)>::empty(),
            r.spec_request().query_params_view() == Seq::<(Seq<char>, Seq<char>)>::empty(),
            r.spec_request().headers_view() == Seq::<(Seq<char>, Seq<char>)>::empty(),
            r.spec_request().body_view() == Seq::<char>::empty(),
            r.spec_response().status_view() == None::<usize>,
            r.spec_response().headers_view() == Seq::<(Seq<char>, Seq<char>)>::empty(),
            r.spec_response().body_view() == Seq::<char>::empty(),
    {
        RequestContext { request: T::new(), response: R::new() }
    }

    /// Borrow the request.
    pub fn get_request(&self) -> (r: &T)
        ensures
            *r == self.spec_request(),
    {
        &self.request
    }

    /// Replace the request.
    pub fn set_request(&mut self, request: T)
        ensures
            final(self).spec_request() == request,
            final(self).spec_response() == old(self).spec_response(),
    {
        self.request = request;
    }

    /// Borrow the response.
    pub fn get_response(&self) -> (r: &R)
        ensures
            *r == self.spec_response(),
    {
        &self.response
    }

    /// Replace the response.
    pub fn set_response(&mut self, response: R)
        ensures
            final(self).spec_response() == response,
            final(self).spec_request() == old(self).spec_request(),
    {
        self.response = response;
    }
}

/// The concrete request representation the server builds from the wire.
#[derive(Debug)]
pub struct HttpRequest {
    method: HttpMethod,
    path: String,
    path_params: StrMap,
    query_params: StrMap,
    headers: StrMap,
    body: String,
}

impl Request for HttpRequest {
    closed spec fn method_view(&self) -> HttpMethod {
        self.method
    }

    closed spec fn path_view(&self) -> Seq<char> {
        self.path@
    }

    closed spec fn path_params_view(&self) -> Seq<(Seq<char>, Seq<char>)> {
        self.path_params@
    }

    closed spec fn query_params_view(&self) -> Seq<(Seq<char>, Seq<char>)> {
        self.query_params@
    }

    closed spec fn headers_view(&self) -> Seq<(Seq<char>, Seq<char>)> {
        self.headers@
    }

    closed spec fn body_view(&self) -> Seq<char> {
        self.body@
    }

    fn clone(&self) -> (r: Self) {
        HttpRequest {
            method: self.method,
            path: self.path.clone(),
            path_params: self.path_params.duplicate(),
            query_params: self.query_params.duplicate(),
            headers: self.headers.duplicate(),
            body: self.body.clone(),
        }
    }

    fn new() -> (r: Self) {
        HttpRequest {
            method: HttpMethod::Unset,
            path: String::new(),
            path_params: StrMap::new(),
            query_params: StrMap::new(),
            headers: StrMap::new(),
            body: String::new(),
        }
    }

    fn get_method(&self) -> (m: HttpMethod) {
        self.method
    }

    fn set_method(&mut self, method: HttpMethod) {
        self.method = method;
    }

    fn get_path(&self) -> (p: String) {
        self.path.clone()
    }

    fn set_path(&mut self, path: String) {
        self.path = path;
    }

    fn get_path_param(&self, name: &str) -> (r: Option<String>) {
        self.path_params.get(name)
    }

    fn set_path_param(&mut self, name: &str, value: &str) {
        self.path_params.insert(name, value);
    }

    fn get_query_param(&self, name: &str) -> (r: Option<String>) {
        self.query_params.get(name)
    }

    fn get_header(&self, name: &str) -> (r: Option<String>) {
        self.headers.get(name)
    }

    fn set_header(&mut self, name: &str, value: &str) {
        self.headers.insert(name, value);
    }

    fn get_body(&self) -> (b: String) {
        self.body.clone()
    }

    fn set_body(&mut self, body: String) {
        self.body = body;
    }
}

/// The concrete response representation handlers fill in.
#[derive(Debug)]
pub struct HttpResponse {
    status_code: Option<usize>,
    headers: StrMap,
    body: String,
}

impl Response for HttpResponse {
    closed spec fn status_view(&self) -> Option<usize> {
        self.status_code
    }

    closed spec fn headers_view(&self) -> Seq<(Seq<char>, Seq<char>)> {
        self.headers@
    }

    closed spec fn body_view(&self) -> Seq<char> {
        self.body@
    }

    fn clone(&self) -> (r: Self) {
        HttpResponse {
            status_code: self.status_code,
            headers: self.headers.duplicate(),
            body: self.body.clone(),
        }
    }

    fn new() -> (r: Self) {
        HttpResponse { status_code: None, headers: StrMap::new(), body: String::new() }
    }

    fn get_status_code(&self) -> (r: Option<usize>) {
        self.status_code
    }

    fn set_status_code(&mut self, code: usize) {
        self.status_code = Some(code);
    }

    fn get_header(&self, name: &str) -> (r: Option<String>) {
        self.headers.get(name)
    }

    fn get_headers(&self) -> (m: &StrMap) {
        &self.headers
    }

    fn set_header(&mut self, name: &str, value: &str) {
        self.headers.insert(name, value);
    }

    fn get_body(&self) -> (b: String) {
        self.body.clone()
    }

    fn set_body(&mut self, body: String) {
        self.body = body;
    }
}

impl HttpResponse {
    /// A response carrying a plain-text body; no status code is set yet.
    pub fn plaintext_response(body: String) -> (r: HttpResponse)
        ensures
            r.status_view() == None::<usize>,
            r.headers_view() == spec_store(
                Seq::<(Seq<char>, Seq<char>)>::empty(),
                "Content-Type"@,
                "text/plain"@,
            ),
            r.body_view() == body@,
    {
        let mut response = HttpResponse::new();
        response.set_header("Content-Type", "text/plain");
        response.set_body(body);
        response
    }
}

} // verus!
