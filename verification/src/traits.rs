//! The capability contract between the core and concrete request/response
//! representations, plus the hooks a middleware and a route handler offer.
//!
//! Each trait pairs abstract views (specification functions) with the
//! executable accessors that implementations must prove against them.

use vstd::prelude::*;
use crate::context::RequestContext;
use crate::server_error::ServerError;
use crate::strmap::{spec_lookup, spec_store};
use crate::types::HttpMethod;
use crate::strmap::StrMap;

verus! {

/// What any request representation must offer.
pub trait Request: Sized + Send + Sync {
    /// The request method.
    spec fn method_view(&self) -> HttpMethod;

    /// The request path.
    spec fn path_view(&self) -> Seq<char>;

    /// The extracted path parameters, in insertion order.
    spec fn path_params_view(&self) -> Seq<(Seq<char>, Seq<char>)>;

    /// The query parameters, in insertion order.
    spec fn query_params_view(&self) -> Seq<(Seq<char>, Seq<char>)>;

    /// The headers, in insertion order.
    spec fn headers_view(&self) -> Seq<(Seq<char>, Seq<char>)>;

    /// The raw body.
    spec fn body_view(&self) -> Seq<char>;

    /// A value-copy of the request.
    fn clone(&self) -> (r: Self)
        ensures
            r.method_view() == self.method_view(),
            r.path_view() == self.path_view(),
            r.path_params_view() == self.path_params_view(),
            r.query_params_view() == self.query_params_view(),
            r.headers_view() == self.headers_view(),
            r.body_view() == self.body_view(),
    ;

    /// A fresh, empty request.
    fn new() -> (r: Self)
        ensures
            r.method_view() == HttpMethod::Unset,
            r.path_view() == Seq::<char>::empty(),
            r.path_params_view() == Seq::<(Seq<char>, Seq<char>)>::empty(),
            r.query_params_view() == Seq::<(Seq<char>, Seq<char>)>::empty(),
            r.headers_view() == Seq::<(Seq<char>, Seq<char>)>::empty(),
            r.body_view() == Seq::<char>::empty(),
    ;

    /// Get the method type of the request.
    fn get_method(&self) -> (m: HttpMethod)
        ensures
            m == self.method_view(),
    ;

    /// Set the request's method.
    fn set_method(&mut self, method: HttpMethod)
        ensures
            final(self).method_view() == method,
            final(self).path_view() == old(self).path_view(),
            final(self).path_params_view() == old(self).path_params_view(),
            final(self).query_params_view() == old(self).query_params_view(),
            final(self).headers_view() == old(self).headers_view(),
            final(self).body_view() == old(self).body_view(),
    ;

    /// Get the request path.
    fn get_path(&self) -> (p: String)
        ensures
            p@ == self.path_view(),
    ;

    /// Set the request's path.
    fn set_path(&mut self, path: String)
        ensures
            final(self).path_view() == path@,
            final(self).method_view() == old(self).method_view(),
            final(self).path_params_view() == old(self).path_params_view(),
            final(self).query_params_view() == old(self).query_params_view(),
            final(self).headers_view() == old(self).headers_view(),
            final(self).body_view() == old(self).body_view(),
    ;

    /// Get a path parameter by name.
    fn get_path_param(&self, name: &str) -> (r: Option<String>)
        ensures
            match r {
                Some(v) => spec_lookup(self.path_params_view(), name@) == Some(v@),
                None => spec_lookup(self.path_params_view(), name@) == None::<Seq<char>>,
            },
    ;

    /// Set a path parameter by name.
    fn set_path_param(&mut self, name: &str, value: &str)
        ensures
            final(self).path_params_view() == spec_store(
                old(self).path_params_view(),
                name@,
                value@,
            ),
            final(self).method_view() == old(self).method_view(),
            final(self).path_view() == old(self).path_view(),
            final(self).query_params_view() == old(self).query_params_view(),
            final(self).headers_view() == old(self).headers_view(),
            final(self).body_view() == old(self).body_view(),
    ;

    /// Get a query parameter by name.
    fn get_query_param(&self, name: &str) -> (r: Option<String>)
        ensures
            match r {
                Some(v) => spec_lookup(self.query_params_view(), name@) == Some(v@),
                None => spec_lookup(self.query_params_view(), name@) == None::<Seq<char>>,
            },
    ;

    /// Get a request header by name.
    fn get_header(&self, name: &str) -> (r: Option<String>)
        ensures
            match r {
                Some(v) => spec_lookup(self.headers_view(), name@) == Some(v@),
                None => spec_lookup(self.headers_view(), name@) == None::<Seq<char>>,
            },
    ;

    /// Set a header on the request.
    fn set_header(&mut self, name: &str, value: &str)
        ensures
            final(self).headers_view() == spec_store(old(self).headers_view(), name@, value@),
            final(self).method_view() == old(self).method_view(),
            final(self).path_view() == old(self).path_view(),
            final(self).path_params_view() == old(self).path_params_view(),
            final(self).query_params_view() == old(self).query_params_view(),
            final(self).body_view() == old(self).body_view(),
    ;

    /// Get the request's body.
    fn get_body(&self) -> (b: String)
        ensures
            b@ == self.body_view(),
    ;

    /// Set the value of the body.
    fn set_body(&mut self, body: String)
        ensures
            final(self).body_view() == body@,
            final(self).method_view() == old(self).method_view(),
            final(self).path_view() == old(self).path_view(),
            final(self).path_params_view() == old(self).path_params_view(),
            final(self).query_params_view() == old(self).query_params_view(),
            final(self).headers_view() == old(self).headers_view(),
    ;
}

/// What any response representation must offer.
pub trait Response: Sized + Send + Sync {
    /// The status code, if one was set.
    spec fn status_view(&self) -> Option<usize>;

    /// The headers, in insertion order.
    spec fn headers_view(&self) -> Seq<(Seq<char>, Seq<char>)>;

    /// The body.
    spec fn body_view(&self) -> Seq<char>;

    /// A value-copy of the response.
    fn clone(&self) -> (r: Self)
        ensures
            r.status_view() == self.status_view(),
            r.headers_view() == self.headers_view(),
            r.body_view() == self.body_view(),
    ;

    /// A fresh response with no status, no headers and an empty body.
    fn new() -> (r: Self)
        ensures
            r.status_view() == None::<usize>,
            r.headers_view() == Seq::<(Seq<char>, Seq<char>)>::empty(),
            r.body_view() == Seq::<char>::empty(),
    ;

    /// Get the response status code.
    fn get_status_code(&self) -> (r: Option<usize>)
        ensures
            r == self.status_view(),
    ;

    /// Set the response status code.
    fn set_status_code(&mut self, code: usize)
        ensures
            final(self).status_view() == Some(code),
            final(self).headers_view() == old(self).headers_view(),
            final(self).body_view() == old(self).body_view(),
    ;

    /// Get a response header.
    fn get_header(&self, name: &str) -> (r: Option<String>)
        ensures
            match r {
                Some(v) => spec_lookup(self.headers_view(), name@) == Some(v@),
                None => spec_lookup(self.headers_view(), name@) == None::<Seq<char>>,
            },
    ;

    /// Get all headers.
    fn get_headers(&self) -> (m: &StrMap)
        ensures
            m@ == self.headers_view(),
    ;

    /// Set a response header.
    fn set_header(&mut self, name: &str, value: &str)
        ensures
            final(self).headers_view() == spec_store(old(self).headers_view(), name@, value@),
            final(self).status_view() == old(self).status_view(),
            final(self).body_view() == old(self).body_view(),
    ;

    /// Get the response body.
    fn get_body(&self) -> (b: String)
        ensures
            b@ == self.body_view(),
    ;

    /// Set the response body.
    fn set_body(&mut self, body: String)
        ensures
            final(self).body_view() == body@,
            final(self).status_view() == old(self).status_view(),
            final(self).headers_view() == old(self).headers_view(),
    ;
}

/// A route handler: the code a route runs once the router has selected it.
/// It receives the context and must hand back either a context whose
/// response is filled in, or a server error.
pub trait RouteHandler: Sized {
    /// The request representation the handler works on.
    type Req: Request;

    /// The response representation the handler works on.
    type Resp: Response;

    /// Run the handler on one dispatch's context.
    fn handle(&self, ctx: RequestContext<Self::Req, Self::Resp>) -> Result<
        RequestContext<Self::Req, Self::Resp>,
        ServerError,
    >;
}

/// A hook invoked around dispatch; it may replace the context or
/// short-circuit with an error.
pub trait RequestMiddleware<T: Request, R: Response>: Sized {
    /// Runs before dispatch, in registration order.
    fn on_request(&self, ctx: RequestContext<T, R>) -> Result<RequestContext<T, R>, ServerError>;

    /// Runs after a successful dispatch, in registration order.
    fn on_response(&self, ctx: RequestContext<T, R>) -> Result<RequestContext<T, R>, ServerError>;
}

/// What any error representation offers: a status code and a detail line.
pub trait Error {
    /// The status code.
    spec fn status_view(&self) -> usize;

    /// The detail text.
    spec fn detail_view(&self) -> Seq<char>;

    /// Get the error's status code.
    fn get_status_code(&self) -> (c: usize)
        ensures
            c == self.status_view(),
    ;

    /// Get the error's detail text.
    fn get_detail(&self) -> (d: String)
        ensures
            d@ == self.detail_view(),
    ;
}

} // verus!
