//! The demonstration route handlers that only read and write through the
//! request/response contract, and a ready-made handler type that runs
//! them.

use vstd::prelude::*;
use vstd::string::*;
use crate::context::{HttpRequest, HttpResponse, RequestContext};
use crate::server_error::ServerError;
use crate::strmap::{spec_lookup, spec_store};
use crate::traits::{Error, Request, Response, RouteHandler};

verus! {

/// Answer with a bare `200` and an empty body.
pub fn root_route(ctx: RequestContext<HttpRequest, HttpResponse>) -> (r: Result<
    RequestContext<HttpRequest, HttpResponse>,
    ServerError,
>)
    ensures
        match r {
            Ok(c) => {
                &&& c.spec_request() == ctx.spec_request()
                &&& c.spec_response().status_view() == Some(200usize)
                &&& c.spec_response().headers_view() == Seq::<(Seq<char>, Seq<char>)>::empty()
                &&& c.spec_response().body_view() == Seq::<char>::empty()
            },
            Err(_) => false,
        },
{
    let mut ctx = ctx;
    let mut response = HttpResponse::new();
    response.set_status_code(200);
    ctx.set_response(response);
    Ok(ctx)
}

/// Echo the `{str}` path parameter back as a plain-text `200`; a missing
/// parameter is a bad request.
pub fn echo_route(ctx: RequestContext<HttpRequest, HttpResponse>) -> (r: Result<
    RequestContext<HttpRequest, HttpResponse>,
    ServerError,
>)
    ensures
        match spec_lookup(ctx.spec_request().path_params_view(), "str"@) {
            Some(v) => match r {
                Ok(c) => {
                    &&& c.spec_request() == ctx.spec_request()
                    &&& c.spec_response().status_view() == Some(200usize)
                    &&& c.spec_response().body_view() == v
                    &&& c.spec_response().headers_view() == spec_store(
                        Seq::<(Seq<char>, Seq<char>)>::empty(),
                        "Content-Type"@,
                        "text/plain"@,
                    )
                },
                Err(_) => false,
            },
            None => match r {
                Ok(_) => false,
                Err(e) => e.status_view() == 400 && e.detail_view() == "Missing parameter {str}"@,
            },
        },
{
    let mut ctx = ctx;
    let request = ctx.get_request();
    match request.get_path_param("str") {
        Some(val) => {
            let mut response = HttpResponse::new();
            response.set_status_code(200);
            response.set_body(val);
            response.set_header("Content-Type", "text/plain");
            ctx.set_response(response);
        },
        None => {
            return Err(ServerError::new(400, String::from_str("Missing parameter {str}")));
        },
    };
    Ok(ctx)
}

/// Answer with the request's `User-Agent` header as a plain-text `200`; a
/// missing header is a bad request.
pub fn user_agent_route(ctx: RequestContext<HttpRequest, HttpResponse>) -> (r: Result<
    RequestContext<HttpRequest, HttpResponse>,
    ServerError,
>)
    ensures
        match spec_lookup(ctx.spec_request().headers_view(), "User-Agent"@) {
            Some(v) => match r {
                Ok(c) => {
                    &&& c.spec_request() == ctx.spec_request()
                    &&& c.spec_response().status_view() == Some(200usize)
                    &&& c.spec_response().body_view() == v
                    &&& c.spec_response().headers_view() == spec_store(
                        Seq::<(Seq<char>, Seq<char>)>::empty(),
                        "Content-Type"@,
                        "text/plain"@,
                    )
                },
                Err(_) => false,
            },
            None => match r {
                Ok(_) => false,
                Err(e) => e.status_view() == 400 && e.detail_view()
                    == "Missing User-Agent header"@,
            },
        },
{
    let mut ctx = ctx;
    let request = ctx.get_request();
    match request.get_header("User-Agent") {
        Some(val) => {
            let mut response = HttpResponse::new();
            response.set_status_code(200);
            response.set_body(val);
            response.set_header("Content-Type", "text/plain");
            ctx.set_response(response);
        },
        None => {
            return Err(ServerError::new(400, String::from_str("Missing User-Agent header")));
        },
    }
    Ok(ctx)
}

/// A handler value for the demonstration routes, usable as a router's
/// handler type.
#[derive(Clone, Copy, Debug)]
pub enum DemoHandler {
    Root,
    Echo,
    UserAgent,
}

impl RouteHandler for DemoHandler {
    type Req = HttpRequest;

    type Resp = HttpResponse;

    fn handle(&self, ctx: RequestContext<HttpRequest, HttpResponse>) -> Result<
        RequestContext<HttpRequest, HttpResponse>,
        ServerError,
    > {
        match self {
            DemoHandler::Root => root_route(ctx),
            DemoHandler::Echo => echo_route(ctx),
            DemoHandler::UserAgent => user_agent_route(ctx),
        }
    }
}

} // verus!
