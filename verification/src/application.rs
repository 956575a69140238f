//! The application: configuration, router and the optional middleware
//! chain, composed into the end-to-end request handler that the
//! per-connection workers call.

use vstd::prelude::*;
use vstd::string::*;
use crate::context::RequestContext;
use crate::decimal::{spec_dec, usize_to_string};
use crate::parse;
use crate::parse::{spec_parsed_method, spec_parsed_path, spec_request_parses};
use crate::routing::Router;
use crate::server_error::ServerError;
use crate::traits::{Error, RequestMiddleware, RouteHandler, Request, Response};

verus! {

/// Where the listener binds.
pub struct ServerConfig {
    pub address: String,
    pub port: usize,
}

/// A middleware chain with no hooks: every context passes through
/// untouched.
pub struct NoMiddleware;

impl<T: Request, R: Response> RequestMiddleware<T, R> for NoMiddleware {
    fn on_request(&self, ctx: RequestContext<T, R>) -> Result<RequestContext<T, R>, ServerError> {
        Ok(ctx)
    }

    fn on_response(&self, ctx: RequestContext<T, R>) -> Result<RequestContext<T, R>, ServerError> {
        Ok(ctx)
    }
}

/// The application: built once at startup, then shared read-only by every
/// connection worker.
pub struct Application<H: RouteHandler, M: RequestMiddleware<H::Req, H::Resp>> {
    config: ServerConfig,
    router: Router<H>,
    middleware: Option<Vec<M>>,
}

impl<H: RouteHandler, M: RequestMiddleware<H::Req, H::Resp>> Application<H, M> {
    /// The configuration.
    pub closed spec fn spec_config(&self) -> ServerConfig {
        self.config
    }

    /// The router.
    pub closed spec fn spec_router(&self) -> Router<H> {
        self.router
    }

    /// The middleware chain, if one was installed.
    pub closed spec fn spec_middleware(&self) -> Option<Seq<M>> {
        match self.middleware {
            Some(v) => Some(v@),
            None => None,
        }
    }

    /// Assemble an application.
    pub fn new(config: ServerConfig, router: Router<H>, middleware: Option<Vec<M>>) -> (r: Self)
        ensures
            r.spec_config() == config,
            r.spec_router() == router,
            match middleware {
                Some(v) => r.spec_middleware() == Some(v@),
                None => r.spec_middleware() == None::<Seq<M>>,
            },
    {
        Application { config, router, middleware }
    }

    /// The `address:port` string the listener binds to.
    pub fn get_bind(&self) -> (r: String)
        ensures
            r@ == self.spec_config().address@ + ":"@ + spec_dec(
                self.spec_config().port as int,
            ),
    {
        let mut out = self.config.address.clone();
        out.append(":");
        let p = usize_to_string(self.config.port);
        out.append(p.as_str());
        proof {
            assert(out@ =~= self.spec_config().address@ + ":"@ + spec_dec(
                self.spec_config().port as int,
            ));
        }
        out
    }

    /// Handle one request buffer end to end: parse it into a request, run
    /// the pre-dispatch hooks, dispatch the matched route, then run the
    /// post-dispatch hooks; the first error anywhere short-circuits the
    /// rest. A buffer that does not parse is a bad request, and a
    /// successful result implies the buffer parsed; with no middleware
    /// installed, a request no route accepts is `NotFound`, and a
    /// successful result implies some route accepted it.
    pub fn handle(&self, buffer: String) -> (r: Result<
        RequestContext<H::Req, H::Resp>,
        ServerError,
    >)
        ensures
            !spec_request_parses(buffer@) ==> match r {
                Err(e) => e.status_view() == 400 && e.detail_view() == "Bad Request"@,
                Ok(_) => false,
            },
            (self.spec_middleware() == None::<Seq<M>> && spec_request_parses(buffer@)
                && !self.spec_router().spec_some_match(
                spec_parsed_method(buffer@),
                spec_parsed_path(buffer@),
            )) ==> match r {
                Err(e) => e.status_view() == 404 && e.detail_view() == "Not Found"@,
                Ok(_) => false,
            },
            match r {
                Ok(_) => spec_request_parses(buffer@),
                Err(_) => true,
            },
            self.spec_middleware() == None::<Seq<M>> ==> match r {
                Ok(_) => self.spec_router().spec_some_match(
                    spec_parsed_method(buffer@),
                    spec_parsed_path(buffer@),
                ),
                Err(_) => true,
            },
    {
        let ghost raw = buffer@;
        let mut ctx = RequestContext::<H::Req, H::Resp>::new();
        match parse::parse_into_request::<H::Req>(buffer) {
            Ok(val) => {
                ctx.set_request(val);
            },
            Err(e) => {
                return Err(e);
            },
        }
        match &self.middleware {
            Some(mws) => {
                let n = mws.len();
                let mut i: usize = 0;
                while i < n
                    invariant
                        n == mws@.len(),
                        0 <= i <= n,
                        spec_request_parses(buffer@),
                        self.spec_middleware() == Some(mws@),
                    decreases n - i,
                {
                    ctx = match mws[i].on_request(ctx) {
                        Ok(val) => val,
                        Err(e) => {
                            return Err(e);
                        },
                    };
                    i = i + 1;
                }
            },
            None => {},
        }
        ctx = match self.router.dispatch(ctx) {
            Ok(val) => val,
            Err(e) => {
                return Err(e);
            },
        };
        match &self.middleware {
            Some(mws) => {
                let n = mws.len();
                let mut i: usize = 0;
                while i < n
                    invariant
                        n == mws@.len(),
                        0 <= i <= n,
                        spec_request_parses(buffer@),
                        self.spec_middleware() == Some(mws@),
                    decreases n - i,
                {
                    ctx = match mws[i].on_response(ctx) {
                        Ok(val) => val,
                        Err(e) => {
                            return Err(e);
                        },
                    };
                    i = i + 1;
                }
            },
            None => {},
        }
        Ok(ctx)
    }
}

} // verus!
