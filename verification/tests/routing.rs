use httpcore::context::{HttpRequest, HttpResponse, RequestContext};
use httpcore::routing::{compile_path_template, extract_path_params, path_matches, Route, Router};
use httpcore::server_error::ServerError;
use httpcore::traits::{Error, Request, Response, RouteHandler};
use httpcore::types::HttpMethod;

#[derive(Clone, Copy)]
enum TagHandler {
    First,
    Second,
}

impl RouteHandler for TagHandler {
    type Req = HttpRequest;
    type Resp = HttpResponse;

    fn handle(
        &self,
        mut ctx: RequestContext<HttpRequest, HttpResponse>,
    ) -> Result<RequestContext<HttpRequest, HttpResponse>, ServerError> {
        let mut response = <HttpResponse as Response>::new();
        response.set_status_code(200);
        match self {
            TagHandler::First => response.set_body(String::from("first")),
            TagHandler::Second => response.set_body(String::from("second")),
        }
        ctx.set_response(response);
        Ok(ctx)
    }
}

fn request_for(method: HttpMethod, path: &str) -> RequestContext<HttpRequest, HttpResponse> {
    let mut request = <HttpRequest as Request>::new();
    request.set_method(method);
    request.set_path(String::from(path));
    let mut ctx = RequestContext::new();
    ctx.set_request(request);
    ctx
}

#[test]
fn test_template_round_trip() {
    let matcher = compile_path_template("/echo/{str}").unwrap();
    assert!(path_matches(&matcher, "/echo/hello"));
    let params = extract_path_params("/echo/hello", &matcher).unwrap();
    assert_eq!(params, vec![(String::from("str"), String::from("hello"))]);
    assert!(!path_matches(&matcher, "/echo/"));
    assert!(extract_path_params("/echo/", &matcher).is_err());
}

#[test]
fn test_template_without_params() {
    assert!(compile_path_template("/").is_none());
    assert!(compile_path_template("/user-agent").is_none());
}

#[test]
fn test_template_two_params() {
    let matcher = compile_path_template("/echo/{num}/{str}").unwrap();
    let params = extract_path_params("/echo/two/hello", &matcher).unwrap();
    assert_eq!(
        params,
        vec![
            (String::from("num"), String::from("two")),
            (String::from("str"), String::from("hello")),
        ]
    );
}

#[test]
fn test_template_rejects_extra_segments() {
    let matcher = compile_path_template("/echo/{str}").unwrap();
    assert!(!path_matches(&matcher, "/echo/a/b"));
    assert!(!path_matches(&matcher, "/other/a"));
    assert!(!path_matches(&matcher, "/echo/hello/"));
}

#[test]
fn test_route_matcher_presence() {
    let with_param: Route<TagHandler> = Route::new(
        String::from("/echo/{str}"),
        TagHandler::First,
        vec![HttpMethod::Get],
    );
    assert!(with_param.get_path_matcher().is_some());
    let literal: Route<TagHandler> = Route::new(
        String::from("/echo"),
        TagHandler::First,
        vec![HttpMethod::Get],
    );
    assert!(literal.get_path_matcher().is_none());
}

#[test]
fn test_router_precedence() {
    let router = Router::new(vec![
        Route::new(
            String::from("/x"),
            TagHandler::First,
            vec![HttpMethod::Get],
        ),
        Route::new(
            String::from("/x"),
            TagHandler::Second,
            vec![HttpMethod::Get],
        ),
    ]);
    let ctx = router.dispatch(request_for(HttpMethod::Get, "/x")).unwrap();
    assert_eq!(ctx.get_response().get_body(), String::from("first"));
}

#[test]
fn test_router_miss_is_not_found() {
    let router = Router::new(vec![Route::new(
        String::from("/x"),
        TagHandler::First,
        vec![HttpMethod::Get],
    )]);
    let err = router
        .dispatch(request_for(HttpMethod::Get, "/y"))
        .unwrap_err();
    assert_eq!(err.get_status_code(), 404);
    assert_eq!(err.get_detail(), String::from("Not Found"));
}

#[test]
fn test_router_method_mismatch_is_not_found() {
    let router = Router::new(vec![Route::new(
        String::from("/x"),
        TagHandler::First,
        vec![HttpMethod::Get],
    )]);
    let err = router
        .dispatch(request_for(HttpMethod::Post, "/x"))
        .unwrap_err();
    assert_eq!(err.get_status_code(), 404);
}

#[test]
fn test_prepare_selects_and_fills() {
    let router = Router::new(vec![Route::new(
        String::from("/echo/{str}"),
        TagHandler::First,
        vec![HttpMethod::Get],
    )]);
    let (i, ctx) = router
        .prepare(request_for(HttpMethod::Get, "/echo/hi"))
        .unwrap();
    assert_eq!(i, 0);
    assert_eq!(
        ctx.get_request().get_path_param("str"),
        Some(String::from("hi"))
    );
    assert_eq!(ctx.get_request().get_path(), String::from("/echo/hi"));
    let err = router
        .prepare(request_for(HttpMethod::Get, "/other"))
        .unwrap_err();
    assert_eq!(err.get_status_code(), 404);
}

#[test]
fn test_dispatch_fills_path_params() {
    struct EchoParam;
    impl RouteHandler for EchoParam {
        type Req = HttpRequest;
        type Resp = HttpResponse;

        fn handle(
            &self,
            mut ctx: RequestContext<HttpRequest, HttpResponse>,
        ) -> Result<RequestContext<HttpRequest, HttpResponse>, ServerError> {
            let val = ctx.get_request().get_path_param("name").unwrap();
            let mut response = <HttpResponse as Response>::new();
            response.set_status_code(200);
            response.set_body(val);
            ctx.set_response(response);
            Ok(ctx)
        }
    }
    let router = Router::new(vec![Route::new(
        String::from("/greet/{name}"),
        EchoParam,
        vec![HttpMethod::Get],
    )]);
    let ctx = router
        .dispatch(request_for(HttpMethod::Get, "/greet/mallory"))
        .unwrap();
    assert_eq!(ctx.get_response().get_body(), String::from("mallory"));
}
