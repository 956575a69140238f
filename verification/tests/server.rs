use httpcore::application::{Application, NoMiddleware, ServerConfig};
use httpcore::context::{HttpRequest, HttpResponse, RequestContext};
use httpcore::handlers::DemoHandler;
use httpcore::parse::{parse_into_request, serialize_error_into_response, serialize_into_response};
use httpcore::routing::{Route, Router};
use httpcore::server_error::{ServerError, StdServerError};
use httpcore::traits::{Error, Request, RequestMiddleware, Response};
use httpcore::types::{HttpMethod, HttpVersion};

fn demo_app() -> Application<DemoHandler, NoMiddleware> {
    let cfg = ServerConfig {
        address: String::from("127.0.0.1"),
        port: 4221,
    };
    let router = Router::new(vec![
        Route::new(String::from("/"), DemoHandler::Root, vec![HttpMethod::Get]),
        Route::new(
            String::from("/echo/{str}"),
            DemoHandler::Echo,
            vec![HttpMethod::Get],
        ),
        Route::new(
            String::from("/user-agent"),
            DemoHandler::UserAgent,
            vec![HttpMethod::Get],
        ),
    ]);
    Application::new(cfg, router, None)
}

#[test]
fn test_scenario_root() {
    let app = demo_app();
    let ctx = app.handle(String::from("GET / HTTP/1.1\r\n\r\n")).unwrap();
    let response = ctx.get_response();
    assert_eq!(response.get_status_code(), Some(200));
    assert_eq!(response.get_body(), String::from(""));
}

#[test]
fn test_scenario_echo() {
    let app = demo_app();
    let ctx = app
        .handle(String::from("GET /echo/abc HTTP/1.1\r\nHost: x\r\n\r\n"))
        .unwrap();
    let response = ctx.get_response();
    assert_eq!(response.get_status_code(), Some(200));
    assert_eq!(response.get_body(), String::from("abc"));
    assert_eq!(
        response.get_header("Content-Type"),
        Some(String::from("text/plain"))
    );
}

#[test]
fn test_scenario_unregistered_path() {
    let app = demo_app();
    let err = app
        .handle(String::from("GET /nowhere HTTP/1.1\r\n\r\n"))
        .unwrap_err();
    assert_eq!(err.get_status_code(), 404);
    assert_eq!(
        serialize_error_into_response(err),
        String::from("HTTP/1.1 404 Not Found\r\n\r\n")
    );
}

#[test]
fn test_scenario_method_mismatch_is_not_found() {
    let app = demo_app();
    let err = app
        .handle(String::from("POST / HTTP/1.1\r\n\r\n"))
        .unwrap_err();
    assert_eq!(err.get_status_code(), 404);
    assert_eq!(err.get_detail(), String::from("Not Found"));
}

#[test]
fn test_scenario_user_agent() {
    let app = demo_app();
    let ctx = app
        .handle(String::from(
            "GET /user-agent HTTP/1.1\r\nUser-Agent: curl/7.64.1\r\n\r\n",
        ))
        .unwrap();
    let response = ctx.get_response();
    assert_eq!(response.get_status_code(), Some(200));
    assert_eq!(response.get_body(), String::from("curl/7.64.1"));
}

#[test]
fn test_malformed_request_is_bad_request() {
    let app = demo_app();
    let err = app.handle(String::from("not an http request")).unwrap_err();
    assert_eq!(err.get_status_code(), 400);
    assert_eq!(err.get_detail(), String::from("Bad Request"));
}

#[test]
fn test_unknown_method_is_bad_request() {
    let app = demo_app();
    let err = app
        .handle(String::from("PUT / HTTP/1.1\r\n\r\n"))
        .unwrap_err();
    assert_eq!(err.get_status_code(), 400);
}

#[test]
fn test_serialize_adds_content_length() {
    let mut response = <HttpResponse as Response>::new();
    response.set_status_code(200);
    response.set_body(String::from("hello"));
    assert_eq!(
        serialize_into_response(&response),
        String::from("HTTP/1.1 200 OK\r\nContent-Length: 5\r\n\r\nhello")
    );
}

#[test]
fn test_serialize_keeps_explicit_content_length() {
    let mut response = <HttpResponse as Response>::new();
    response.set_status_code(200);
    response.set_header("Content-Length", "99");
    response.set_body(String::from("hi"));
    assert_eq!(
        serialize_into_response(&response),
        String::from("HTTP/1.1 200 OK\r\nContent-Length: 99\r\n\r\nhi")
    );
}

#[test]
fn test_serialize_empty_body_content_length_zero() {
    let mut response = <HttpResponse as Response>::new();
    response.set_status_code(200);
    assert_eq!(
        serialize_into_response(&response),
        String::from("HTTP/1.1 200 OK\r\nContent-Length: 0\r\n\r\n")
    );
}

#[test]
fn test_serialize_without_status_is_internal_error() {
    let response = <HttpResponse as Response>::new();
    assert_eq!(
        serialize_into_response(&response),
        String::from("HTTP/1.1 500 Internal Server Error\r\n\r\n")
    );
}

#[test]
fn test_serialize_error_form() {
    let err = ServerError::new(403, String::from("File already exists"));
    assert_eq!(
        serialize_error_into_response(err),
        String::from("HTTP/1.1 403 File already exists\r\n\r\n")
    );
}

#[test]
fn test_error_taxonomy() {
    let cases = [
        (StdServerError::BadRequest, 400, "Bad Request"),
        (StdServerError::Unauthorized, 401, "Unauthorized"),
        (StdServerError::PaymentRequired, 402, "Payment Required"),
        (StdServerError::Forbidden, 403, "Forbidden"),
        (StdServerError::NotFound, 404, "Not Found"),
        (StdServerError::MethodNotAllowed, 405, "Method Not Allowed"),
        (
            StdServerError::UnprocessableContent,
            422,
            "Unprocessable Content",
        ),
        (
            StdServerError::InternalServerError,
            500,
            "Internal Server Error",
        ),
        (StdServerError::NotImplemented, 501, "Not Implemented"),
        (
            StdServerError::HttpVersionNotSupported,
            505,
            "HTTP Version Not Supported",
        ),
    ];
    for (variant, code, detail) in cases {
        let err = variant.to_error();
        assert_eq!(err.get_status_code(), code);
        assert_eq!(err.get_detail(), String::from(detail));
    }
}

#[test]
fn test_method_from_str() {
    assert!(matches!(HttpMethod::from_str("GET"), Ok(HttpMethod::Get)));
    assert!(matches!(HttpMethod::from_str("get"), Ok(HttpMethod::Get)));
    assert!(matches!(HttpMethod::from_str("Post"), Ok(HttpMethod::Post)));
    let err = HttpMethod::from_str("PUT").unwrap_err();
    assert_eq!(err.code, 400);
    assert_eq!(err.detail, String::from("Unsupported HTTP Method"));
}

#[test]
fn test_version_from_str() {
    assert!(matches!(
        HttpVersion::from_str("HTTP/1.1"),
        Ok(HttpVersion::V1_1)
    ));
    assert!(matches!(HttpVersion::from_str("HTTP/3"), Ok(HttpVersion::V3)));
    let err = HttpVersion::from_str("HTTP/9.9").unwrap_err();
    assert_eq!(err.code, 400);
    assert_eq!(err.detail, String::from("Unsupported HTTP Version"));
}

#[test]
fn test_parse_into_request_collects_everything() {
    let request: HttpRequest = parse_into_request(String::from(
        "GET /echo/abc HTTP/1.1\r\nHost: localhost:4221\r\nAccept: */*\r\n\r\n",
    ))
    .unwrap();
    assert_eq!(request.get_method(), HttpMethod::Get);
    assert_eq!(request.get_path(), String::from("/echo/abc"));
    assert_eq!(
        request.get_header("Host"),
        Some(String::from("localhost:4221"))
    );
    assert_eq!(request.get_header("Accept"), Some(String::from("*/*")));
    assert_eq!(request.get_header("Missing"), None);
    assert_eq!(request.get_body(), String::from(""));
}

#[test]
fn test_request_header_last_write_wins() {
    let mut request = <HttpRequest as Request>::new();
    request.set_header("X-Tag", "one");
    request.set_header("X-Tag", "two");
    assert_eq!(request.get_header("X-Tag"), Some(String::from("two")));
}

#[test]
fn test_response_headers_keep_insertion_order() {
    let mut response = <HttpResponse as Response>::new();
    response.set_status_code(200);
    response.set_header("A", "1");
    response.set_header("B", "2");
    response.set_header("A", "3");
    assert_eq!(
        serialize_into_response(&response),
        String::from("HTTP/1.1 200 OK\r\nContent-Length: 0\r\nA: 3\r\nB: 2\r\n\r\n")
    );
}

#[test]
fn test_get_bind() {
    let app = demo_app();
    assert_eq!(app.get_bind(), String::from("127.0.0.1:4221"));
}

#[test]
fn test_plaintext_response() {
    let response = HttpResponse::plaintext_response(String::from("hi"));
    assert_eq!(response.get_status_code(), None);
    assert_eq!(response.get_body(), String::from("hi"));
    assert_eq!(
        response.get_header("Content-Type"),
        Some(String::from("text/plain"))
    );
}

struct RejectAll;

impl RequestMiddleware<HttpRequest, HttpResponse> for RejectAll {
    fn on_request(
        &self,
        _ctx: RequestContext<HttpRequest, HttpResponse>,
    ) -> Result<RequestContext<HttpRequest, HttpResponse>, ServerError> {
        Err(StdServerError::Unauthorized.to_error())
    }

    fn on_response(
        &self,
        ctx: RequestContext<HttpRequest, HttpResponse>,
    ) -> Result<RequestContext<HttpRequest, HttpResponse>, ServerError> {
        Ok(ctx)
    }
}

#[test]
fn test_middleware_short_circuits() {
    let cfg = ServerConfig {
        address: String::from("127.0.0.1"),
        port: 4221,
    };
    let router = Router::new(vec![Route::new(
        String::from("/"),
        DemoHandler::Root,
        vec![HttpMethod::Get],
    )]);
    let app = Application::new(cfg, router, Some(vec![RejectAll]));
    let err = app.handle(String::from("GET / HTTP/1.1\r\n\r\n")).unwrap_err();
    assert_eq!(err.get_status_code(), 401);
}

#[test]
fn test_no_middleware_passes_through() {
    let cfg = ServerConfig {
        address: String::from("127.0.0.1"),
        port: 4221,
    };
    let router = Router::new(vec![Route::new(
        String::from("/"),
        DemoHandler::Root,
        vec![HttpMethod::Get],
    )]);
    let app: Application<DemoHandler, NoMiddleware> =
        Application::new(cfg, router, Some(vec![NoMiddleware]));
    let ctx = app.handle(String::from("GET / HTTP/1.1\r\n\r\n")).unwrap();
    assert_eq!(ctx.get_response().get_status_code(), Some(200));
}

#[test]
fn test_echo_route_missing_param() {
    let ctx: RequestContext<HttpRequest, HttpResponse> = RequestContext::new();
    let err = httpcore::handlers::echo_route(ctx).unwrap_err();
    assert_eq!(err.get_status_code(), 400);
    assert_eq!(err.get_detail(), String::from("Missing parameter {str}"));
}

#[test]
fn test_user_agent_route_missing_header() {
    let ctx: RequestContext<HttpRequest, HttpResponse> = RequestContext::new();
    let err = httpcore::handlers::user_agent_route(ctx).unwrap_err();
    assert_eq!(err.get_status_code(), 400);
    assert_eq!(err.get_detail(), String::from("Missing User-Agent header"));
}

#[test]
fn test_end_to_end_serialized_echo() {
    let app = demo_app();
    let raw = String::from("GET /echo/abc HTTP/1.1\r\nHost: x\r\n\r\n");
    let out = match app.handle(raw) {
        Ok(ctx) => serialize_into_response(ctx.get_response()),
        Err(e) => serialize_error_into_response(e),
    };
    assert_eq!(
        out,
        String::from("HTTP/1.1 200 OK\r\nContent-Length: 3\r\nContent-Type: text/plain\r\n\r\nabc")
    );
}
