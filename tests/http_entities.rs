use server_harness::collect::{Collector, DefaultCollector};
use server_harness::http::{EchoBody, Endpoint, Handler, HttpRun, Method, Request, Response, ScenarioBuilder};

fn create_test_request(method: Method, path: &str, body: &[u8]) -> Request {
    Request {
        method,
        path: path.to_string(),
        headers: Vec::new(),
        body: body.to_vec(),
    }
}

fn json(text: &str) -> serde_json::Value {
    serde_json::from_str(text).unwrap()
}

#[test]
fn test_endpoint_new() {
    let endpoint: Endpoint = Endpoint::new("/api/test", Method::Get);
    assert_eq!(endpoint.path, "/api/test");
    assert_eq!(endpoint.method, Method::Get);
    assert!(endpoint.handlers.is_empty());
}

#[test]
fn test_endpoint_with_handler() {
    let handler: Handler = Handler::from_json(&json("{}"));
    let endpoint = Endpoint::new("/api/test", Method::Post).with_handler(handler);
    assert_eq!(endpoint.handlers.len(), 1);
}

#[test]
fn test_endpoint_with_multiple_handlers() {
    let endpoint: Endpoint = Endpoint::new("/api/test", Method::Get)
        .with_handler(Handler::from_json(&json(r#"{"first": true}"#)))
        .with_handler(Handler::from_json(&json(r#"{"second": true}"#)));
    assert_eq!(endpoint.handlers.len(), 2);
}

#[test]
fn handler_test_handler_new_http() {
    let response = Response::new(200);
    let handler: Handler = Handler::new(response.clone());
    assert!(matches!(handler, Handler::Static(_)));
}

#[test]
fn test_handler_from_json() {
    let handler: Handler = Handler::from_json(&json(r#"{"test": true}"#));
    let req = create_test_request(Method::Get, "/", &[]);
    let response = handler.respond(&req);
    assert_eq!(response.status, 200);
    assert!(response.header("content-type").unwrap().contains("application/json"));
}

#[test]
fn test_handler_with_status() {
    let handler: Handler = Handler::from_json(&json("{}")).with_status(201);
    let req = create_test_request(Method::Get, "/", &[]);
    assert_eq!(handler.respond(&req).status, 201);
}

#[test]
fn test_handler_from_response() {
    let response = Response::new(404);
    let handler: Handler = response.into();
    let req = create_test_request(Method::Get, "/", &[]);
    assert_eq!(handler.respond(&req).status, 404);
}

#[test]
fn handler_test_dynamic_handler_http() {
    let handler = Handler::dynamic(|req: &Request| {
        let body = format!("You requested: {}", req.path);
        Response::new(200).with_body(body.as_bytes())
    });

    let req = create_test_request(Method::Get, "/api/users", &[]);
    let response = handler.respond(&req);
    assert_eq!(response.status, 200);
    assert!(String::from_utf8_lossy(&response.body).contains("/api/users"));
}

#[test]
fn test_dynamic_handler_with_body() {
    let handler = Handler::dynamic(|req: &Request| {
        if let Some(body_str) = req.body_as_str() {
            if let Ok(value) = serde_json::from_str::<serde_json::Value>(body_str) {
                if let Some(name) = value.get("name").and_then(|v| v.as_str()) {
                    let mut reply = serde_json::Map::new();
                    reply.insert(
                        "message".to_string(),
                        serde_json::Value::String(format!("Hello, {}!", name)),
                    );
                    return Response::new(200).with_json(&serde_json::Value::Object(reply));
                }
            }
        }
        Response::new(400).with_body(b"Invalid request")
    });

    let req = create_test_request(Method::Post, "/greet", b"{\"name\": \"World\"}");
    let response = handler.respond(&req);
    assert_eq!(response.status, 200);
    assert!(String::from_utf8_lossy(&response.body).contains("Hello, World!"));
}

#[test]
fn test_dynamic_handler_based_on_method() {
    let handler = Handler::dynamic(|req: &Request| match req.method {
        Method::Get => Response::new(200).with_body(b"GET response"),
        Method::Post => Response::new(201).with_body(b"POST response"),
        _ => Response::new(405).with_body(b"Method not allowed"),
    });

    let get_req = create_test_request(Method::Get, "/", &[]);
    assert_eq!(handler.respond(&get_req).status, 200);

    let post_req = create_test_request(Method::Post, "/", &[]);
    assert_eq!(handler.respond(&post_req).status, 201);

    let delete_req = create_test_request(Method::Delete, "/", &[]);
    assert_eq!(handler.respond(&delete_req).status, 405);
}

#[test]
fn test_request_body_as_str() {
    let request = Request {
        method: Method::Post,
        path: "/test".to_string(),
        headers: Vec::new(),
        body: b"Hello World".to_vec(),
    };
    assert_eq!(request.body_as_str(), Some("Hello World"));
}

#[test]
fn test_request_body_as_str_invalid_utf8() {
    let request = Request {
        method: Method::Post,
        path: "/test".to_string(),
        headers: Vec::new(),
        body: vec![0xFF, 0xFE],
    };
    assert_eq!(request.body_as_str(), None);
}

#[test]
fn test_request_method_display() {
    assert_eq!(Method::Get.as_str(), "GET");
    assert_eq!(Method::Post.as_str(), "POST");
    assert_eq!(Method::Put.as_str(), "PUT");
    assert_eq!(Method::Delete.as_str(), "DELETE");
}

#[test]
fn test_response_new() {
    let response = Response::new(200);
    assert_eq!(response.status, 200);
    assert!(response.headers.is_empty());
    assert!(response.body.is_empty());
}

#[test]
fn test_response_with_body() {
    let response = Response::new(200).with_body(b"Hello");
    assert_eq!(response.body, b"Hello");
}

#[test]
fn test_response_with_json_body() {
    let response = Response::new(200).with_json(&json(r#"{"key": "value"}"#));
    assert!(response.body.contains(&b"key"[0]));
    assert!(response.header("content-type").unwrap().contains("application/json"));
}

#[test]
fn test_response_with_header() {
    let response = Response::new(200).with_header("X-Custom", "value");
    assert_eq!(response.header("X-Custom").unwrap(), "value");
}

#[test]
fn test_response_ok() {
    let response = Response::ok();
    assert_eq!(response.status, 200);
}

#[test]
fn test_response_created() {
    let response = Response::created();
    assert_eq!(response.status, 201);
}

#[test]
fn test_response_not_found() {
    let response = Response::not_found();
    assert_eq!(response.status, 404);
}

#[test]
fn test_response_internal_error() {
    let response = Response::internal_error();
    assert_eq!(response.status, 500);
}

#[test]
fn test_scenario_builder() {
    let _builder: ScenarioBuilder = ScenarioBuilder::new();
}

#[test]
fn test_scenario_builder_with_endpoint() {
    let _builder: ScenarioBuilder = ScenarioBuilder::new().endpoint(Endpoint::new("/api/test", Method::Get));
}

#[test]
fn test_scenario_builder_with_multiple_endpoints() {
    let builder: ScenarioBuilder = ScenarioBuilder::new()
        .endpoint(Endpoint::new("/api/users", Method::Get))
        .endpoint(Endpoint::new("/api/posts", Method::Get));
    assert_eq!(builder.route_count(), 2);
}

#[test]
fn header_set_twice_keeps_last_value_only() {
    let response = Response::new(200).with_header("X-A", "1").with_header("X-B", "2").with_header("X-A", "3");
    assert_eq!(response.headers.len(), 2);
    assert_eq!(response.header("X-A").unwrap(), "3");
    assert_eq!(response.header("X-B").unwrap(), "2");
    assert!(response.header("x-a").is_none());
}

#[test]
fn request_headers_and_body() {
    let request = Request::new(Method::Put, "/r").with_header("Authorization", "Bearer t").with_body(b"abc");
    assert_eq!(request.header("Authorization").unwrap(), "Bearer t");
    assert_eq!(request.body, b"abc".to_vec());
    assert_eq!(request.path, "/r");
}

#[test]
fn method_from_name_maps_known_verbs_and_defaults_to_get() {
    assert_eq!(Method::from_name("PATCH"), Method::Patch);
    assert_eq!(Method::from_name("OPTIONS"), Method::Options);
    assert_eq!(Method::from_name("HEAD"), Method::Head);
    assert_eq!(Method::from_name("TRACE"), Method::Get);
    assert_eq!(Method::from_name("post"), Method::Get);
}

#[test]
fn json_body_is_the_json_text() {
    let response = Response::new(200).with_json(&json(r#"{"key":"value"}"#));
    assert_eq!(String::from_utf8(response.body).unwrap(), r#"{"key":"value"}"#);
}

#[test]
fn dynamic_handler_does_not_take_status_or_header() {
    let handler = Handler::dynamic(|_req: &Request| Response::new(202))
        .with_status(500)
        .with_header("X", "y");
    let req = create_test_request(Method::Get, "/", &[]);
    assert_eq!(handler.respond(&req).status, 202);
    assert_eq!(handler.response().status, 200);
}

#[test]
fn run_answers_handlers_in_turn_then_repeats_the_last() {
    let endpoint: Endpoint = Endpoint::new("/api/token", Method::Post)
        .with_handler(Handler::new(Response::new(200).with_body(b"first")))
        .with_handler(Handler::new(Response::new(200).with_body(b"second")))
        .with_handler(Handler::new(Response::new(200).with_body(b"third")));
    let (mut run, keys) = HttpRun::start(vec![endpoint]).unwrap();
    assert_eq!(keys.len(), 1);
    assert_eq!(keys[0].0, "/api/token");
    assert_eq!(keys[0].1, Method::Post);
    let mut collector = DefaultCollector::new();
    let mut bodies = Vec::new();
    let mut fired = Vec::new();
    for _ in 0..4 {
        let reply = run.handle(&mut collector, 0, Request::new(Method::Post, "/api/token"));
        bodies.push(String::from_utf8(reply.response.body).unwrap());
        fired.push(reply.fires);
    }
    assert_eq!(bodies, vec!["first", "second", "third", "third"]);
    assert_eq!(fired, vec![false, false, true, false]);
    assert!(run.is_complete());
    assert_eq!(collector.len(), 4);
}

#[test]
fn run_without_handlers_answers_not_found_and_completes() {
    let endpoint: Endpoint = Endpoint::new("/empty", Method::Get);
    let (mut run, _keys) = HttpRun::start(vec![endpoint]).unwrap();
    assert!(!run.is_complete());
    let mut collector = DefaultCollector::new();
    let reply = run.handle(&mut collector, 0, Request::new(Method::Get, "/empty"));
    assert_eq!(reply.response.status, 404);
    assert_eq!(reply.response.body, b"No handler configured".to_vec());
    assert!(reply.fires);
    assert!(run.is_complete());
}

#[test]
fn run_rejects_repeated_path_and_verb() {
    let a: Endpoint = Endpoint::new("/x", Method::Get);
    let b: Endpoint = Endpoint::new("/x", Method::Get);
    let c: Endpoint = Endpoint::new("/x", Method::Post);
    assert!(HttpRun::start(vec![a.clone(), b]).is_err());
    assert!(HttpRun::start(vec![a, c]).is_ok());
}

#[test]
fn echo_body_answers_with_the_request_body() {
    let handler = Handler::dynamic(EchoBody { status: 201 });
    let req = create_test_request(Method::Post, "/echo", b"{\"message\": \"hello\"}");
    let response = handler.respond(&req);
    assert_eq!(response.status, 201);
    assert_eq!(response.body, req.body);
}

#[test]
fn zero_handler_endpoint_records_one_request() {
    let (mut run, _keys) = HttpRun::start(vec![Endpoint::<server_harness::respond::Fixed>::new("/p", Method::Get)]).unwrap();
    let mut collector = DefaultCollector::new();
    let reply = run.handle(&mut collector, 0, Request::new(Method::Get, "/p"));
    assert!(reply.fires);
    let out = collector.into_output();
    assert_eq!(out.len(), 1);
    assert_eq!(out[0].path, "/p");
}
