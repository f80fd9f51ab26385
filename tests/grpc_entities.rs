use server_harness::collect::{Collector, DefaultCollector};
use server_harness::grpc::{
    frame, path_of, unframe, CollectedRequest, Echo, GrpcRun, Handler, Message, Method, RequestContext,
    ScenarioBuilder, Service, Status,
};

#[test]
fn execution_result_test_collected_request_new() {
    let req = CollectedRequest::new("UserService", "GetUser", Message::new(vec![1, 2, 3]));
    assert_eq!(req.service, "UserService");
    assert_eq!(req.method, "GetUser");
    assert_eq!(req.message.data, vec![1, 2, 3]);
}

#[test]
fn test_handler_new() {
    let msg = Message::new(vec![1, 2, 3]);
    let handler: Handler = Handler::new(msg);
    assert!(matches!(handler, Handler::Static(_)));
}

#[test]
fn test_handler_from_bytes() {
    let handler: Handler = Handler::from_bytes(vec![4, 5, 6]);
    let ctx = RequestContext::new("Svc", "Method", Message::empty());
    assert_eq!(handler.respond(&ctx).data, vec![4, 5, 6]);
}

#[test]
fn test_handler_into_response() {
    let handler: Handler = Handler::from_bytes(vec![1, 2, 3]);
    let msg = handler.into_response();
    assert_eq!(msg.data, vec![1, 2, 3]);
}

#[test]
fn test_handler_from_message() {
    let msg = Message::new(vec![7, 8, 9]);
    let handler: Handler = msg.into();
    let ctx = RequestContext::new("Svc", "Method", Message::empty());
    assert_eq!(handler.respond(&ctx).data, vec![7, 8, 9]);
}

#[test]
fn handler_test_dynamic_handler() {
    let handler = Handler::dynamic(|ctx: &RequestContext| {
        let mut response = vec![0xFF];
        response.extend_from_slice(&ctx.message.data);
        Message::new(response)
    });

    let ctx = RequestContext::new("TestService", "TestMethod", Message::new(vec![1, 2, 3]));
    let response = handler.respond(&ctx);
    assert_eq!(response.data, vec![0xFF, 1, 2, 3]);
}

#[test]
fn handler_test_dynamic_handler_based_on_method() {
    let handler = Handler::dynamic(|ctx: &RequestContext| match ctx.method.as_str() {
        "GetUser" => Message::new(vec![1, 0, 0]),
        "CreateUser" => Message::new(vec![2, 0, 0]),
        _ => Message::new(vec![0, 0, 0]),
    });

    let ctx1 = RequestContext::new("UserService", "GetUser", Message::empty());
    assert_eq!(handler.respond(&ctx1).data, vec![1, 0, 0]);

    let ctx2 = RequestContext::new("UserService", "CreateUser", Message::empty());
    assert_eq!(handler.respond(&ctx2).data, vec![2, 0, 0]);
}

#[test]
fn test_message_new() {
    let msg = Message::new(vec![1, 2, 3]);
    assert_eq!(msg.data, vec![1, 2, 3]);
}

#[test]
fn test_message_empty() {
    let msg = Message::empty();
    assert!(msg.is_empty());
}

#[test]
fn test_message_from_vec() {
    let msg: Message = vec![1, 2, 3].into();
    assert_eq!(msg.data, vec![1, 2, 3]);
}

#[test]
fn test_message_into_vec() {
    let msg = Message::new(vec![1, 2, 3]);
    let data: Vec<u8> = msg.into();
    assert_eq!(data, vec![1, 2, 3]);
}

#[test]
fn test_method_new() {
    let method: Method = Method::new("GetUser");
    assert_eq!(method.name, "GetUser");
    assert!(method.handlers.is_empty());
}

#[test]
fn test_method_with_handler() {
    let method: Method = Method::new("GetUser").with_handler(Handler::from_bytes(vec![1, 2, 3]));
    assert_eq!(method.handlers.len(), 1);
}

#[test]
fn test_method_with_multiple_handlers() {
    let method: Method = Method::new("GetUser")
        .with_handler(Handler::from_bytes(vec![1]))
        .with_handler(Handler::from_bytes(vec![2]))
        .with_handler(Handler::from_bytes(vec![3]));
    assert_eq!(method.handlers.len(), 3);
}

#[test]
fn test_service_new() {
    let service: Service = Service::new("my.package.UserService");
    assert_eq!(service.name, "my.package.UserService");
    assert!(service.methods.is_empty());
}

#[test]
fn test_service_with_method() {
    let service: Service = Service::new("my.package.UserService").with_method(Method::new("GetUser"));
    assert_eq!(service.methods.len(), 1);
}

#[test]
fn test_service_with_multiple_methods() {
    let service: Service = Service::new("my.package.UserService")
        .with_method(Method::new("GetUser"))
        .with_method(Method::new("CreateUser"))
        .with_method(Method::new("DeleteUser"));
    assert_eq!(service.methods.len(), 3);
}

#[test]
fn create_scenario_test_scenario_builder() {
    let _builder: ScenarioBuilder = ScenarioBuilder::new();
}

#[test]
fn test_scenario_builder_with_service() {
    let _builder: ScenarioBuilder = ScenarioBuilder::new().service(Service::new("my.package.MyService"));
}

#[test]
fn test_scenario_builder_with_multiple_services() {
    let builder: ScenarioBuilder = ScenarioBuilder::new()
        .service(Service::new("my.package.UserService"))
        .service(Service::new("my.package.PostService"));
    assert_eq!(builder.route_count(), 2);
}

#[test]
fn frames_carry_a_big_endian_length() {
    assert_eq!(frame(&[10, 20, 30]), vec![0, 0, 0, 0, 3, 10, 20, 30]);
    assert_eq!(frame(&[]), vec![0, 0, 0, 0, 0]);
    let long = vec![7u8; 300];
    let f = frame(&long);
    assert_eq!(&f[..5], &[0, 0, 0, 1, 44]);
    assert_eq!(f.len(), 305);
}

#[test]
fn unframe_drops_the_five_byte_prefix() {
    assert_eq!(unframe(&[0, 0, 0, 0, 2, 9, 8]), vec![9, 8]);
    assert_eq!(unframe(&[0, 0, 0, 0, 0]), Vec::<u8>::new());
    assert_eq!(unframe(&[1, 2]), Vec::<u8>::new());
}

#[test]
fn path_of_joins_service_and_method() {
    assert_eq!(path_of("test.Service", "Call"), "/test.Service/Call");
}

#[test]
fn echo_answers_with_the_payload() {
    let ctx = RequestContext::new("test.EchoService", "Echo", Message::new(vec![5, 6]));
    let handler = Handler::dynamic(Echo::new(vec![]));
    assert_eq!(handler.respond(&ctx).data, vec![5, 6]);
    assert_eq!(handler.respond(&ctx).data, handler.respond(&ctx).data);
    let prefixed = Handler::dynamic(Echo::new(vec![0xFF]));
    let ctx = RequestContext::new("TestService", "TestMethod", Message::new(vec![1, 2, 3]));
    assert_eq!(prefixed.respond(&ctx).data, vec![0xFF, 1, 2, 3]);
}

#[test]
fn echo_run_round_trip() {
    let services = vec![Service::new("test.EchoService")
        .with_method(Method::new("Echo").with_handler(Handler::dynamic(Echo::new(vec![0xEE]))))];
    let mut run = GrpcRun::start(services).unwrap();
    let mut collector = DefaultCollector::new();
    let reply = run.handle(&mut collector, "/test.EchoService/Echo", &[0, 0, 0, 0, 3, 1, 2, 3]);
    assert_eq!(reply.status, Status::Success);
    assert_eq!(reply.body, vec![0, 0, 0, 0, 4, 0xEE, 1, 2, 3]);
    assert!(reply.fires);
    assert_eq!(collector.into_output().len(), 1);
}

#[test]
fn sequential_handlers_then_last_repeats() {
    let services: Vec<Service> = vec![Service::new("test.Service").with_method(
        Method::new("Call")
            .with_handler(Handler::from_bytes(vec![1]))
            .with_handler(Handler::from_bytes(vec![2]))
            .with_handler(Handler::from_bytes(vec![3])),
    )];
    let mut run = GrpcRun::start(services).unwrap();
    let mut collector = DefaultCollector::new();
    let mut messages = Vec::new();
    for _ in 0..4 {
        let reply = run.handle(&mut collector, "/test.Service/Call", &[0, 0, 0, 0, 0]);
        messages.push(unframe(&reply.body));
    }
    assert_eq!(messages, vec![vec![1], vec![2], vec![3], vec![3]]);
    assert_eq!(collector.into_output().len(), 4);
}

#[test]
fn zero_handler_method_takes_one_call_and_answers_empty() {
    let services: Vec<Service> = vec![Service::new("s").with_method(Method::new("m"))];
    let mut run = GrpcRun::start(services).unwrap();
    let mut collector = DefaultCollector::new();
    let reply = run.handle(&mut collector, "/s/m", &[]);
    assert_eq!(reply.status.code(), 0);
    assert_eq!(reply.body, vec![0, 0, 0, 0, 0]);
    assert!(reply.fires);
    assert_eq!(collector.into_output().len(), 1);
}

#[test]
fn run_collects_only_matched_calls() {
    let service: Service = Service::new("test.Service")
        .with_method(Method::new("Exists").with_handler(Handler::from_bytes(vec![1])));
    let mut run = GrpcRun::start(vec![service]).unwrap();
    let mut collector = DefaultCollector::new();

    let missing = run.handle(&mut collector, "/test.Service/DoesNotExist", &[0, 0, 0, 0, 0]);
    assert_eq!(missing.status, Status::Unimplemented);
    assert_eq!(missing.status.code(), 12);
    assert_eq!(collector.len(), 0);
    assert!(!run.is_complete());

    let hit = run.handle(&mut collector, "/test.Service/Exists", &[0, 0, 0, 0, 2, 4, 2]);
    assert_eq!(hit.status, Status::Success);
    assert_eq!(hit.status.code(), 0);
    assert_eq!(hit.body, vec![0, 0, 0, 0, 1, 1]);
    assert!(hit.fires);
    assert!(run.is_complete());

    let requests = collector.into_requests();
    assert_eq!(requests.len(), 1);
    assert_eq!(requests[0].service, "test.Service");
    assert_eq!(requests[0].method, "Exists");
    assert_eq!(requests[0].message.data, vec![4, 2]);
}

#[test]
fn run_completes_after_each_single_handler_route_is_hit_once() {
    let make = || {
        vec![
            Service::new("test.Service1").with_method(Method::new("Call1").with_handler(Handler::from_bytes(vec![1]))),
            Service::new("test.Service2").with_method(Method::new("Call2").with_handler(Handler::from_bytes(vec![2]))),
        ]
    };
    for order in [["/test.Service1/Call1", "/test.Service2/Call2"], ["/test.Service2/Call2", "/test.Service1/Call1"]] {
        let mut run: GrpcRun<server_harness::respond::Fixed> = GrpcRun::start(make()).unwrap();
        let mut collector = DefaultCollector::new();
        let first = run.handle(&mut collector, order[0], &[]);
        assert!(!first.fires);
        let second = run.handle(&mut collector, order[1], &[]);
        assert!(second.fires);
        assert!(run.is_complete());
    }
}

#[test]
fn run_rejects_repeated_method_path() {
    let services: Vec<Service> = vec![
        Service::new("a.S").with_method(Method::new("M")),
        Service::new("a.S").with_method(Method::new("M")),
    ];
    assert!(GrpcRun::start(services).is_err());
}
