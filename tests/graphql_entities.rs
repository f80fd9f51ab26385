use server_harness::collect::{Collector, DefaultCollector};
use server_harness::graphql::{
    kind_of_query, CollectedRequest, Field, GraphqlRun, Handler, HandlerResponse, Operation, OperationType,
    RequestContext, ScenarioBuilder,
};

fn value_of(text: &str) -> serde_json::Value {
    serde_json::from_str(text).unwrap()
}

#[test]
fn collected_request_test_collected_request_new() {
    let req = CollectedRequest::new("query { users { id } }");
    assert_eq!(req.query, "query { users { id } }");
    assert!(req.operation_name.is_none());
    assert!(req.variables.is_none());
}

#[test]
fn test_collected_request_with_operation_name() {
    let req = CollectedRequest::new("query GetUsers { users { id } }").with_operation_name("GetUsers");
    assert_eq!(req.operation_name, Some("GetUsers".to_string()));
}

#[test]
fn test_collected_request_with_variables() {
    let req = CollectedRequest::new("query ($id: ID!) { user(id: $id) { name } }")
        .with_variables(value_of(r#"{"id": "123"}"#));
    assert_eq!(req.variables, Some(value_of(r#"{"id": "123"}"#)));
}

#[test]
fn test_field_new() {
    let field: Field = Field::new("users");
    assert_eq!(field.name, "users");
    assert!(field.handlers.is_empty());
}

#[test]
fn test_field_with_handler() {
    let field: Field = Field::new("users").with_handler(Handler::new(value_of("[]")));
    assert_eq!(field.handlers.len(), 1);
}

#[test]
fn test_field_with_multiple_handlers() {
    let field: Field = Field::new("user")
        .with_handler(Handler::new(value_of(r#"{"id": 1}"#)))
        .with_handler(Handler::new(value_of(r#"{"id": 2}"#)));
    assert_eq!(field.handlers.len(), 2);
}

#[test]
fn handler_test_handler_new() {
    let handler: Handler = Handler::new(value_of(r#"{"users": []}"#));
    let ctx = RequestContext::new("users");
    assert_eq!(handler.respond(&ctx).data, value_of(r#"{"users": []}"#));
}

#[test]
fn test_handler_with_error() {
    let handler: Handler = Handler::new(value_of("null")).with_error("Something went wrong");
    let ctx = RequestContext::new("test");
    let response = handler.respond(&ctx);
    let errors = response.errors.unwrap();
    assert_eq!(errors.len(), 1);
    assert_eq!(errors[0].message, "Something went wrong");
}

#[test]
fn test_handler_with_error_at_path() {
    let handler: Handler = Handler::new(value_of("null"))
        .with_error_at_path("Field not found", vec!["user".to_string(), "name".to_string()]);
    let ctx = RequestContext::new("test");
    let response = handler.respond(&ctx);
    let errors = response.errors.unwrap();
    assert_eq!(errors[0].path, Some(vec!["user".to_string(), "name".to_string()]));
}

#[test]
fn errors_keep_earlier_paths() {
    let handler: Handler = Handler::new(value_of("null"))
        .with_error_at_path("first", vec!["a".to_string()])
        .with_error("second")
        .with_error_at_path("third", vec!["b".to_string(), "c".to_string()]);
    let errors = handler.respond(&RequestContext::new("f")).errors.unwrap();
    assert_eq!(errors.len(), 3);
    assert_eq!(errors[0].message, "first");
    assert_eq!(errors[0].path, Some(vec!["a".to_string()]));
    assert_eq!(errors[1].message, "second");
    assert_eq!(errors[1].path, None);
    assert_eq!(errors[2].path, Some(vec!["b".to_string(), "c".to_string()]));
}

#[test]
fn test_handler_from_value() {
    let value = value_of(r#"{"test": true}"#);
    let handler: Handler = value.into();
    let ctx = RequestContext::new("test");
    assert_eq!(handler.respond(&ctx).data, value_of(r#"{"test": true}"#));
}

#[test]
fn test_dynamic_handler() {
    let handler = Handler::dynamic(|ctx: &RequestContext| {
        let mut data = serde_json::Map::new();
        data.insert("field".to_string(), serde_json::Value::String(ctx.field_name.clone()));
        data.insert("query".to_string(), serde_json::Value::String(ctx.query.clone()));
        HandlerResponse::new(serde_json::Value::Object(data))
    });

    let ctx = RequestContext::new("users").with_query("query { users { id } }");
    let response = handler.respond(&ctx);
    assert_eq!(response.data["field"], "users");
    assert!(response.data["query"].as_str().unwrap().contains("users"));
}

#[test]
fn test_dynamic_handler_with_variables() {
    let handler = Handler::dynamic(|ctx: &RequestContext| {
        let id = ctx.get_variable("id").and_then(|v| v.as_str()).unwrap_or("unknown");
        let mut user = serde_json::Map::new();
        user.insert("id".to_string(), serde_json::Value::String(id.to_string()));
        user.insert("name".to_string(), serde_json::Value::String(format!("User {}", id)));
        let mut data = serde_json::Map::new();
        data.insert("user".to_string(), serde_json::Value::Object(user));
        HandlerResponse::new(serde_json::Value::Object(data))
    });

    let ctx = RequestContext::new("user").with_variables(value_of(r#"{"id": "123"}"#));
    let response = handler.respond(&ctx);
    assert_eq!(response.data["user"]["id"], "123");
    assert_eq!(response.data["user"]["name"], "User 123");
}

#[test]
fn test_operation_query() {
    let op: Operation = Operation::query();
    assert_eq!(op.operation_type, OperationType::Query);
    assert!(op.fields.is_empty());
}

#[test]
fn test_operation_mutation() {
    let op: Operation = Operation::mutation();
    assert_eq!(op.operation_type, OperationType::Mutation);
}

#[test]
fn test_operation_subscription() {
    let op: Operation = Operation::subscription();
    assert_eq!(op.operation_type, OperationType::Subscription);
}

#[test]
fn test_operation_with_field() {
    let op: Operation = Operation::query().with_field(Field::new("users"));
    assert_eq!(op.fields.len(), 1);
}

#[test]
fn test_operation_type_display() {
    assert_eq!(OperationType::Query.as_str(), "query");
    assert_eq!(OperationType::Mutation.as_str(), "mutation");
    assert_eq!(OperationType::Subscription.as_str(), "subscription");
}

#[test]
fn test_scenario_builder_new() {
    let builder: ScenarioBuilder = ScenarioBuilder::new();
    assert_eq!(builder.route_count(), 0);
}

#[test]
fn test_scenario_builder_with_operation() {
    let builder: ScenarioBuilder = ScenarioBuilder::new().operation(Operation::query());
    assert_eq!(builder.route_count(), 1);
}

#[test]
fn test_scenario_builder_with_multiple_operations() {
    let builder: ScenarioBuilder = ScenarioBuilder::new().operation(Operation::query()).operation(Operation::mutation());
    assert_eq!(builder.route_count(), 2);
}

#[test]
fn query_kind_follows_the_leading_keyword() {
    assert_eq!(kind_of_query("  \n mutation { createUser { id } }"), OperationType::Mutation);
    assert_eq!(kind_of_query("query { users { id } }"), OperationType::Query);
    assert_eq!(kind_of_query("{ users }"), OperationType::Query);
    assert_eq!(kind_of_query("mutatio { x }"), OperationType::Query);
}

#[test]
fn get_variable_reads_only_given_variables() {
    let ctx = RequestContext::new("user");
    assert!(ctx.get_variable("id").is_none());
    let ctx = ctx.with_variables(value_of(r#"{"id": "7"}"#));
    assert_eq!(ctx.get_variable("id").unwrap(), "7");
    assert!(ctx.get_variable("other").is_none());
}

#[test]
fn run_answers_reached_fields_and_completes() {
    let ops: Vec<Operation> = vec![
        Operation::query()
            .with_field(Field::new("users").with_handler(Handler::new(value_of(r#"{"users": []}"#))))
            .with_field(Field::new("posts").with_handler(Handler::new(value_of(r#"{"posts": []}"#)))),
        Operation::mutation().with_field(Field::new("createUser").with_handler(Handler::new(value_of("1")))),
        Operation::subscription().with_field(Field::new("events")),
    ];
    let mut run = GraphqlRun::start(ops).unwrap();
    let mut collector = DefaultCollector::new();

    let none = run.handle(&mut collector, "query { nothing }", None, None);
    assert!(none.answers.is_empty());
    assert_eq!(collector.len(), 0);

    let first = run.handle(&mut collector, "query { users { id } }", Some("Q".to_string()), None);
    assert_eq!(first.answers.len(), 1);
    assert_eq!(first.answers[0].field, "users");
    assert_eq!(first.answers[0].response.as_ref().unwrap().data, value_of(r#"{"users": []}"#));
    assert!(!first.fires);

    let second = run.handle(&mut collector, "mutation { createUser { id } }", None, None);
    assert_eq!(second.answers.len(), 1);
    assert_eq!(second.answers[0].field, "createUser");
    assert!(!second.fires);

    let third = run.handle(&mut collector, "query { posts { id } users { id } }", None, None);
    assert_eq!(third.answers.len(), 2);
    assert!(third.fires);
    assert!(run.is_complete());

    let requests = collector.into_requests();
    assert_eq!(requests.len(), 3);
    assert_eq!(requests[0].operation_name, Some("Q".to_string()));
}
