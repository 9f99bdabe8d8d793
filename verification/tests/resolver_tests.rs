use tailcall::blueprint::DirectiveDefinition;
use tailcall::data_loader::LoadResult;
use tailcall::data_loader::RequestContext;
use tailcall::http::Response;
use tailcall::into_schema::FieldResolver;
use tailcall::into_schema::SchemaField;
use tailcall::into_schema::TypeRef;
use tailcall::lambda::evaluate_outcome;
use tailcall::lambda::EvaluationContext;
use tailcall::lambda::ResolutionError;
use tailcall::resolver::prepare_eval_context;
use tailcall::resolver::resolve_field;
use tailcall::resolver::FieldPlan;
use tailcall::value::Value;

fn parent_object() -> Value {
    Value::Object(vec![
        ("id".to_string(), Value::Number(1)),
        ("name".to_string(), Value::Str("x".to_string())),
    ])
}

fn projection_field(name: &str) -> SchemaField {
    SchemaField {
        name: name.to_string(),
        of_type: TypeRef::Named("Int".to_string()),
        args: Vec::new(),
        resolver: FieldResolver::Projection,
    }
}

#[test]
fn projection_returns_the_stored_value() {
    let parent = parent_object();
    match parent.get_key(&"id".to_string()) {
        Some(v) => assert_eq!(*v, Value::Number(1)),
        None => panic!("the key is present"),
    }
}

#[test]
fn projection_of_a_missing_key_is_null_not_an_error() {
    let parent = parent_object();
    assert!(parent.get_key(&"age".to_string()).is_none());
}

#[test]
fn projection_on_a_non_keyed_parent_is_null_not_an_error() {
    assert!(Value::Number(3).get_key(&"id".to_string()).is_none());
    assert!(Value::Null.get_key(&"id".to_string()).is_none());
    assert!(Value::List(vec![Value::Number(1)]).get_key(&"id".to_string()).is_none());
}

#[test]
fn projection_takes_the_first_of_equal_keys() {
    let parent = Value::Object(vec![
        ("id".to_string(), Value::Number(1)),
        ("id".to_string(), Value::Number(2)),
    ]);
    match parent.get_key(&"id".to_string()) {
        Some(v) => assert_eq!(*v, Value::Number(1)),
        None => panic!("the key is present"),
    }
}

#[test]
fn a_selection_without_resolvers_makes_no_upstream_calls() {
    // A field with no resolver expression, selected against the parent
    // value {"id": 1, "name": "x"}, returns 1 for id and "x" for name
    // with no upstream calls at all.
    let ctx = RequestContext::new(Vec::new());
    let parent = parent_object();
    match resolve_field(&projection_field("id"), &parent) {
        FieldPlan::Resolved(Some(v)) => assert_eq!(*v, Value::Number(1)),
        other => panic!("expected the stored value, got {:?}", other),
    }
    match resolve_field(&projection_field("name"), &parent) {
        FieldPlan::Resolved(Some(v)) => assert_eq!(*v, Value::Str("x".to_string())),
        other => panic!("expected the stored value, got {:?}", other),
    }
    assert_eq!(ctx.cache.len(), 0);
}

#[test]
fn a_success_status_yields_the_decoded_body() {
    let outcome = LoadResult::Success(Response {
        status: 200,
        headers: Vec::new(),
        body: Value::Str("pong".to_string()),
    });
    match evaluate_outcome(&outcome) {
        Ok(v) => assert_eq!(*v, Value::Str("pong".to_string())),
        Err(e) => panic!("expected the body, got {:?}", e),
    }
}

#[test]
fn an_error_status_yields_a_status_error() {
    let outcome = LoadResult::Success(Response {
        status: 500,
        headers: Vec::new(),
        body: Value::Null,
    });
    match evaluate_outcome(&outcome) {
        Err(ResolutionError::UpstreamStatus(s)) => assert_eq!(s, 500),
        other => panic!("expected a status error, got {:?}", other),
    }
}

#[test]
fn a_transport_fault_yields_a_transport_error() {
    let outcome = LoadResult::Fault("timed out".to_string());
    match evaluate_outcome(&outcome) {
        Err(ResolutionError::Transport(m)) => assert_eq!(m, "timed out"),
        other => panic!("expected a transport error, got {:?}", other),
    }
}

#[test]
fn the_evaluation_environment_prefers_merged_entries() {
    let req = RequestContext::new(vec![("stage".to_string(), "prod".to_string())]);
    let parent = Value::Null;
    let args: Vec<(String, Value)> = Vec::new();
    let ctx = EvaluationContext::new(&req)
        .context(&parent, &args)
        .env(vec![("stage".to_string(), "test".to_string())]);
    match ctx.get_env(&"stage".to_string()) {
        Some(v) => assert_eq!(v, "test"),
        None => panic!("the entry is present"),
    }
}

#[test]
fn the_field_context_merges_the_first_directive_arguments() {
    let req = RequestContext::new(vec![("base".to_string(), "http://u".to_string())]);
    let directives = vec![
        DirectiveDefinition {
            name: "server".to_string(),
            arguments: vec![("timeout".to_string(), "30".to_string())],
        },
        DirectiveDefinition {
            name: "upstream".to_string(),
            arguments: vec![("retries".to_string(), "2".to_string())],
        },
    ];
    let parent = Value::Null;
    let args: Vec<(String, Value)> = Vec::new();
    let ctx = prepare_eval_context(&req, &directives, &parent, &args);
    // Only the first declared directive's arguments are merged, before the
    // request-level entries.
    assert_eq!(ctx.get_env(&"timeout".to_string()), Some(&"30".to_string()));
    assert_eq!(ctx.get_env(&"base".to_string()), Some(&"http://u".to_string()));
    assert_eq!(ctx.get_env(&"retries".to_string()), None);
}
