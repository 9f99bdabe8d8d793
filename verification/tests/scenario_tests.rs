//! End-to-end scenarios: the test plays the external GraphQL execution
//! library, walking a selection against the compiled schema and calling
//! the library's resolver, loader and evaluator functions.

use tailcall::blueprint::Blueprint;
use tailcall::blueprint::Definition;
use tailcall::blueprint::Expression;
use tailcall::blueprint::FieldDefinition;
use tailcall::blueprint::ObjectTypeDefinition;
use tailcall::blueprint::SchemaDefinition;
use tailcall::blueprint::Type;
use tailcall::data_loader::LoadAction;
use tailcall::data_loader::LoadEntry;
use tailcall::data_loader::LoadResult;
use tailcall::data_loader::RequestContext;
use tailcall::http::Method;
use tailcall::http::RequestDescriptor;
use tailcall::http::Response;
use tailcall::into_schema::create;
use tailcall::into_schema::Schema;
use tailcall::into_schema::FieldResolver;
use tailcall::into_schema::SchemaField;
use tailcall::into_schema::SchemaType;
use tailcall::lambda::evaluate_outcome;
use tailcall::resolver::resolve_field;
use tailcall::resolver::FieldPlan;
use tailcall::value::Value;

fn get_descriptor(url: &str) -> RequestDescriptor {
    RequestDescriptor {
        method: Method::Get,
        url: url.to_string(),
        headers: Vec::new(),
        body: None,
    }
}

fn http_field(name: &str, result_type: &str, url: &str) -> FieldDefinition {
    FieldDefinition {
        name: name.to_string(),
        of_type: Type::NamedType { name: result_type.to_string(), non_null: false },
        args: Vec::new(),
        resolver: Some(Expression::Http(get_descriptor(url))),
    }
}

fn compile_query_schema(fields: Vec<FieldDefinition>) -> Schema {
    let bp = Blueprint {
        definitions: vec![Definition::ObjectTypeDefinition(ObjectTypeDefinition {
            name: "Query".to_string(),
            fields,
            implements: Vec::new(),
        })],
        schema: SchemaDefinition {
            query: "Query".to_string(),
            mutation: None,
            directives: Vec::new(),
        },
    };
    create(bp).finish().expect("the schema is consistent")
}

fn query_field<'a>(schema: &'a Schema, name: &str) -> &'a SchemaField {
    for t in &schema.types {
        if let SchemaType::Object(o) = t {
            if o.name == "Query" {
                for f in &o.fields {
                    if f.name == name {
                        return f;
                    }
                }
            }
        }
    }
    panic!("the field is declared");
}

fn field_descriptor(f: &SchemaField) -> &RequestDescriptor {
    match &f.resolver {
        FieldResolver::Expression(Expression::Http(d)) => d,
        FieldResolver::Projection => panic!("the field carries a resolver expression"),
    }
}

fn user_body() -> Value {
    Value::Object(vec![
        ("id".to_string(), Value::Number(1)),
        ("name".to_string(), Value::Str("Leanne".to_string())),
    ])
}

/// Simulated upstream: answer a dispatched call by URL.
fn upstream(d: &RequestDescriptor) -> LoadResult {
    if d.url == "http://upstream/users/1" {
        LoadResult::Success(Response { status: 200, headers: Vec::new(), body: user_body() })
    } else if d.url == "http://upstream/broken" {
        LoadResult::Success(Response { status: 500, headers: Vec::new(), body: Value::Null })
    } else {
        LoadResult::Fault("unknown host".to_string())
    }
}

/// Drive one selected field to a settled loader entry, counting outbound
/// calls.
fn drive_field(ctx: &mut RequestContext, field: &SchemaField, parent: &Value, calls: &mut u32) {
    match resolve_field(field, parent) {
        FieldPlan::Resolved(_) => {}
        FieldPlan::Evaluate(expr) => {
            let d = expr.descriptor();
            if matches!(ctx.begin_load(d), LoadAction::Dispatch) {
                *calls += 1;
                let outcome = upstream(d);
                ctx.complete_load(d, outcome);
            }
        }
    }
}

#[test]
fn scenario_single_resolver_field_makes_one_call_and_maps_the_body() {
    let schema = compile_query_schema(vec![http_field(
        "Hello_World",
        "User",
        "http://upstream/users/1",
    )]);
    let field = query_field(&schema, "Hello_World");
    let mut ctx = RequestContext::new(Vec::new());
    let parent = Value::Null;
    let mut calls = 0;
    drive_field(&mut ctx, field, &parent, &mut calls);
    assert_eq!(calls, 1);
    let entry = ctx.poll(field_descriptor(field)).expect("the entry is settled");
    match entry {
        LoadEntry::Done(outcome) => match evaluate_outcome(outcome) {
            Ok(v) => assert_eq!(*v, user_body()),
            Err(e) => panic!("expected the mapped body, got {:?}", e),
        },
        LoadEntry::InFlight => panic!("the call was completed"),
    }
}

#[test]
fn scenario_two_aliases_of_one_field_make_one_call_and_agree() {
    let schema = compile_query_schema(vec![http_field(
        "Hello_World",
        "User",
        "http://upstream/users/1",
    )]);
    let field = query_field(&schema, "Hello_World");
    let mut ctx = RequestContext::new(Vec::new());
    let parent = Value::Null;
    let mut calls = 0;
    // The query selects the same resolver-backed field twice via aliases.
    drive_field(&mut ctx, field, &parent, &mut calls);
    drive_field(&mut ctx, field, &parent, &mut calls);
    assert_eq!(calls, 1);
    let d = field_descriptor(field);
    let first = match ctx.poll(d).expect("settled") {
        LoadEntry::Done(outcome) => evaluate_outcome(outcome).expect("the call succeeded"),
        LoadEntry::InFlight => panic!("the call was completed"),
    };
    let second = match ctx.poll(d).expect("settled") {
        LoadEntry::Done(outcome) => evaluate_outcome(outcome).expect("the call succeeded"),
        LoadEntry::InFlight => panic!("the call was completed"),
    };
    assert_eq!(*first, *second);
    assert_eq!(*first, user_body());
}

#[test]
fn scenario_an_upstream_500_fails_the_field_and_spares_its_sibling() {
    let schema = compile_query_schema(vec![
        http_field("broken", "User", "http://upstream/broken"),
        http_field("healthy", "User", "http://upstream/users/1"),
    ]);
    let mut ctx = RequestContext::new(Vec::new());
    let parent = Value::Null;
    let mut calls = 0;
    let broken = query_field(&schema, "broken");
    let healthy = query_field(&schema, "healthy");
    drive_field(&mut ctx, broken, &parent, &mut calls);
    drive_field(&mut ctx, healthy, &parent, &mut calls);
    assert_eq!(calls, 2);

    // The surrounding executor collects data and errors with field paths.
    let mut errors: Vec<(Vec<String>, String)> = Vec::new();
    let mut data_fields: Vec<String> = Vec::new();
    for field in [broken, healthy] {
        let entry = ctx.poll(field_descriptor(field)).expect("settled");
        match entry {
            LoadEntry::Done(outcome) => match evaluate_outcome(outcome) {
                Ok(_) => data_fields.push(field.name.clone()),
                Err(e) => errors.push((vec![field.name.clone()], e.message())),
            },
            LoadEntry::InFlight => panic!("the call was completed"),
        }
    }
    assert_eq!(errors.len(), 1);
    assert_eq!(errors[0].0, vec!["broken".to_string()]);
    assert!(!errors[0].0.is_empty(), "the error's path is non-null");
    assert_eq!(data_fields, vec!["healthy".to_string()]);
}
