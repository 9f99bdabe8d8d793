use tailcall::blueprint::Blueprint;
use tailcall::blueprint::Definition;
use tailcall::blueprint::EnumTypeDefinition;
use tailcall::blueprint::EnumValueDefinition;
use tailcall::blueprint::FieldDefinition;
use tailcall::blueprint::ObjectTypeDefinition;
use tailcall::blueprint::SchemaDefinition;
use tailcall::blueprint::Type;
use tailcall::cli::command_event_name;
use tailcall::cli::config_file_name;
use tailcall::cli::display_schema;
use tailcall::cli::ensure_schema_entry;
use tailcall::cli::log_endpoint_set;
use tailcall::cli::Endpoint;
use tailcall::cli::EndpointSet;
use tailcall::cli::FileFormat;
use tailcall::http::Method;
use tailcall::lint::Lint;
use tailcall::lint::TextCase;

fn endpoint(method: Method, path: &str) -> Endpoint {
    Endpoint { method, path: path.to_string() }
}

#[test]
fn endpoints_are_logged_sorted_by_method_then_path() {
    let set = EndpointSet {
        endpoints: vec![
            endpoint(Method::Post, "/orders"),
            endpoint(Method::Get, "/users"),
            endpoint(Method::Get, "/orders"),
            endpoint(Method::Delete, "/users"),
        ],
    };
    let lines = log_endpoint_set(&set);
    assert_eq!(
        lines,
        vec![
            "Endpoint: DELETE /api/users ... ok".to_string(),
            "Endpoint: GET /api/orders ... ok".to_string(),
            "Endpoint: GET /api/users ... ok".to_string(),
            "Endpoint: POST /api/orders ... ok".to_string(),
        ]
    );
}

#[test]
fn an_empty_endpoint_set_logs_nothing() {
    let set = EndpointSet { endpoints: Vec::new() };
    assert!(log_endpoint_set(&set).is_empty());
}

#[test]
fn command_event_names_are_snake_case() {
    assert_eq!(command_event_name("Start"), "start");
    assert_eq!(command_event_name("CheckAll"), "check_all");
    assert_ne!(command_event_name("CheckAll"), "CheckAll");
}

#[test]
fn a_missing_schema_entry_is_appended() {
    let entries = vec!["./a.graphql".to_string()];
    let (updated, added) = ensure_schema_entry(entries, &"./.tailcallrc.graphql".to_string());
    assert!(added);
    assert_eq!(
        updated,
        vec!["./a.graphql".to_string(), "./.tailcallrc.graphql".to_string()]
    );
}

#[test]
fn a_present_schema_entry_is_left_alone() {
    let entries = vec!["./.tailcallrc.graphql".to_string()];
    let (updated, added) = ensure_schema_entry(entries, &"./.tailcallrc.graphql".to_string());
    assert!(!added);
    assert_eq!(updated, vec!["./.tailcallrc.graphql".to_string()]);
}

#[test]
fn config_file_names_carry_the_format_extension() {
    let name = "hello".to_string();
    assert_eq!(config_file_name(&name, FileFormat::Graphql), "hello.graphql");
    assert_eq!(config_file_name(&name, FileFormat::Json), "hello.json");
    assert_eq!(config_file_name(&name, FileFormat::Yaml), "hello.yaml");
}

#[test]
fn display_schema_renders_the_blueprint() {
    let bp = Blueprint {
        definitions: vec![
            Definition::ObjectTypeDefinition(ObjectTypeDefinition {
                name: "User".to_string(),
                fields: vec![
                    FieldDefinition {
                        name: "id".to_string(),
                        of_type: Type::NamedType { name: "Int".to_string(), non_null: true },
                        args: Vec::new(),
                        resolver: None,
                    },
                    FieldDefinition {
                        name: "name".to_string(),
                        of_type: Type::NamedType { name: "String".to_string(), non_null: true },
                        args: Vec::new(),
                        resolver: None,
                    },
                ],
                implements: Vec::new(),
            }),
            Definition::EnumTypeDefinition(EnumTypeDefinition {
                name: "Role".to_string(),
                enum_values: vec![EnumValueDefinition { name: "ADMIN".to_string() }],
            }),
        ],
        schema: SchemaDefinition {
            query: "Query".to_string(),
            mutation: Some("Mutation".to_string()),
            directives: Vec::new(),
        },
    };
    let rendered = display_schema(&bp);
    let expected = "GraphQL Schema:\n\
                    schema {\n  query: Query\n  mutation: Mutation\n}\n\
                    \ntype User {\n  id: Int!\n  name: String!\n}\n\
                    \nenum Role {\n  ADMIN\n}\n\n";
    assert_eq!(rendered, expected);
}

#[test]
fn display_schema_renders_list_types_and_arguments() {
    let bp = Blueprint {
        definitions: vec![Definition::ObjectTypeDefinition(ObjectTypeDefinition {
            name: "Query".to_string(),
            fields: vec![FieldDefinition {
                name: "users".to_string(),
                of_type: Type::ListType {
                    of_type: Box::new(Type::NamedType {
                        name: "User".to_string(),
                        non_null: true,
                    }),
                    non_null: true,
                },
                args: vec![
                    tailcall::blueprint::ArgumentDefinition {
                        name: "limit".to_string(),
                        of_type: Type::NamedType { name: "Int".to_string(), non_null: false },
                    },
                    tailcall::blueprint::ArgumentDefinition {
                        name: "after".to_string(),
                        of_type: Type::NamedType { name: "ID".to_string(), non_null: false },
                    },
                ],
                resolver: None,
            }],
            implements: Vec::new(),
        })],
        schema: SchemaDefinition {
            query: "Query".to_string(),
            mutation: None,
            directives: Vec::new(),
        },
    };
    let rendered = display_schema(&bp);
    let expected = "GraphQL Schema:\n\
                    schema {\n  query: Query\n}\n\
                    \ntype Query {\n  users(limit: Int, after: ID): [User!]!\n}\n\n";
    assert_eq!(rendered, expected);
}

#[test]
fn text_cases_display_their_conventional_names() {
    assert_eq!(TextCase::Camel.text(), "camelCase");
    assert_eq!(TextCase::Pascal.text(), "PascalCase");
    assert_eq!(TextCase::Snake.text(), "snake_case");
    assert_eq!(TextCase::ScreamingSnake.text(), "SCREAMING_SNAKE_CASE");
}

#[test]
fn the_default_lint_has_every_setting_absent() {
    let lint = Lint::default();
    assert_eq!(lint.auto_fix, None);
    assert_eq!(lint.enum_lint, None);
    assert_eq!(lint.enum_value_lint, None);
    assert_eq!(lint.field_lint, None);
    assert_eq!(lint.type_lint, None);
}

#[test]
fn methods_carry_their_wire_names() {
    assert_eq!(Method::Get.name(), "GET");
    assert_eq!(Method::Post.name(), "POST");
    assert_eq!(Method::Delete.name(), "DELETE");
}
