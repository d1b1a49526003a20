//! The introspection surface: `__typename`, `__type(name:)`, type kinds,
//! fields and deprecation.
use phoebus::Argument;
use phoebus::ConstValue;
use phoebus::DemoResolver;
use phoebus::Directive;
use phoebus::DocValue;
use phoebus::Document;
use phoebus::Executor;
use phoebus::FieldNode;
use phoebus::OperationDefinition;
use phoebus::OperationType;
use phoebus::QueryResolver;
use phoebus::Selection;
use phoebus::SelectionSet;
use phoebus::demo_schema;
use phoebus::to_json;

fn field(name: &str) -> Selection {
    field_args(name, vec![], vec![])
}

fn field_args(name: &str, arguments: Vec<Argument>, sels: Vec<Selection>) -> Selection {
    Selection::Field(FieldNode {
        alias: None,
        name: name.to_string(),
        arguments,
        directives: vec![],
        selection_set: SelectionSet { selections: sels },
    })
}

fn field_sub(name: &str, sels: Vec<Selection>) -> Selection {
    field_args(name, vec![], sels)
}

fn run_data(sels: Vec<Selection>) -> String {
    let executor = Executor::new(demo_schema());
    let doc = Document {
        operations: vec![OperationDefinition {
            name: None,
            operation_type: OperationType::Query,
            selection_set: SelectionSet { selections: sels },
        }],
        fragments: vec![],
    };
    let vars: Vec<(String, ConstValue)> = vec![];
    let data = executor
        .run(&doc, DemoResolver::Query(QueryResolver), None, &vars)
        .expect("query should succeed");
    to_json(&data)
}

#[test]
fn typename_resolves_without_user_support() {
    // The user resolvers never answer __typename themselves.
    assert_eq!(run_data(vec![field("__typename")]), "{\"__typename\":\"Query\"}");
    assert_eq!(
        run_data(vec![field_sub("person", vec![field("__typename")])]),
        "{\"person\":{\"__typename\":\"Person\"}}"
    );
}

#[test]
fn type_by_name_reports_kind_and_name() {
    let out = run_data(vec![field_args(
        "__type",
        vec![Argument { name: "name".to_string(), value: DocValue::StrValue("Dog".to_string()) }],
        vec![field("kind"), field("name")],
    )]);
    assert_eq!(out, "{\"__type\":{\"kind\":\"OBJECT\",\"name\":\"Dog\"}}");
}

#[test]
fn type_by_name_unknown_is_null() {
    let out = run_data(vec![field_args(
        "__type",
        vec![Argument {
            name: "name".to_string(),
            value: DocValue::StrValue("Nowhere".to_string()),
        }],
        vec![field("kind")],
    )]);
    assert_eq!(out, "{\"__type\":null}");
}

#[test]
fn interface_kind_and_possible_types() {
    let out = run_data(vec![field_args(
        "__type",
        vec![Argument { name: "name".to_string(), value: DocValue::StrValue("Pet".to_string()) }],
        vec![field("kind"), field_sub("possibleTypes", vec![field("name")])],
    )]);
    assert_eq!(
        out,
        "{\"__type\":{\"kind\":\"INTERFACE\",\"possibleTypes\":[{\"name\":\"Dog\"},{\"name\":\"Cat\"}]}}"
    );
}

#[test]
fn enum_kind_and_values() {
    let out = run_data(vec![field_args(
        "__type",
        vec![Argument {
            name: "name".to_string(),
            value: DocValue::StrValue("DogBreed".to_string()),
        }],
        vec![field("kind"), field_sub("enumValues", vec![field("name")])],
    )]);
    assert_eq!(
        out,
        "{\"__type\":{\"kind\":\"ENUM\",\"enumValues\":[{\"name\":\"CHIHUAHUA\"}]}}"
    );
}

#[test]
fn object_fields_and_wrapped_types() {
    let out = run_data(vec![field_args(
        "__type",
        vec![Argument {
            name: "name".to_string(),
            value: DocValue::StrValue("Person".to_string()),
        }],
        vec![field_sub(
            "fields",
            vec![
                field("name"),
                field_sub("type", vec![field("kind"), field_sub("ofType", vec![field("name")])]),
            ],
        )],
    )]);
    assert!(out.contains("{\"name\":\"firstName\",\"type\":{\"kind\":\"SCALAR\",\"ofType\":null}}")
        || out.contains("{\"name\":\"firstName\",\"type\":{\"kind\":null,\"ofType\":null}}"),
        "unexpected fields shape: {}", out);
    assert!(out.contains("\"name\":\"pets\""), "missing pets in {}", out);
    assert!(out.contains("\"kind\":\"LIST\""), "missing LIST kind in {}", out);
}

#[test]
fn interfaces_of_an_object() {
    let out = run_data(vec![field_args(
        "__type",
        vec![Argument { name: "name".to_string(), value: DocValue::StrValue("Cat".to_string()) }],
        vec![field_sub("interfaces", vec![field("name")])],
    )]);
    assert_eq!(out, "{\"__type\":{\"interfaces\":[{\"name\":\"Pet\"}]}}");
}

#[test]
fn schema_query_type_and_roots() {
    let out = run_data(vec![field_sub(
        "__schema",
        vec![
            field_sub("queryType", vec![field("name")]),
            field("mutationType"),
            field("subscriptionType"),
        ],
    )]);
    assert_eq!(
        out,
        "{\"__schema\":{\"queryType\":{\"name\":\"Query\"},\"mutationType\":null,\"subscriptionType\":null}}"
    );
}

#[test]
fn deprecation_is_read_from_directives() {
    let mut schema = demo_schema();
    // Mark Person.age deprecated with a reason.
    for t in schema.types.iter_mut() {
        if let phoebus::TypeDefinition::Object(o) = t {
            if o.name == "Person" {
                for f in o.fields.iter_mut() {
                    if f.name == "age" {
                        f.directives.push(Directive {
                            name: "deprecated".to_string(),
                            arguments: vec![Argument {
                                name: "reason".to_string(),
                                value: DocValue::StrValue("use birthDate".to_string()),
                            }],
                        });
                    }
                }
            }
        }
    }
    let executor = Executor::new(schema);
    let doc = Document {
        operations: vec![OperationDefinition {
            name: None,
            operation_type: OperationType::Query,
            selection_set: SelectionSet {
                selections: vec![field_args(
                    "__type",
                    vec![Argument {
                        name: "name".to_string(),
                        value: DocValue::StrValue("Person".to_string()),
                    }],
                    vec![field_sub(
                        "fields",
                        vec![field("name"), field("isDeprecated"), field("deprecationReason")],
                    )],
                )],
            },
        }],
        fragments: vec![],
    };
    let vars: Vec<(String, ConstValue)> = vec![];
    let data = executor
        .run(&doc, DemoResolver::Query(QueryResolver), None, &vars)
        .expect("query should succeed");
    let out = to_json(&data);
    assert!(out.contains(
        "{\"name\":\"age\",\"isDeprecated\":true,\"deprecationReason\":\"use birthDate\"}"
    ), "unexpected: {}", out);
    assert!(out.contains(
        "{\"name\":\"firstName\",\"isDeprecated\":false,\"deprecationReason\":null}"
    ), "unexpected: {}", out);
}
