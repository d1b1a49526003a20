//! End-to-end scenarios over the example schema and resolvers.
use phoebus::Argument;
use phoebus::ConstValue;
use phoebus::DemoResolver;
use phoebus::Directive;
use phoebus::DocValue;
use phoebus::Document;
use phoebus::Executor;
use phoebus::FieldNode;
use phoebus::Name;
use phoebus::OperationDefinition;
use phoebus::OperationType;
use phoebus::QueryResolver;
use phoebus::Selection;
use phoebus::SelectionSet;
use phoebus::InlineFragmentNode;
use phoebus::demo_schema;
use phoebus::to_json;

fn field(name: &str) -> Selection {
    field_full(name, None, vec![], vec![], vec![])
}

fn field_sub(name: &str, sels: Vec<Selection>) -> Selection {
    field_full(name, None, vec![], vec![], sels)
}

fn field_full(
    name: &str,
    alias: Option<&str>,
    arguments: Vec<Argument>,
    directives: Vec<Directive>,
    sels: Vec<Selection>,
) -> Selection {
    Selection::Field(FieldNode {
        alias: alias.map(|a| a.to_string()),
        name: name.to_string(),
        arguments,
        directives,
        selection_set: SelectionSet { selections: sels },
    })
}

fn inline_on(cond: &str, sels: Vec<Selection>) -> Selection {
    Selection::InlineFragment(InlineFragmentNode {
        type_condition: Some(cond.to_string()),
        directives: vec![],
        selection_set: SelectionSet { selections: sels },
    })
}

fn bool_dir(dir: &str, value: bool) -> Directive {
    Directive {
        name: dir.to_string(),
        arguments: vec![Argument { name: "if".to_string(), value: DocValue::BoolValue(value) }],
    }
}

fn query_doc(sels: Vec<Selection>) -> Document {
    Document {
        operations: vec![OperationDefinition {
            name: None,
            operation_type: OperationType::Query,
            selection_set: SelectionSet { selections: sels },
        }],
        fragments: vec![],
    }
}

fn run_to_envelope(doc: &Document) -> String {
    let executor = Executor::new(demo_schema());
    let vars: Vec<(String, ConstValue)> = vec![];
    let data = executor
        .run(doc, DemoResolver::Query(QueryResolver), None, &vars)
        .expect("query should succeed");
    let envelope = ConstValue::Object(vec![(Name::new("data".to_string()), data)]);
    to_json(&envelope)
}

#[test]
fn people_count() {
    let doc = query_doc(vec![field("peopleCount")]);
    assert_eq!(run_to_envelope(&doc), "{\"data\":{\"peopleCount\":42}}");
}

#[test]
fn person_names_and_age() {
    let doc = query_doc(vec![field_sub(
        "person",
        vec![field("firstName"), field("lastName"), field("age")],
    )]);
    assert_eq!(
        run_to_envelope(&doc),
        "{\"data\":{\"person\":{\"firstName\":\"Zack\",\"lastName\":\"Angelo\",\"age\":39}}}"
    );
}

#[test]
fn pets_with_typename_and_inline_fragments() {
    let doc = query_doc(vec![field_sub(
        "person",
        vec![field_sub(
            "pets",
            vec![
                field("__typename"),
                field("name"),
                inline_on("Dog", vec![field("dogBreed")]),
                inline_on("Cat", vec![field("catBreed")]),
            ],
        )],
    )]);
    assert_eq!(
        run_to_envelope(&doc),
        "{\"data\":{\"person\":{\"pets\":[\
         {\"__typename\":\"Dog\",\"name\":\"Coco\",\"dogBreed\":\"CHIHUAHUA\"},\
         {\"__typename\":\"Cat\",\"name\":\"Nemo\",\"catBreed\":\"TABBY\"}]}}}"
    );
}

#[test]
fn aliases_keep_first_seen_order() {
    let doc = query_doc(vec![
        field_full("peopleCount", Some("a"), vec![], vec![], vec![]),
        field_full("peopleCount", Some("b"), vec![], vec![], vec![]),
    ]);
    assert_eq!(run_to_envelope(&doc), "{\"data\":{\"a\":42,\"b\":42}}");
}

#[test]
fn skip_true_omits_field() {
    let doc = query_doc(vec![field_full(
        "peopleCount",
        None,
        vec![],
        vec![bool_dir("skip", true)],
        vec![],
    )]);
    assert_eq!(run_to_envelope(&doc), "{\"data\":{}}");
}

#[test]
fn skip_false_keeps_field() {
    let doc = query_doc(vec![field_full(
        "peopleCount",
        None,
        vec![],
        vec![bool_dir("skip", false)],
        vec![],
    )]);
    assert_eq!(run_to_envelope(&doc), "{\"data\":{\"peopleCount\":42}}");
}

#[test]
fn include_false_omits_field() {
    let doc = query_doc(vec![field_full(
        "peopleCount",
        None,
        vec![],
        vec![bool_dir("include", false)],
        vec![],
    )]);
    assert_eq!(run_to_envelope(&doc), "{\"data\":{}}");
}

#[test]
fn include_true_keeps_field() {
    let doc = query_doc(vec![field_full(
        "peopleCount",
        None,
        vec![],
        vec![bool_dir("include", true)],
        vec![],
    )]);
    assert_eq!(run_to_envelope(&doc), "{\"data\":{\"peopleCount\":42}}");
}

#[test]
fn schema_types_lists_user_types_only() {
    let doc = query_doc(vec![field_sub(
        "__schema",
        vec![field_sub("types", vec![field("name")])],
    )]);
    let out = run_to_envelope(&doc);
    for expected in ["Query", "Person", "Pet", "Dog", "Cat", "DogBreed", "CatBreed"] {
        let needle = format!("{{\"name\":\"{}\"}}", expected);
        assert!(out.contains(&needle), "missing type {} in {}", expected, out);
    }
    assert!(!out.contains("\"name\":\"__"), "introspection types leaked: {}", out);
}

#[test]
fn same_inputs_give_identical_bytes() {
    let doc = query_doc(vec![field_sub(
        "person",
        vec![
            field("firstName"),
            field_sub(
                "pets",
                vec![field("__typename"), field("name"), inline_on("Dog", vec![field("dogBreed")])],
            ),
        ],
    )]);
    let first = run_to_envelope(&doc);
    let second = run_to_envelope(&doc);
    assert_eq!(first, second);
    assert!(first.contains("\"firstName\":\"Zack\""));
}
